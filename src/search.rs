use vstd::prelude::*;

use crate::collider::Collider;
use crate::narrowing::ColliderIterator;

verus! {

/// Every pair of a node of `a` with a node of `b`: the nodes of `b` paired
/// with `a[0]`, then those paired with `a[1]`, and so on.
pub open spec fn pairs(a: Seq<ColliderIterator>, b: Seq<ColliderIterator>) -> Seq<
    (ColliderIterator, ColliderIterator),
>
    decreases a.len(),
{
    if a.len() == 0 {
        seq![]
    } else {
        pairs(a.drop_last(), b) + b.map_values(|y: ColliderIterator| (a.last(), y))
    }
}

/// The work stack of the narrow phase between two colliders.
///
/// It starts with every pair of root nodes. The caller pops a pair, runs the
/// geometric test on the two nodes, and hands the pair back to `refine` when
/// the test found a contact deeper than the best one so far; `refine` then
/// pushes every pair of the nodes' children. The search ends when the stack
/// is empty.
pub struct CollisionSearch {
    stack: Vec<(ColliderIterator, ColliderIterator)>,
}

impl View for CollisionSearch {
    type V = Seq<(ColliderIterator, ColliderIterator)>;

    /// The pairs still to test; the last one is tested next.
    closed spec fn view(&self) -> Self::V {
        self.stack@
    }
}

/// The nodes that `node` of collider `c` narrows into.
fn narrow<S>(c: &Collider<S>, node: ColliderIterator) -> (r: Vec<ColliderIterator>)
    requires
        c.fits(node),
    ensures
        r@ == c.node_children(node),
{
    match c {
        Collider::Object(d) => node.next(d),
        _ => vec![node],
    }
}

/// Appends every pair of a node of `a` with a node of `b` to `stack`.
fn push_pairs(
    stack: &mut Vec<(ColliderIterator, ColliderIterator)>,
    a: &Vec<ColliderIterator>,
    b: &Vec<ColliderIterator>,
)
    ensures
        final(stack)@ == old(stack)@ + pairs(a@, b@),
{
    let ghost start = stack@;
    let mut i: usize = 0;
    while i < a.len()
        invariant
            i <= a@.len(),
            stack@ == start + pairs(a@.take(i as int), b@),
        decreases a@.len() - i,
    {
        let x = a[i];
        let mut j: usize = 0;
        while j < b.len()
            invariant
                i < a@.len(),
                j <= b@.len(),
                x == a@[i as int],
                stack@ == start + pairs(a@.take(i as int), b@) + b@.take(j as int).map_values(
                    |y: ColliderIterator| (x, y),
                ),
            decreases b@.len() - j,
        {
            let ghost before = stack@;
            stack.push((x, b[j]));
            proof {
                assert(b@.take(j + 1).map_values(|y: ColliderIterator| (x, y)) =~= b@.take(
                    j as int,
                ).map_values(|y: ColliderIterator| (x, y)).push((x, b@[j as int])));
                assert(stack@ =~= start + pairs(a@.take(i as int), b@) + b@.take(
                    j + 1,
                ).map_values(|y: ColliderIterator| (x, y)));
            }
            j += 1;
        }
        proof {
            let t = a@.take(i + 1);
            assert(t.drop_last() =~= a@.take(i as int));
            assert(b@.take(b@.len() as int) =~= b@);
            assert(pairs(t, b@) == pairs(a@.take(i as int), b@) + b@.map_values(
                |y: ColliderIterator| (x, y),
            ));
            assert(stack@ =~= start + pairs(t, b@));
        }
        i += 1;
    }
    proof {
        assert(a@.take(a@.len() as int) =~= a@);
    }
}

impl CollisionSearch {
    /// A search over every pair of root nodes of `a` and `b`.
    pub fn new<S>(a: &Collider<S>, b: &Collider<S>) -> (r: Self)
        ensures
            r@ == pairs(a.root_nodes(), b.root_nodes()),
    {
        let ra = a.roots();
        let rb = b.roots();
        let mut stack = Vec::new();
        push_pairs(&mut stack, &ra, &rb);
        proof {
            assert(stack@ =~= pairs(ra@, rb@));
        }
        CollisionSearch { stack }
    }

    /// Takes the next pair to test, if any is left.
    pub fn pop(&mut self) -> (r: Option<(ColliderIterator, ColliderIterator)>)
        ensures
            old(self)@.len() == 0 ==> r is None && final(self)@ == old(self)@,
            old(self)@.len() > 0 ==> r == Some(old(self)@.last()) && final(self)@ == old(
                self,
            )@.drop_last(),
    {
        self.stack.pop()
    }

    /// No pair is left to test.
    pub fn is_done(&self) -> (r: bool)
        ensures
            r == (self@.len() == 0),
    {
        self.stack.len() == 0
    }

    /// Narrows a pair whose test found a contact: pushes every pair of the
    /// children of its two nodes, unless both nodes are leaves, or a node is
    /// not one of its collider's. Returns whether it narrowed.
    pub fn refine<S>(
        &mut self,
        a: &Collider<S>,
        b: &Collider<S>,
        pair: (ColliderIterator, ColliderIterator),
    ) -> (r: bool)
        ensures
            r == (a.fits(pair.0) && b.fits(pair.1) && !(pair.0.spec_is_leaf()
                && pair.1.spec_is_leaf())),
            r ==> final(self)@ == old(self)@ + pairs(
                a.node_children(pair.0),
                b.node_children(pair.1),
            ),
            !r ==> final(self)@ == old(self)@,
    {
        let (na, nb) = pair;
        if !a.fits_node(&na) || !b.fits_node(&nb) || (na.is_leaf() && nb.is_leaf()) {
            return false;
        }
        let ca = narrow(a, na);
        let cb = narrow(b, nb);
        push_pairs(&mut self.stack, &ca, &cb);
        true
    }
}

/// Total extent of a pair of nodes: the sum of the widths of its object
/// nodes; box and ray nodes count nothing.
pub open spec fn pair_extent(p: (ColliderIterator, ColliderIterator)) -> int {
    p.0.extent() + p.1.extent()
}

proof fn lemma_pairs_members(
    a: Seq<ColliderIterator>,
    b: Seq<ColliderIterator>,
    pa: spec_fn(ColliderIterator) -> bool,
    pb: spec_fn(ColliderIterator) -> bool,
)
    requires
        forall|i: int| 0 <= i < a.len() ==> pa(#[trigger] a[i]),
        forall|j: int| 0 <= j < b.len() ==> pb(#[trigger] b[j]),
    ensures
        forall|k: int|
            0 <= k < pairs(a, b).len() ==> pa((#[trigger] pairs(a, b)[k]).0) && pb(pairs(a, b)[k].1),
    decreases a.len(),
{
    if a.len() > 0 {
        lemma_pairs_members(a.drop_last(), b, pa, pb);
        let prev = pairs(a.drop_last(), b);
        let all = pairs(a, b);
        assert forall|k: int| 0 <= k < all.len() implies pa((#[trigger] all[k]).0) && pb(all[k].1) by {
            if k < prev.len() {
                assert(all[k] == prev[k]);
            } else {
                assert(all[k] == (a.last(), b[k - prev.len()]));
            }
        }
    }
}

/// Narrowing makes progress: every pair that `refine` pushes for a pair has
/// a smaller total extent than that pair, so a search whose caller refines
/// only pairs that it popped comes to an end.
pub proof fn lemma_refine_shrinks<S>(
    a: &Collider<S>,
    b: &Collider<S>,
    pair: (ColliderIterator, ColliderIterator),
)
    requires
        a.fits(pair.0),
        b.fits(pair.1),
        !(pair.0.spec_is_leaf() && pair.1.spec_is_leaf()),
    ensures
        forall|k: int|
            0 <= k < pairs(a.node_children(pair.0), b.node_children(pair.1)).len()
                ==> pair_extent(#[trigger] pairs(a.node_children(pair.0), b.node_children(pair.1))[k])
                < pair_extent(pair),
{
    let (na, nb) = pair;
    let ka = a.node_children(na);
    let kb = b.node_children(nb);
    let ea = na.extent();
    let eb = nb.extent();
    if na.is_object() && nb.is_object() {
        assert forall|i: int| 0 <= i < ka.len() implies (#[trigger] ka[i]).extent() < ea by {
            na.lemma_children_shrink(a.object_data());
        }
        assert forall|j: int| 0 <= j < kb.len() implies (#[trigger] kb[j]).extent() < eb by {
            nb.lemma_children_shrink(b.object_data());
        }
        lemma_pairs_members(
            ka,
            kb,
            |x: ColliderIterator| x.extent() < ea,
            |y: ColliderIterator| y.extent() < eb,
        );
    } else if na.is_object() {
        assert(!na.spec_is_leaf());
        assert forall|i: int| 0 <= i < ka.len() implies (#[trigger] ka[i]).extent() < ea by {
            na.lemma_children_shrink(a.object_data());
        }
        assert forall|j: int| 0 <= j < kb.len() implies (#[trigger] kb[j]).extent() <= eb by {}
        lemma_pairs_members(
            ka,
            kb,
            |x: ColliderIterator| x.extent() < ea,
            |y: ColliderIterator| y.extent() <= eb,
        );
    } else if nb.is_object() {
        assert(!nb.spec_is_leaf());
        assert forall|i: int| 0 <= i < ka.len() implies (#[trigger] ka[i]).extent() <= ea by {}
        assert forall|j: int| 0 <= j < kb.len() implies (#[trigger] kb[j]).extent() < eb by {
            nb.lemma_children_shrink(b.object_data());
        }
        lemma_pairs_members(
            ka,
            kb,
            |x: ColliderIterator| x.extent() <= ea,
            |y: ColliderIterator| y.extent() < eb,
        );
    }
}

} // verus!
