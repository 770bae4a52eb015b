use vstd::prelude::*;

use cgmath::Vector3;

use crate::narrowing::ColliderIterator;
use crate::voxel::ObjectData;

verus! {

/// A 3-vector of cgmath, carried through the collider unread.
#[verifier::external_type_specification]
#[verifier::external_body]
#[verifier::reject_recursive_types(S)]
pub struct ExVector3<S>(Vector3<S>);

/// Relies on cgmath's derived `Clone` for `Vector3`, which clones each
/// component; nothing is claimed of the copy, as `S::clone` is arbitrary.
pub assume_specification<S>[ <Vector3<S> as Clone>::clone ](v: &Vector3<S>) -> Vector3<S>
    where
        S: Clone,
;

/// A finite ray segment from `pos` to `pos + dir`.
#[derive(Debug, Clone)]
#[verifier::reject_recursive_types(S)]
pub struct RayData<S> {
    pub pos: Vector3<S>,
    pub dir: Vector3<S>,
}

/// A box with its center offset (body frame) and half-extents.
#[derive(Debug, Clone)]
#[verifier::reject_recursive_types(S)]
pub struct BoxData<S> {
    pub center: Vector3<S>,
    pub half_extents: Vector3<S>,
}

/// The collision shape of a rigid body, over the scalar type `S` of its
/// geometry.
#[derive(Debug, Clone)]
#[verifier::reject_recursive_types(S)]
pub enum Collider<S> {
    Ray(RayData<S>),
    Box(BoxData<S>),
    Object(ObjectData),
}

/// The root nodes of chunks `0..n` of a voxel object: one whole-chunk node
/// per chunk that holds an occupied voxel, in chunk order.
pub open spec fn object_roots(data: &ObjectData, n: int) -> Seq<ColliderIterator>
    decreases n,
{
    if n <= 0 {
        seq![]
    } else {
        let node = ColliderIterator::ObjectIterator {
            chunk_index: (n - 1) as usize,
            start_x: 0,
            start_y: 0,
            start_z: 0,
            width_x: 16,
            width_y: 16,
            width_z: 16,
            xyz_index: 0,
        };
        object_roots(data, n - 1) + if node.has_blocks(data) {
            seq![node]
        } else {
            seq![]
        }
    }
}

impl<S> Collider<S> {
    /// The nodes that narrowing of this collider starts from.
    pub open spec fn root_nodes(&self) -> Seq<ColliderIterator> {
        match self {
            Collider::Ray(_) => seq![ColliderIterator::RayIterator],
            Collider::Box(_) => seq![ColliderIterator::BoxIterator],
            Collider::Object(d) => object_roots(d, d.chunks@.len() as int),
        }
    }

    /// `node` is a node of this collider: of the same kind and, for a voxel
    /// object, inside one of its chunks.
    pub open spec fn fits(&self, node: ColliderIterator) -> bool {
        match self {
            Collider::Ray(_) => node == ColliderIterator::RayIterator,
            Collider::Box(_) => node == ColliderIterator::BoxIterator,
            Collider::Object(d) => node.is_object() && node.valid_for(d),
        }
    }

    /// The voxel data of an object collider.
    pub open spec fn object_data(&self) -> &ObjectData {
        match self {
            Collider::Object(d) => d,
            _ => arbitrary(),
        }
    }

    /// The nodes that `node` of this collider narrows into.
    pub open spec fn node_children(&self, node: ColliderIterator) -> Seq<ColliderIterator> {
        match self {
            Collider::Object(d) => node.children(d),
            _ => seq![node],
        }
    }

    /// A voxel object with no chunks.
    pub fn empty_object() -> (r: Self)
        ensures
            r matches Collider::Object(d) && d.wf() && d.chunks@.len() == 0,
    {
        Collider::Object(ObjectData::new())
    }

    /// A ray collider from `pos` along `dir`.
    pub fn new_ray(pos: Vector3<S>, dir: Vector3<S>) -> (r: Self)
        ensures
            r == Collider::Ray(RayData { pos, dir }),
    {
        Collider::Ray(RayData { pos, dir })
    }

    /// The root nodes of this collider; chunks without an occupied voxel
    /// are never visited.
    pub fn roots(&self) -> (r: Vec<ColliderIterator>)
        ensures
            r@ == self.root_nodes(),
            forall|i: int| 0 <= i < r@.len() ==> self.fits(#[trigger] r@[i]),
    {
        match self {
            Collider::Ray(_) => vec![ColliderIterator::new_ray()],
            Collider::Box(_) => vec![ColliderIterator::new_box()],
            Collider::Object(d) => {
                let mut out: Vec<ColliderIterator> = Vec::new();
                let mut i: usize = 0;
                while i < d.chunks.len()
                    invariant
                        i <= d.chunks@.len(),
                        out@ == object_roots(d, i as int),
                        forall|k: int|
                            0 <= k < out@.len() ==> (#[trigger] out@[k]).is_object() && out@[k].valid_for(
                                d,
                            ),
                    decreases d.chunks@.len() - i,
                {
                    let node = ColliderIterator::new_object(i);
                    if node.contains_blocks(d) {
                        out.push(node);
                    }
                    i += 1;
                }
                out
            },
        }
    }

    /// Whether `node` is a node of this collider.
    pub fn fits_node(&self, node: &ColliderIterator) -> (r: bool)
        ensures
            r == self.fits(*node),
    {
        match self {
            Collider::Ray(_) => *node == ColliderIterator::RayIterator,
            Collider::Box(_) => *node == ColliderIterator::BoxIterator,
            Collider::Object(d) => node.is_valid_for(d),
        }
    }
}

/// Empty chunks are never visited: every root node that a voxel object
/// starts narrowing from holds an occupied voxel.
pub proof fn lemma_object_roots_hold_blocks(data: &ObjectData, n: int)
    ensures
        forall|i: int|
            0 <= i < object_roots(data, n).len() ==> (#[trigger] object_roots(data, n)[i]).has_blocks(
                data,
            ),
    decreases n,
{
    if n > 0 {
        lemma_object_roots_hold_blocks(data, n - 1);
        let prev = object_roots(data, n - 1);
        let all = object_roots(data, n);
        assert forall|i: int| 0 <= i < all.len() implies (#[trigger] all[i]).has_blocks(data) by {
            if i < prev.len() {
                assert(all[i] == prev[i]);
            }
        }
    }
}

} // verus!
