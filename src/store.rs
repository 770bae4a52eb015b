use vstd::prelude::*;

verus! {

/// A handle to a body of a `BodyStore`: its index there. Handles compare by
/// index.
#[derive(Debug, Clone, Copy, PartialEq, Eq, Structural, Hash)]
pub struct RigidBody {
    index: usize,
}

impl RigidBody {
    pub closed spec fn spec_index(&self) -> usize {
        self.index
    }

    /// The handle of the body at `index`.
    pub fn from_index(index: usize) -> (r: Self)
        ensures
            r.spec_index() == index,
    {
        RigidBody { index }
    }

    /// The index of the body in its store.
    pub fn index(&self) -> (r: usize)
        ensures
            r == self.spec_index(),
    {
        self.index
    }
}

/// The arena that owns every simulated body. Bodies are only ever added, so
/// a handle stays valid for the life of the store.
pub struct BodyStore<T> {
    bodies: Vec<T>,
}

impl<T> View for BodyStore<T> {
    type V = Seq<T>;

    /// The bodies, by index.
    closed spec fn view(&self) -> Seq<T> {
        self.bodies@
    }
}

impl<T> BodyStore<T> {
    /// An empty store.
    pub fn new() -> (r: Self)
        ensures
            r@ == Seq::<T>::empty(),
    {
        BodyStore { bodies: Vec::new() }
    }

    /// The number of bodies.
    pub fn len(&self) -> (r: usize)
        ensures
            r == self@.len(),
    {
        self.bodies.len()
    }

    /// Adds a body and returns its handle.
    pub fn insert(&mut self, body: T) -> (r: RigidBody)
        ensures
            final(self)@ == old(self)@.push(body),
            r.spec_index() == old(self)@.len(),
    {
        let index = self.bodies.len();
        self.bodies.push(body);
        RigidBody { index }
    }

    /// The body of handle `h`, if it is one of this store's.
    pub fn get(&self, h: RigidBody) -> (r: Option<&T>)
        ensures
            h.spec_index() < self@.len() ==> r == Some(&self@[h.spec_index() as int]),
            h.spec_index() >= self@.len() ==> r is None,
    {
        if h.index < self.bodies.len() {
            Some(&self.bodies[h.index])
        } else {
            None
        }
    }

    /// The body of handle `h`, to change it in place.
    pub fn get_mut(&mut self, h: RigidBody) -> (r: &mut T)
        requires
            h.spec_index() < old(self)@.len(),
        ensures
            *r == old(self)@[h.spec_index() as int],
            final(self)@ == old(self)@.update(h.spec_index() as int, *final(r)),
    {
        &mut self.bodies[h.index]
    }

    /// The handle of every body, in index order.
    pub fn handles(&self) -> (r: Vec<RigidBody>)
        ensures
            r@.len() == self@.len(),
            forall|i: int| 0 <= i < r@.len() ==> (#[trigger] r@[i]).spec_index() == i,
    {
        let mut out: Vec<RigidBody> = Vec::new();
        let mut i: usize = 0;
        while i < self.bodies.len()
            invariant
                i <= self@.len(),
                out@.len() == i,
                forall|k: int| 0 <= k < i ==> (#[trigger] out@[k]).spec_index() == k,
            decreases self@.len() - i,
        {
            out.push(RigidBody { index: i });
            i += 1;
        }
        out
    }
}

} // verus!
