use vstd::prelude::*;

use crate::voxel::{occupied, region_occupied, ObjectData};

verus! {

/// Extent of a narrowing node along one axis: a power of two that fits in a chunk.
pub open spec fn is_width(w: u16) -> bool {
    w == 1 || w == 2 || w == 4 || w == 8 || w == 16
}

fn is_width_exec(w: u16) -> (r: bool)
    ensures
        r == is_width(w),
{
    w == 1 || w == 2 || w == 4 || w == 8 || w == 16
}

/// A node of the lazy narrowing of a collider.
///
/// Box and ray colliders are a single node that never splits. A voxel object
/// contributes one node per chunk; such a node is the chunk-local sub-box with
/// corner `start_*` and extents `width_*`, and `xyz_index` names the axis
/// (0 = x, 1 = y, 2 = z) that the next bisection halves.
#[derive(Debug, Clone, Copy, PartialEq, Eq, Structural)]
pub enum ColliderIterator {
    BoxIterator,
    RayIterator,
    ObjectIterator {
        chunk_index: usize,
        start_x: u16,
        start_y: u16,
        start_z: u16,
        width_x: u16,
        width_y: u16,
        width_z: u16,
        xyz_index: u8,
    },
}

impl ColliderIterator {
    /// Shape invariant of a node: an object node's box lies inside its chunk
    /// and has power-of-two extents.
    pub open spec fn wf(&self) -> bool {
        match *self {
            ColliderIterator::ObjectIterator {
                start_x,
                start_y,
                start_z,
                width_x,
                width_y,
                width_z,
                xyz_index,
                ..
            } => {
                &&& is_width(width_x) && is_width(width_y) && is_width(width_z)
                &&& start_x + width_x <= 16 && start_y + width_y <= 16 && start_z + width_z <= 16
                &&& xyz_index < 3
            },
            _ => true,
        }
    }

    /// The node is well formed and, for an object node, names a chunk of `data`.
    pub open spec fn valid_for(&self, data: &ObjectData) -> bool {
        &&& self.wf()
        &&& match *self {
            ColliderIterator::ObjectIterator { chunk_index, .. } => chunk_index < data.chunks@.len(),
            _ => true,
        }
    }

    pub open spec fn is_object(&self) -> bool {
        self is ObjectIterator
    }

    /// Index of the chunk that an object node narrows.
    pub open spec fn chunk(&self) -> int {
        match *self {
            ColliderIterator::ObjectIterator { chunk_index, .. } => chunk_index as int,
            _ => -1,
        }
    }

    /// The sum of an object node's widths; 0 for a box or ray node.
    pub open spec fn extent(&self) -> int {
        match *self {
            ColliderIterator::ObjectIterator { width_x, width_y, width_z, .. } => width_x + width_y
                + width_z,
            _ => 0,
        }
    }

    /// Each child of an object node is narrower than the node.
    pub proof fn lemma_children_shrink(&self, data: &ObjectData)
        requires
            self.is_object(),
            self.wf(),
        ensures
            forall|i: int|
                0 <= i < self.children(data).len() ==> (#[trigger] self.children(data)[i]).extent()
                    < self.extent(),
    {
    }

    /// The chunk-local voxel `(x, y, z)` of chunk `ci` lies inside this object node.
    pub open spec fn covers(&self, ci: int, x: int, y: int, z: int) -> bool {
        match *self {
            ColliderIterator::ObjectIterator {
                chunk_index,
                start_x,
                start_y,
                start_z,
                width_x,
                width_y,
                width_z,
                ..
            } => {
                &&& chunk_index == ci
                &&& start_x <= x < start_x + width_x
                &&& start_y <= y < start_y + width_y
                &&& start_z <= z < start_z + width_z
            },
            _ => false,
        }
    }

    /// Some voxel of this object node is occupied in `data`.
    pub open spec fn has_blocks(&self, data: &ObjectData) -> bool {
        match *self {
            ColliderIterator::ObjectIterator {
                chunk_index,
                start_x,
                start_y,
                start_z,
                width_x,
                width_y,
                width_z,
                ..
            } => region_occupied(
                data.rows(chunk_index as int),
                start_x as int,
                start_y as int,
                start_z as int,
                width_x as int,
                width_y as int,
                width_z as int,
            ),
            _ => false,
        }
    }

    /// The node cannot be split any further.
    pub open spec fn spec_is_leaf(&self) -> bool {
        match *self {
            ColliderIterator::ObjectIterator { width_x, width_y, width_z, .. } => width_x == 1
                && width_y == 1 && width_z == 1,
            _ => true,
        }
    }

    /// The extent of an object node along the axis that it splits next.
    pub open spec fn split_width(&self) -> u16 {
        match *self {
            ColliderIterator::ObjectIterator { width_x, width_y, width_z, xyz_index, .. } => {
                if xyz_index == 0 {
                    width_x
                } else if xyz_index == 1 {
                    width_y
                } else {
                    width_z
                }
            },
            _ => 1,
        }
    }

    /// The two halves of an object node, cut across its split axis; the
    /// halves split along the following axis (x, then y, then z, then x).
    pub open spec fn halves(&self) -> (Self, Self) {
        match *self {
            ColliderIterator::ObjectIterator {
                chunk_index,
                start_x,
                start_y,
                start_z,
                width_x,
                width_y,
                width_z,
                xyz_index,
            } => {
                let next_axis = ((xyz_index + 1) % 3) as u8;
                if xyz_index == 0 {
                    let w = (width_x / 2) as u16;
                    (
                        ColliderIterator::ObjectIterator {
                            chunk_index,
                            start_x,
                            start_y,
                            start_z,
                            width_x: w,
                            width_y,
                            width_z,
                            xyz_index: next_axis,
                        },
                        ColliderIterator::ObjectIterator {
                            chunk_index,
                            start_x: (start_x + w) as u16,
                            start_y,
                            start_z,
                            width_x: w,
                            width_y,
                            width_z,
                            xyz_index: next_axis,
                        },
                    )
                } else if xyz_index == 1 {
                    let w = (width_y / 2) as u16;
                    (
                        ColliderIterator::ObjectIterator {
                            chunk_index,
                            start_x,
                            start_y,
                            start_z,
                            width_x,
                            width_y: w,
                            width_z,
                            xyz_index: next_axis,
                        },
                        ColliderIterator::ObjectIterator {
                            chunk_index,
                            start_x,
                            start_y: (start_y + w) as u16,
                            start_z,
                            width_x,
                            width_y: w,
                            width_z,
                            xyz_index: next_axis,
                        },
                    )
                } else {
                    let w = (width_z / 2) as u16;
                    (
                        ColliderIterator::ObjectIterator {
                            chunk_index,
                            start_x,
                            start_y,
                            start_z,
                            width_x,
                            width_y,
                            width_z: w,
                            xyz_index: next_axis,
                        },
                        ColliderIterator::ObjectIterator {
                            chunk_index,
                            start_x,
                            start_y,
                            start_z: (start_z + w) as u16,
                            width_x,
                            width_y,
                            width_z: w,
                            xyz_index: next_axis,
                        },
                    )
                }
            },
            _ => (*self, *self),
        }
    }

    /// What `next` returns: a box or ray node yields itself; an object node
    /// whose split axis is one voxel wide yields nothing; otherwise the
    /// halves that hold an occupied voxel, lower half first.
    pub open spec fn children(&self, data: &ObjectData) -> Seq<Self> {
        if !self.is_object() {
            seq![*self]
        } else if self.split_width() == 1 {
            seq![]
        } else {
            let (lo, hi) = self.halves();
            (if lo.has_blocks(data) {
                seq![lo]
            } else {
                seq![]
            }) + (if hi.has_blocks(data) {
                seq![hi]
            } else {
                seq![]
            })
        }
    }
}

impl ColliderIterator {
    /// The single node of a box collider.
    pub fn new_box() -> (r: Self)
        ensures
            r == ColliderIterator::BoxIterator,
    {
        ColliderIterator::BoxIterator
    }

    /// The single node of a ray collider.
    pub fn new_ray() -> (r: Self)
        ensures
            r == ColliderIterator::RayIterator,
    {
        ColliderIterator::RayIterator
    }

    /// The root node of chunk `index` of a voxel object: the whole chunk,
    /// to be split first along x.
    pub fn new_object(index: usize) -> (r: Self)
        ensures
            r == (ColliderIterator::ObjectIterator {
                chunk_index: index,
                start_x: 0,
                start_y: 0,
                start_z: 0,
                width_x: 16,
                width_y: 16,
                width_z: 16,
                xyz_index: 0,
            }),
            r.wf(),
    {
        ColliderIterator::ObjectIterator {
            chunk_index: index,
            start_x: 0,
            start_y: 0,
            start_z: 0,
            width_x: 16,
            width_y: 16,
            width_z: 16,
            xyz_index: 0,
        }
    }

    /// True if this node never splits: a box, a ray, or a single voxel.
    pub fn is_leaf(&self) -> (r: bool)
        ensures
            r == self.spec_is_leaf(),
    {
        match self {
            ColliderIterator::ObjectIterator { width_x, width_y, width_z, .. } => *width_x == 1
                && *width_y == 1 && *width_z == 1,
            ColliderIterator::BoxIterator => true,
            ColliderIterator::RayIterator => true,
        }
    }

    /// Scans the occupancy rows under an object node for a set bit.
    pub fn contains_blocks(&self, data: &ObjectData) -> (r: bool)
        requires
            self.is_object(),
            self.valid_for(data),
        ensures
            r == self.has_blocks(data),
    {
        match self {
            ColliderIterator::ObjectIterator {
                chunk_index,
                start_x,
                start_y,
                start_z,
                width_x,
                width_y,
                width_z,
                ..
            } => {
                let ci = *chunk_index;
                let sx = *start_x;
                let sy = *start_y;
                let sz = *start_z;
                let ex = sx + *width_x;
                let ey = sy + *width_y;
                let ez = sz + *width_z;
                assert(self.has_blocks(data) == region_occupied(
                    data.rows(ci as int),
                    sx as int,
                    sy as int,
                    sz as int,
                    ex - sx,
                    ey - sy,
                    ez - sz,
                ));
                let rows = &data.chunks[ci];
                let ghost r = data.rows(ci as int);
                assert(rows@ == r);
                let mut z: u16 = sz;
                while z < ez
                    invariant
                        sz <= z <= ez <= 16,
                        sy <= ey <= 16,
                        sx <= ex <= 16,
                        rows@ == r,
                        self.has_blocks(data) == region_occupied(
                            r,
                            sx as int,
                            sy as int,
                            sz as int,
                            ex - sx,
                            ey - sy,
                            ez - sz,
                        ),
                        r.len() == 256,
                        forall|x: int, y: int, zz: int|
                            sx <= x < ex && sy <= y < ey && sz <= zz < z ==> !#[trigger] occupied(
                                r,
                                x,
                                y,
                                zz,
                            ),
                    decreases ez - z,
                {
                    let mut y: u16 = sy;
                    while y < ey
                        invariant
                            sz <= z < ez <= 16,
                            sy <= y <= ey <= 16,
                            sx <= ex <= 16,
                            rows@ == r,
                            self.has_blocks(data) == region_occupied(
                                r,
                                sx as int,
                                sy as int,
                                sz as int,
                                ex - sx,
                                ey - sy,
                                ez - sz,
                            ),
                            r.len() == 256,
                            forall|x: int, yy: int, zz: int|
                                sx <= x < ex && sy <= yy < ey && sz <= zz < z
                                    ==> !#[trigger] occupied(r, x, yy, zz),
                            forall|x: int, yy: int|
                                sx <= x < ex && sy <= yy < y ==> !#[trigger] occupied(
                                    r,
                                    x,
                                    yy,
                                    z as int,
                                ),
                        decreases ey - y,
                    {
                        let row = rows[(y + z * 16) as usize];
                        let mut x: u16 = sx;
                        while x < ex
                            invariant
                                sz <= z < ez <= 16,
                                sy <= y < ey <= 16,
                                sx <= x <= ex <= 16,
                                rows@ == r,
                                self.has_blocks(data) == region_occupied(
                                    r,
                                    sx as int,
                                    sy as int,
                                    sz as int,
                                    ex - sx,
                                    ey - sy,
                                    ez - sz,
                                ),
                                r.len() == 256,
                                row == r[y + 16 * z],
                                forall|xx: int, yy: int, zz: int|
                                    sx <= xx < ex && sy <= yy < ey && sz <= zz < z
                                        ==> !#[trigger] occupied(r, xx, yy, zz),
                                forall|xx: int, yy: int|
                                    sx <= xx < ex && sy <= yy < y ==> !#[trigger] occupied(
                                        r,
                                        xx,
                                        yy,
                                        z as int,
                                    ),
                                forall|xx: int|
                                    sx <= xx < x ==> !#[trigger] occupied(
                                        r,
                                        xx,
                                        y as int,
                                        z as int,
                                    ),
                            decreases ex - x,
                        {
                            if row & (1u16 << x) != 0 {
                                assert(occupied(r, x as int, y as int, z as int));
                                assert(region_occupied(
                                    r,
                                    sx as int,
                                    sy as int,
                                    sz as int,
                                    ex - sx,
                                    ey - sy,
                                    ez - sz,
                                ));
                                return true;
                            }
                            x += 1;
                        }
                        y += 1;
                    }
                    z += 1;
                }
                false
            },
            _ => false,
        }
    }
    /// The two halves of an object node whose split axis is wider than one voxel.
    fn split(&self) -> (r: (Self, Self))
        requires
            self.is_object(),
            self.wf(),
            self.split_width() > 1,
        ensures
            r == self.halves(),
            r.0.wf(),
            r.1.wf(),
    {
        match *self {
            ColliderIterator::ObjectIterator {
                chunk_index,
                start_x,
                start_y,
                start_z,
                width_x,
                width_y,
                width_z,
                xyz_index,
            } => {
                let next_axis = (xyz_index + 1) % 3;
                let (mut wx, mut wy, mut wz) = (width_x, width_y, width_z);
                let (mut hx, mut hy, mut hz) = (start_x, start_y, start_z);
                if xyz_index == 0 {
                    wx = width_x / 2;
                    hx = start_x + wx;
                } else if xyz_index == 1 {
                    wy = width_y / 2;
                    hy = start_y + wy;
                } else {
                    wz = width_z / 2;
                    hz = start_z + wz;
                }
                let lo = ColliderIterator::ObjectIterator {
                    chunk_index,
                    start_x,
                    start_y,
                    start_z,
                    width_x: wx,
                    width_y: wy,
                    width_z: wz,
                    xyz_index: next_axis,
                };
                let hi = ColliderIterator::ObjectIterator {
                    chunk_index,
                    start_x: hx,
                    start_y: hy,
                    start_z: hz,
                    width_x: wx,
                    width_y: wy,
                    width_z: wz,
                    xyz_index: next_axis,
                };
                (lo, hi)
            },
            _ => (*self, *self),
        }
    }

    /// Bisects the node across its split axis and keeps the halves that
    /// still hold an occupied voxel; empty halves are pruned here, before any
    /// geometric test. A box or ray node yields itself.
    pub fn next(&self, data: &ObjectData) -> (r: Vec<Self>)
        requires
            self.valid_for(data),
        ensures
            r@ == self.children(data),
            forall|i: int| 0 <= i < r@.len() ==> (#[trigger] r@[i]).valid_for(data),
    {
        if !self.is_object_exec() {
            return vec![*self];
        }
        if self.split_width_exec() == 1 {
            return Vec::new();
        }
        let (lo, hi) = self.split();
        let mut output = Vec::new();
        if lo.contains_blocks(data) {
            output.push(lo);
        }
        if hi.contains_blocks(data) {
            output.push(hi);
        }
        proof {
            assert(output@ =~= self.children(data));
        }
        output
    }

    /// The box of an object node in the object's frame, in half-voxel units
    /// (so that it is exact in integers): `(center, half_extents)`, where the
    /// center is `2 * (16 * chunk_coord + start) + width` and the
    /// half-extents are the widths.
    pub fn box_in_half_voxels(&self, data: &ObjectData) -> (r: ((i64, i64, i64), (i64, i64, i64)))
        requires
            self.is_object(),
            self.valid_for(data),
            data.wf(),
        ensures
            match *self {
                ColliderIterator::ObjectIterator {
                    chunk_index,
                    start_x,
                    start_y,
                    start_z,
                    width_x,
                    width_y,
                    width_z,
                    ..
                } => {
                    let c = data.coords@[chunk_index as int];
                    &&& r.0.0 == 32 * c.0 + 2 * start_x + width_x
                    &&& r.0.1 == 32 * c.1 + 2 * start_y + width_y
                    &&& r.0.2 == 32 * c.2 + 2 * start_z + width_z
                    &&& r.1 == (width_x as i64, width_y as i64, width_z as i64)
                },
                _ => false,
            },
    {
        match self {
            ColliderIterator::ObjectIterator {
                chunk_index,
                start_x,
                start_y,
                start_z,
                width_x,
                width_y,
                width_z,
                ..
            } => {
                let c = data.coords[*chunk_index];
                (
                    (
                        32 * (c.0 as i64) + 2 * (*start_x as i64) + *width_x as i64,
                        32 * (c.1 as i64) + 2 * (*start_y as i64) + *width_y as i64,
                        32 * (c.2 as i64) + 2 * (*start_z as i64) + *width_z as i64,
                    ),
                    (*width_x as i64, *width_y as i64, *width_z as i64),
                )
            },
            _ => ((0, 0, 0), (0, 0, 0)),
        }
    }

    /// Whether this is an object node that lies inside a chunk of `data`.
    pub fn is_valid_for(&self, data: &ObjectData) -> (r: bool)
        ensures
            r == (self.is_object() && self.valid_for(data)),
    {
        match self {
            ColliderIterator::ObjectIterator {
                chunk_index,
                start_x,
                start_y,
                start_z,
                width_x,
                width_y,
                width_z,
                xyz_index,
            } => {
                is_width_exec(*width_x) && is_width_exec(*width_y) && is_width_exec(*width_z)
                    && *start_x as u32 + *width_x as u32 <= 16 && *start_y as u32 + *width_y as u32
                    <= 16 && *start_z as u32 + *width_z as u32 <= 16 && *xyz_index < 3
                    && *chunk_index < data.chunks.len()
            },
            _ => false,
        }
    }

    fn is_object_exec(&self) -> (r: bool)
        ensures
            r == self.is_object(),
    {
        match self {
            ColliderIterator::ObjectIterator { .. } => true,
            _ => false,
        }
    }

    fn split_width_exec(&self) -> (r: u16)
        ensures
            r == self.split_width(),
    {
        match self {
            ColliderIterator::ObjectIterator { width_x, width_y, width_z, xyz_index, .. } => {
                if *xyz_index == 0 {
                    *width_x
                } else if *xyz_index == 1 {
                    *width_y
                } else {
                    *width_z
                }
            },
            _ => 1,
        }
    }
}

/// Narrowing prunes exactly the empty space: every child of an object node
/// holds an occupied voxel and lies inside its parent, and every occupied
/// voxel of the parent lies inside one of the children.
pub proof fn lemma_narrowing_prunes_only_empty(node: ColliderIterator, data: &ObjectData)
    requires
        node.valid_for(data),
        node.is_object(),
        node.split_width() > 1,
    ensures
        forall|i: int|
            0 <= i < node.children(data).len() ==> (#[trigger] node.children(data)[i]).has_blocks(
                data,
            ),
        forall|i: int, x: int, y: int, z: int|
            0 <= i < node.children(data).len() && #[trigger] node.children(data)[i].covers(
                node.chunk(),
                x,
                y,
                z,
            ) ==> node.covers(node.chunk(), x, y, z),
        forall|x: int, y: int, z: int|
            node.covers(node.chunk(), x, y, z) && #[trigger] occupied(
                data.rows(node.chunk()),
                x,
                y,
                z,
            ) ==> exists|i: int|
                0 <= i < node.children(data).len() && (#[trigger] node.children(data)[i]).covers(
                    node.chunk(),
                    x,
                    y,
                    z,
                ),
{
    let (lo, hi) = node.halves();
    let kids = node.children(data);
    let ci = node.chunk();
    let rows = data.rows(ci);
    assert forall|x: int, y: int, z: int|
        node.covers(ci, x, y, z) && #[trigger] occupied(rows, x, y, z) implies exists|i: int|
            0 <= i < kids.len() && (#[trigger] kids[i]).covers(ci, x, y, z) by {
        if lo.covers(ci, x, y, z) {
            assert(lo.has_blocks(data));
            assert(kids[0] == lo);
        } else {
            assert(hi.covers(ci, x, y, z));
            assert(hi.has_blocks(data));
            if lo.has_blocks(data) {
                assert(kids[1] == hi);
            } else {
                assert(kids[0] == hi);
            }
        }
    }
}

} // verus!
