use vstd::prelude::*;

verus! {

/// Edge length of a chunk, in voxels.
pub const CHUNK_SIZE: u32 = 16;

/// Index of the occupancy row holding the voxels `(_, y, z)`.
pub open spec fn row_index(y: int, z: int) -> int {
    y + 16 * z
}

/// Bit `x` of `row` is set.
pub open spec fn bit_set(row: u16, x: u16) -> bool {
    row & (1u16 << x) != 0
}

/// The voxel `(x, y, z)` of a chunk with the given occupancy rows is occupied.
pub open spec fn occupied(rows: Seq<u16>, x: int, y: int, z: int) -> bool {
    0 <= x < 16 && 0 <= y < 16 && 0 <= z < 16 && bit_set(rows[row_index(y, z)], x as u16)
}

/// No voxel of a chunk with these rows is occupied.
pub open spec fn is_empty_chunk(rows: Seq<u16>) -> bool {
    rows.len() == 256 && forall|k: int| 0 <= k < 256 ==> #[trigger] rows[k] == 0
}

/// Some voxel of the axis-aligned sub-box with corner `s` and extents `w`
/// (in voxels, chunk-local) is occupied.
pub open spec fn region_occupied(
    rows: Seq<u16>,
    sx: int,
    sy: int,
    sz: int,
    wx: int,
    wy: int,
    wz: int,
) -> bool {
    exists|x: int, y: int, z: int|
        sx <= x < sx + wx && sy <= y < sy + wy && sz <= z < sz + wz && #[trigger] occupied(
            rows,
            x,
            y,
            z,
        )
}

/// The collision shape of a voxel object: a set of chunks, each a
/// `16 x 16 x 16` occupancy grid stored as 256 rows of 16 bits, keyed by its
/// integer chunk coordinate. `chunks[i]` belongs to `coords[i]`.
#[derive(Debug, Clone)]
pub struct ObjectData {
    pub chunks: Vec<[u16; 256]>,
    pub coords: Vec<(i32, i32, i32)>,
}

impl ObjectData {
    /// Each chunk has its coordinate, and no coordinate appears twice.
    pub open spec fn wf(&self) -> bool {
        &&& self.chunks@.len() == self.coords@.len()
        &&& forall|i: int, j: int|
            0 <= i < j < self.coords@.len() ==> self.coords@[i] != self.coords@[j]
    }

    /// Occupancy rows of chunk `i`.
    pub open spec fn rows(&self, i: int) -> Seq<u16> {
        self.chunks@[i]@
    }

    /// An object with no chunks.
    pub fn new() -> (r: Self)
        ensures
            r.wf(),
            r.chunks@.len() == 0,
    {
        ObjectData { chunks: Vec::new(), coords: Vec::new() }
    }
    /// Index of the chunk at `coord`, if the object has one.
    pub fn chunk_index(&self, coord: (i32, i32, i32)) -> (r: Option<usize>)
        ensures
            match r {
                Some(i) => i < self.coords@.len() && self.coords@[i as int] == coord,
                None => !self.coords@.contains(coord),
            },
    {
        let mut i: usize = 0;
        while i < self.coords.len()
            invariant
                i <= self.coords@.len(),
                forall|k: int| 0 <= k < i ==> self.coords@[k] != coord,
            decreases self.coords@.len() - i,
        {
            let c = self.coords[i];
            if c.0 == coord.0 && c.1 == coord.1 && c.2 == coord.2 {
                return Some(i);
            }
            i += 1;
        }
        None
    }

    /// Index of the chunk at `coord`; an empty chunk is appended there first
    /// if the object has none.
    pub fn chunk_for(&mut self, coord: (i32, i32, i32)) -> (r: usize)
        requires
            old(self).chunks@.len() == old(self).coords@.len(),
        ensures
            final(self).chunks@.len() == final(self).coords@.len(),
            r < final(self).coords@.len(),
            final(self).coords@[r as int] == coord,
            old(self).coords@.contains(coord) ==> *final(self) == *old(self),
            !old(self).coords@.contains(coord) ==> {
                &&& r == old(self).coords@.len()
                &&& final(self).coords@ == old(self).coords@.push(coord)
                &&& final(self).chunks@.len() == old(self).chunks@.len() + 1
                &&& final(self).chunks@.drop_last() == old(self).chunks@
                &&& is_empty_chunk(final(self).chunks@.last()@)
            },
            old(self).wf() ==> final(self).wf(),
    {
        match self.chunk_index(coord) {
            Some(i) => i,
            None => {
                let ghost old_coords = self.coords@;
                let ghost old_chunks = self.chunks@;
                self.chunks.push([0u16; 256]);
                self.coords.push(coord);
                proof {
                    assert forall|k: int| 0 <= k < old_coords.len() implies self.coords@[k] != coord by {
                        if self.coords@[k] == coord {
                            assert(old_coords.contains(coord));
                        }
                    }
                }
                assert(self.chunks@.drop_last() =~= old_chunks);
                self.coords.len() - 1
            },
        }
    }

    /// Removes chunk `i`; the last chunk takes its place.
    pub fn remove_chunk(&mut self, i: usize)
        requires
            i < old(self).chunks@.len(),
            old(self).chunks@.len() == old(self).coords@.len(),
        ensures
            final(self).chunks@ == old(self).chunks@.update(i as int, old(self).chunks@.last()).drop_last(),
            final(self).coords@ == old(self).coords@.update(i as int, old(self).coords@.last()).drop_last(),
            old(self).wf() ==> final(self).wf(),
    {
        self.chunks.swap_remove(i);
        self.coords.swap_remove(i);
    }

    /// Removes every chunk.
    pub fn clear(&mut self)
        ensures
            final(self).wf(),
            final(self).chunks@.len() == 0,
    {
        self.chunks.clear();
        self.coords.clear();
    }
}

/// Index of the voxel `(x, y, z)` in a chunk's block grid (x fastest).
pub open spec fn grid_index(x: int, y: int, z: int) -> int {
    x + 16 * y + 256 * z
}

proof fn lemma_bit_set_or(b: u16, x: u16, xx: u16)
    requires
        x < 16,
        xx < 16,
    ensures
        bit_set(b | (1u16 << x), xx) == (bit_set(b, xx) || xx == x),
{
    assert(((b | (1u16 << x)) & (1u16 << xx) != 0) == ((b & (1u16 << xx) != 0) || xx == x))
        by (bit_vector)
        requires
            x < 16,
            xx < 16,
    ;
}

proof fn lemma_bit_set_zero(xx: u16)
    requires
        xx < 16,
    ensures
        !bit_set(0u16, xx),
{
    assert(0u16 & (1u16 << xx) == 0) by (bit_vector);
}

/// Packs a chunk's block grid (one block type per voxel, 0 for air, at
/// `x + 16 * y + 256 * z`) into occupancy rows: bit `x` of row `y + 16 * z`
/// is set exactly when the block there is not air.
pub fn pack_rows(blocks: &[u16; 4096]) -> (r: [u16; 256])
    ensures
        forall|x: int, y: int, z: int|
            0 <= x < 16 && 0 <= y < 16 && 0 <= z < 16 ==> #[trigger] occupied(r@, x, y, z) == (
            blocks@[grid_index(x, y, z)] != 0),
{
    let mut rows = [0u16; 256];
    let mut z: u16 = 0;
    while z < 16
        invariant
            z <= 16,
            rows@.len() == 256,
            forall|x: int, y: int, zz: int|
                0 <= x < 16 && 0 <= y < 16 && 0 <= zz < z ==> #[trigger] occupied(rows@, x, y, zz)
                    == (blocks@[grid_index(x, y, zz)] != 0),
        decreases 16 - z,
    {
        let mut y: u16 = 0;
        while y < 16
            invariant
                z < 16,
                y <= 16,
                rows@.len() == 256,
                forall|x: int, yy: int, zz: int|
                    0 <= x < 16 && 0 <= yy < 16 && 0 <= zz < z ==> #[trigger] occupied(
                        rows@,
                        x,
                        yy,
                        zz,
                    ) == (blocks@[grid_index(x, yy, zz)] != 0),
                forall|x: int, yy: int|
                    0 <= x < 16 && 0 <= yy < y ==> #[trigger] occupied(rows@, x, yy, z as int) == (
                    blocks@[grid_index(x, yy, z as int)] != 0),
            decreases 16 - y,
        {
            let mut block: u16 = 0;
            let mut x: u16 = 0;
            proof {
                assert forall|xx: u16| xx < 16 implies !bit_set(block, xx) by {
                    lemma_bit_set_zero(xx);
                }
            }
            while x < 16
                invariant
                    z < 16,
                    y < 16,
                    x <= 16,
                    forall|xx: u16|
                        xx < 16 ==> #[trigger] bit_set(block, xx) == (xx < x && blocks@[grid_index(
                            xx as int,
                            y as int,
                            z as int,
                        )] != 0),
                decreases 16 - x,
            {
                let idx = (x + 16 * y + 256 * z) as usize;
                if blocks[idx] != 0 {
                    proof {
                        assert forall|xx: u16| xx < 16 implies #[trigger] bit_set(
                            block | (1u16 << x),
                            xx,
                        ) == (xx < x + 1 && blocks@[grid_index(
                            xx as int,
                            y as int,
                            z as int,
                        )] != 0) by {
                            lemma_bit_set_or(block, x, xx);
                        }
                    }
                    block = block | (1u16 << x);
                }
                x += 1;
            }
            let ghost before = rows@;
            rows[(y + 16 * z) as usize] = block;
            proof {
                assert forall|xx: int, yy: int, zz: int|
                    0 <= xx < 16 && 0 <= yy < 16 && 0 <= zz < 16 && (zz < z || (zz == z && yy
                        <= y)) implies #[trigger] occupied(rows@, xx, yy, zz) == (
                blocks@[grid_index(xx, yy, zz)] != 0) by {
                    if zz == z && yy == y {
                        assert(bit_set(block, xx as u16) == (blocks@[grid_index(xx, yy, zz)] != 0));
                    } else {
                        assert(rows@[row_index(yy, zz)] == before[row_index(yy, zz)]);
                        assert(occupied(before, xx, yy, zz) == (blocks@[grid_index(xx, yy, zz)]
                            != 0));
                    }
                }
            }
            y += 1;
        }
        z += 1;
    }
    rows
}

} // verus!
