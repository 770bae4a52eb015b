use vstd::prelude::*;

use crate::voxel::occupied;

verus! {

/// The factor that axis selector `a` contributes at voxel `(x, y, z)`:
/// 1 for `a == 0`, else the coordinate `x`, `y` or `z` for `a == 1, 2, 3`.
pub open spec fn factor(a: int, x: int, y: int, z: int) -> int {
    if a == 1 {
        x
    } else if a == 2 {
        y
    } else if a == 3 {
        z
    } else {
        1
    }
}

/// What voxel `(x, y, z)` adds to the moment `(a, b)`: the product of the
/// two factors if it is occupied (every voxel has unit mass), else 0.
pub open spec fn term(rows: Seq<u16>, a: int, b: int, x: int, y: int, z: int) -> int {
    if occupied(rows, x, y, z) {
        factor(a, x, y, z) * factor(b, x, y, z)
    } else {
        0
    }
}

/// Sum of the terms of voxels `x < n` of row `(y, z)`.
pub open spec fn row_moment(rows: Seq<u16>, a: int, b: int, y: int, z: int, n: int) -> int
    decreases n,
{
    if n <= 0 {
        0
    } else {
        row_moment(rows, a, b, y, z, n - 1) + term(rows, a, b, n - 1, y, z)
    }
}

/// Sum of the terms of rows `y < n` of plane `z`.
pub open spec fn plane_moment(rows: Seq<u16>, a: int, b: int, z: int, n: int) -> int
    decreases n,
{
    if n <= 0 {
        0
    } else {
        plane_moment(rows, a, b, z, n - 1) + row_moment(rows, a, b, n - 1, z, 16)
    }
}

/// Sum of the terms of planes `z < n`.
pub open spec fn planes_moment(rows: Seq<u16>, a: int, b: int, n: int) -> int
    decreases n,
{
    if n <= 0 {
        0
    } else {
        planes_moment(rows, a, b, n - 1) + plane_moment(rows, a, b, n - 1, 16)
    }
}

/// The mass moment `(a, b)` of a chunk in chunk-local voxel coordinates:
/// the sum over occupied voxels of `factor(a) * factor(b)`.
pub open spec fn moment(rows: Seq<u16>, a: int, b: int) -> int {
    planes_moment(rows, a, b, 16)
}

/// Mass moments of a chunk, with unit mass per occupied voxel and
/// chunk-local voxel coordinates: `m0` is the mass, `m1[i]` the first
/// moment along axis `i`, `m2[i][j]` the second moment along axes `i, j`.
#[derive(Debug, Clone, Copy, PartialEq, Eq)]
pub struct MassMoments {
    pub m0: u64,
    pub m1: [u64; 3],
    pub m2: [[u64; 3]; 3],
}

proof fn lemma_term_bound(rows: Seq<u16>, a: int, b: int, x: int, y: int, z: int)
    requires
        0 <= a < 4,
        0 <= b < 4,
        0 <= x < 16,
        0 <= y < 16,
        0 <= z < 16,
    ensures
        0 <= term(rows, a, b, x, y, z) <= 225,
{
    let fa = factor(a, x, y, z);
    let fb = factor(b, x, y, z);
    assert(0 <= fa * fb <= 225) by (nonlinear_arith)
        requires
            0 <= fa <= 15,
            0 <= fb <= 15,
    ;
}

/// The moment `(a, b)` of a chunk.
fn chunk_moment(rows: &[u16; 256], a: u8, b: u8) -> (r: u64)
    requires
        a < 4,
        b < 4,
    ensures
        r == moment(rows@, a as int, b as int),
{
    let mut acc: u64 = 0;
    let mut z: u16 = 0;
    while z < 16
        invariant
            a < 4 && b < 4,
            z <= 16,
            acc == planes_moment(rows@, a as int, b as int, z as int),
            acc <= 57600 * z,
        decreases 16 - z,
    {
        let mut y: u16 = 0;
        let ghost base_z = acc as int;
        while y < 16
            invariant
                a < 4 && b < 4,
                z < 16,
                y <= 16,
                base_z == planes_moment(rows@, a as int, b as int, z as int),
                base_z <= 57600 * z,
                acc == base_z + plane_moment(rows@, a as int, b as int, z as int, y as int),
                acc <= base_z + 3600 * y,
            decreases 16 - y,
        {
            let row = rows[(y + 16 * z) as usize];
            let ghost base_y = acc as int;
            let mut x: u16 = 0;
            while x < 16
                invariant
                    a < 4 && b < 4,
                    z < 16,
                    y < 16,
                    x <= 16,
                    row == rows@[y + 16 * z],
                    base_z == planes_moment(rows@, a as int, b as int, z as int),
                    base_z <= 57600 * z,
                    base_y == base_z + plane_moment(rows@, a as int, b as int, z as int, y as int),
                    base_y <= base_z + 3600 * y,
                    acc == base_y + row_moment(rows@, a as int, b as int, y as int, z as int, x as int),
                    acc <= base_y + 225 * x,
                decreases 16 - x,
            {
                proof {
                    lemma_term_bound(rows@, a as int, b as int, x as int, y as int, z as int);
                }
                if row & (1u16 << x) != 0 {
                    assert(occupied(rows@, x as int, y as int, z as int));
                    let fa = factor_exec(a, x, y, z);
                    let fb = factor_exec(b, x, y, z);
                    acc = acc + (fa * fb) as u64;
                } else {
                    assert(!occupied(rows@, x as int, y as int, z as int));
                }
                x += 1;
            }
            y += 1;
        }
        z += 1;
    }
    acc
}

fn factor_exec(a: u8, x: u16, y: u16, z: u16) -> (r: u32)
    requires
        x < 16 && y < 16 && z < 16,
    ensures
        r == factor(a as int, x as int, y as int, z as int),
        r <= 15,
{
    if a == 1 {
        x as u32
    } else if a == 2 {
        y as u32
    } else if a == 3 {
        z as u32
    } else {
        1
    }
}

impl MassMoments {
    /// The mass moments of a chunk with occupancy rows `rows`.
    pub fn of_chunk(rows: &[u16; 256]) -> (r: Self)
        ensures
            r.m0 == moment(rows@, 0, 0),
            forall|i: int| 0 <= i < 3 ==> #[trigger] r.m1[i] == moment(rows@, i + 1, 0),
            forall|i: int, j: int|
                0 <= i < 3 && 0 <= j < 3 ==> #[trigger] r.m2[i][j] == moment(rows@, i + 1, j + 1),
    {
        let m0 = chunk_moment(rows, 0, 0);
        let m1 = [chunk_moment(rows, 1, 0), chunk_moment(rows, 2, 0), chunk_moment(rows, 3, 0)];
        let m2 = [
            [chunk_moment(rows, 1, 1), chunk_moment(rows, 1, 2), chunk_moment(rows, 1, 3)],
            [chunk_moment(rows, 2, 1), chunk_moment(rows, 2, 2), chunk_moment(rows, 2, 3)],
            [chunk_moment(rows, 3, 1), chunk_moment(rows, 3, 2), chunk_moment(rows, 3, 3)],
        ];
        MassMoments { m0, m1, m2 }
    }
}

} // verus!
