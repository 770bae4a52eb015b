use vstd::prelude::*;

use crate::voxel::grid_index;

verus! {

broadcast use vstd::seq_lib::lemma_seq_contains_after_push;

/// How far, in chunks, the loaded region reaches around the viewer's chunk.
pub const RENDER_DISTANCE: i32 = 4;

pub open spec fn abs(v: int) -> int {
    if v < 0 {
        -v
    } else {
        v
    }
}

/// Chunk `c` is closer than the render distance to `center` along every axis.
pub open spec fn within_range(c: (i32, i32, i32), center: (i32, i32, i32)) -> bool {
    &&& abs(c.0 - center.0) < RENDER_DISTANCE
    &&& abs(c.1 - center.1) < RENDER_DISTANCE
    &&& abs(c.2 - center.2) < RENDER_DISTANCE
}

/// Chunk `c` is farther than the render distance from `center` along some axis.
pub open spec fn out_of_range(c: (i32, i32, i32), center: (i32, i32, i32)) -> bool {
    ||| abs(c.0 - center.0) > RENDER_DISTANCE
    ||| abs(c.1 - center.1) > RENDER_DISTANCE
    ||| abs(c.2 - center.2) > RENDER_DISTANCE
}

/// Chunk `c` lies in the cube of chunks `center + d`, with each component of
/// `d` in `-RENDER_DISTANCE .. RENDER_DISTANCE`.
pub open spec fn in_load_cube(c: (i32, i32, i32), center: (i32, i32, i32)) -> bool {
    &&& center.0 - RENDER_DISTANCE <= c.0 < center.0 + RENDER_DISTANCE
    &&& center.1 - RENDER_DISTANCE <= c.1 < center.1 + RENDER_DISTANCE
    &&& center.2 - RENDER_DISTANCE <= c.2 < center.2 + RENDER_DISTANCE
}

/// Chunk `c` comes before the point `(x, y, z)` in lexicographic order.
pub open spec fn before(c: (i32, i32, i32), x: int, y: int, z: int) -> bool {
    c.0 < x || (c.0 == x && (c.1 < y || (c.1 == y && c.2 < z)))
}

/// Lexicographic order of chunk coordinates.
pub open spec fn coord_lt(a: (i32, i32, i32), b: (i32, i32, i32)) -> bool {
    before(a, b.0 as int, b.1 as int, b.2 as int)
}

/// A planet chunk to load around `center`: inside the load cube, on the
/// planet, and not among the loaded `coords`.
pub open spec fn wanted(c: (i32, i32, i32), center: (i32, i32, i32), coords: Seq<(i32, i32, i32)>) -> bool {
    in_load_cube(c, center) && !coords.contains(c) && PlanetLoader::spec_has_chunk(c)
}

/// The center of the load cube leaves room for the cube in `i32`.
pub open spec fn center_fits(center: (i32, i32, i32)) -> bool {
    &&& i32::MIN + RENDER_DISTANCE <= center.0 <= i32::MAX - RENDER_DISTANCE
    &&& i32::MIN + RENDER_DISTANCE <= center.1 <= i32::MAX - RENDER_DISTANCE
    &&& i32::MIN + RENDER_DISTANCE <= center.2 <= i32::MAX - RENDER_DISTANCE
}

fn abs_diff(a: i32, b: i32) -> (r: i64)
    ensures
        r == abs(a - b),
{
    let d = a as i64 - b as i64;
    if d < 0 {
        -d
    } else {
        d
    }
}

fn is_within_range(c: (i32, i32, i32), center: (i32, i32, i32)) -> (r: bool)
    ensures
        r == within_range(c, center),
{
    abs_diff(c.0, center.0) < RENDER_DISTANCE as i64 && abs_diff(c.1, center.1)
        < RENDER_DISTANCE as i64 && abs_diff(c.2, center.2) < RENDER_DISTANCE as i64
}

fn is_out_of_range(c: (i32, i32, i32), center: (i32, i32, i32)) -> (r: bool)
    ensures
        r == out_of_range(c, center),
{
    abs_diff(c.0, center.0) > RENDER_DISTANCE as i64 || abs_diff(c.1, center.1)
        > RENDER_DISTANCE as i64 || abs_diff(c.2, center.2) > RENDER_DISTANCE as i64
}

/// Loads a ship: all of its chunks at once, when the viewer comes near.
pub struct ShipLoader {}

/// Loads a planet chunk by chunk around the viewer.
pub struct PlanetLoader {}

/// How an object's chunks are brought in.
pub enum ObjectLoader {
    OneShot(ShipLoader),
    MultiShot(PlanetLoader),
}

impl ObjectLoader {
    /// The loader of the demo scene: a ship.
    pub fn demo() -> (r: Self)
        ensures
            r is OneShot,
    {
        ObjectLoader::OneShot(ShipLoader {})
    }
}

impl ShipLoader {
    /// Releases what the ship's chunks held; a ship keeps nothing beyond the
    /// chunks themselves, so nothing is left to release.
    pub fn unload_all(&self) {
    }

    /// The coordinates of the ship's chunks: a single chunk below the origin.
    pub fn load_all(&self) -> (r: Vec<(i32, i32, i32)>)
        ensures
            r@ == seq![(0i32, 0i32, -1i32)],
    {
        vec![(0, 0, -1)]
    }

    /// Whether a loaded ship stays loaded: some of its chunks is within the
    /// render distance of the viewer's chunk `center`.
    pub fn keeps_loaded(&self, coords: &Vec<(i32, i32, i32)>, center: (i32, i32, i32)) -> (r: bool)
        ensures
            r == exists|i: int| 0 <= i < coords@.len() && within_range(#[trigger] coords@[i], center),
    {
        let mut i: usize = 0;
        while i < coords.len()
            invariant
                i <= coords@.len(),
                forall|k: int| 0 <= k < i ==> !within_range(#[trigger] coords@[k], center),
            decreases coords@.len() - i,
        {
            if is_within_range(coords[i], center) {
                return true;
            }
            i += 1;
        }
        false
    }
}

impl PlanetLoader {
    /// The planet has a chunk at `coord`: it fills every chunk below `z = 0`.
    pub open spec fn spec_has_chunk(coord: (i32, i32, i32)) -> bool {
        coord.2 < 0
    }

    /// Whether the planet has a chunk at `coord`.
    pub fn has_chunk(&self, coord: (i32, i32, i32)) -> (r: bool)
        ensures
            r == Self::spec_has_chunk(coord),
    {
        coord.2 < 0
    }

    /// Releases what the planet chunk at `coord` held; the chunk keeps
    /// nothing beyond its blocks, so nothing is left to release.
    pub fn unload_chunk(&self, coord: (i32, i32, i32)) {
    }

    /// The chunks to load around the viewer's chunk `center`: each chunk of
    /// the load cube that the planet has and that is not loaded yet, in
    /// increasing lexicographic order.
    pub fn chunks_to_load(&self, coords: &Vec<(i32, i32, i32)>, center: (i32, i32, i32)) -> (r: Vec<
        (i32, i32, i32),
    >)
        requires
            center_fits(center),
        ensures
            forall|c: (i32, i32, i32)| r@.contains(c) <==> wanted(c, center, coords@),
            forall|i: int, j: int| 0 <= i < j < r@.len() ==> coord_lt(r@[i], r@[j]),
    {
        let ghost (cx, cy, cz) = (center.0 as int, center.1 as int, center.2 as int);
        let ghost rd = RENDER_DISTANCE as int;
        let mut out: Vec<(i32, i32, i32)> = Vec::new();
        let mut dx: i32 = -RENDER_DISTANCE;
        while dx < RENDER_DISTANCE
            invariant
                center_fits(center),
                cx == center.0 && cy == center.1 && cz == center.2 && rd == RENDER_DISTANCE,
                -RENDER_DISTANCE <= dx <= RENDER_DISTANCE,
                forall|c: (i32, i32, i32)| #[trigger]
                    out@.contains(c) <==> wanted(c, center, coords@) && before(
                        c,
                        cx + dx,
                        cy - rd,
                        cz - rd,
                    ),
                forall|i: int, j: int| 0 <= i < j < out@.len() ==> coord_lt(out@[i], out@[j]),
            decreases RENDER_DISTANCE - dx,
        {
            let mut dy: i32 = -RENDER_DISTANCE;
            while dy < RENDER_DISTANCE
                invariant
                    center_fits(center),
                    cx == center.0 && cy == center.1 && cz == center.2 && rd == RENDER_DISTANCE,
                    -RENDER_DISTANCE <= dx < RENDER_DISTANCE,
                    -RENDER_DISTANCE <= dy <= RENDER_DISTANCE,
                    forall|c: (i32, i32, i32)| #[trigger]
                        out@.contains(c) <==> wanted(c, center, coords@) && before(
                            c,
                            cx + dx,
                            cy + dy,
                            cz - rd,
                        ),
                    forall|i: int, j: int| 0 <= i < j < out@.len() ==> coord_lt(out@[i], out@[j]),
                decreases RENDER_DISTANCE - dy,
            {
                let mut dz: i32 = -RENDER_DISTANCE;
                while dz < RENDER_DISTANCE
                    invariant
                        center_fits(center),
                        cx == center.0 && cy == center.1 && cz == center.2 && rd
                            == RENDER_DISTANCE,
                        -RENDER_DISTANCE <= dx < RENDER_DISTANCE,
                        -RENDER_DISTANCE <= dy < RENDER_DISTANCE,
                        -RENDER_DISTANCE <= dz <= RENDER_DISTANCE,
                        forall|c: (i32, i32, i32)| #[trigger]
                            out@.contains(c) <==> wanted(c, center, coords@) && before(
                                c,
                                cx + dx,
                                cy + dy,
                                cz + dz,
                            ),
                        forall|i: int, j: int|
                            0 <= i < j < out@.len() ==> coord_lt(out@[i], out@[j]),
                    decreases RENDER_DISTANCE - dz,
                {
                    let coord = (center.0 + dx, center.1 + dy, center.2 + dz);
                    let ghost prev = out@;
                    if !contains_coord(coords, coord) && self.has_chunk(coord) {
                        out.push(coord);
                        proof {
                            assert(out@ == prev.push(coord));
                            assert forall|i: int| 0 <= i < prev.len() implies coord_lt(
                                #[trigger] prev[i],
                                coord,
                            ) by {
                                assert(prev.contains(prev[i]));
                            }
                        }
                    }
                    proof {
                        assert forall|c: (i32, i32, i32)| #[trigger]
                            out@.contains(c) <==> wanted(c, center, coords@) && before(
                                c,
                                cx + dx,
                                cy + dy,
                                cz + dz + 1,
                            ) by {
                            assert(prev.contains(c) <==> wanted(c, center, coords@) && before(
                                c,
                                cx + dx,
                                cy + dy,
                                cz + dz,
                            ));
                        }
                    }
                    dz += 1;
                }
                proof {
                    assert forall|c: (i32, i32, i32)| wanted(c, center, coords@) implies #[trigger] before(
                        c,
                        cx + dx,
                        cy + dy,
                        cz + rd,
                    ) == before(c, cx + dx, cy + dy + 1, cz - rd) by {}
                }
                dy += 1;
            }
            proof {
                assert forall|c: (i32, i32, i32)| wanted(c, center, coords@) implies #[trigger] before(
                    c,
                    cx + dx,
                    cy + rd,
                    cz - rd,
                ) == before(c, cx + dx + 1, cy - rd, cz - rd) by {}
            }
            dx += 1;
        }
        proof {
            assert forall|c: (i32, i32, i32)| wanted(c, center, coords@) implies #[trigger] before(
                c,
                cx + rd,
                cy - rd,
                cz - rd,
            ) by {}
        }
        out
    }
}

/// The block layout of a demo chunk: solid (block type 2) in the layers
/// `2 <= z < 14`, air elsewhere; indexed as `x + 16 * y + 256 * z`.
pub fn demo_blocks() -> (r: [u16; 4096])
    ensures
        forall|x: int, y: int, z: int|
            0 <= x < 16 && 0 <= y < 16 && 0 <= z < 16 ==> r@[#[trigger] grid_index(x, y, z)] == if 2
                <= z < 14 {
                2u16
            } else {
                0u16
            },
{
    let mut blocks = [0u16; 4096];
    let mut i: usize = 512;
    while i < 3584
        invariant
            512 <= i <= 3584,
            forall|k: int| 0 <= k < 4096 ==> blocks@[k] == if 512 <= k < i { 2u16 } else { 0u16 },
        decreases 3584 - i,
    {
        blocks[i] = 2;
        i += 1;
    }
    blocks
}

/// `coords` holds `coord`.
fn contains_coord(coords: &Vec<(i32, i32, i32)>, coord: (i32, i32, i32)) -> (r: bool)
    ensures
        r == coords@.contains(coord),
{
    let mut i: usize = 0;
    while i < coords.len()
        invariant
            i <= coords@.len(),
            forall|k: int| 0 <= k < i ==> coords@[k] != coord,
        decreases coords@.len() - i,
    {
        let c = coords[i];
        if c.0 == coord.0 && c.1 == coord.1 && c.2 == coord.2 {
            return true;
        }
        i += 1;
    }
    false
}

/// Indices of the loaded chunks that lie beyond the render distance of the
/// viewer's chunk `center`, in increasing order.
pub fn chunks_to_unload(coords: &Vec<(i32, i32, i32)>, center: (i32, i32, i32)) -> (r: Vec<usize>)
    ensures
        forall|i: usize| r@.contains(i) <==> (i < coords@.len() && out_of_range(coords@[i as int], center)),
        forall|i: int, j: int| 0 <= i < j < r@.len() ==> r@[i] < r@[j],
{
    let mut out: Vec<usize> = Vec::new();
    let mut i: usize = 0;
    while i < coords.len()
        invariant
            i <= coords@.len(),
            forall|k: usize| out@.contains(k) <==> (k < i && out_of_range(coords@[k as int], center)),
            forall|a: int, b: int| 0 <= a < b < out@.len() ==> out@[a] < out@[b],
            forall|a: int| 0 <= a < out@.len() ==> out@[a] < i,
        decreases coords@.len() - i,
    {
        let ghost before = out@;
        if is_out_of_range(coords[i], center) {
            out.push(i);
            assert(out@ == before.push(i));
            assert(out@[out@.len() - 1] == i);
        }
        i += 1;
    }
    out
}

} // verus!
