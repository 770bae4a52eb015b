use voxel_physics::{pack_rows, MassMoments, ObjectData};

fn grid_with(voxels: &[(u32, u32, u32)]) -> [u16; 4096] {
    let mut grid = [0u16; 4096];
    for &(x, y, z) in voxels {
        grid[(x + 16 * y + 256 * z) as usize] = 2;
    }
    grid
}

#[test]
fn pack_rows_sets_one_bit_per_solid_block() {
    let rows = pack_rows(&grid_with(&[(0, 0, 0), (15, 0, 0), (3, 2, 1)]));
    assert_eq!(rows[0], 0b1000_0000_0000_0001);
    assert_eq!(rows[2 + 16], 1 << 3);
    assert_eq!(rows.iter().filter(|r| **r != 0).count(), 2);
}

#[test]
fn pack_rows_of_empty_grid_is_empty() {
    assert!(pack_rows(&[0u16; 4096]).iter().all(|r| *r == 0));
}

#[test]
fn pack_rows_of_full_grid_is_full() {
    assert!(pack_rows(&[1u16; 4096]).iter().all(|r| *r == u16::MAX));
}

#[test]
fn chunk_for_appends_empty_chunk_once() {
    let mut data = ObjectData::new();
    assert_eq!(data.chunk_index((1, 2, 3)), None);
    assert_eq!(data.chunk_for((1, 2, 3)), 0);
    assert_eq!(data.chunk_for((0, 0, -1)), 1);
    assert_eq!(data.chunk_for((1, 2, 3)), 0);
    assert_eq!(data.chunks.len(), 2);
    assert_eq!(data.coords, vec![(1, 2, 3), (0, 0, -1)]);
    assert!(data.chunks[1].iter().all(|r| *r == 0));
    assert_eq!(data.chunk_index((0, 0, -1)), Some(1));
}

#[test]
fn remove_chunk_moves_last_into_place() {
    let mut data = ObjectData::new();
    data.chunk_for((0, 0, 0));
    data.chunk_for((1, 0, 0));
    data.chunk_for((2, 0, 0));
    data.chunks[2][5] = 7;
    data.remove_chunk(0);
    assert_eq!(data.coords, vec![(2, 0, 0), (1, 0, 0)]);
    assert_eq!(data.chunks[0][5], 7);
    data.clear();
    assert!(data.coords.is_empty() && data.chunks.is_empty());
}

#[test]
fn moments_of_single_voxel() {
    let rows = pack_rows(&grid_with(&[(3, 5, 7)]));
    let m = MassMoments::of_chunk(&rows);
    assert_eq!(m.m0, 1);
    assert_eq!(m.m1, [3, 5, 7]);
    assert_eq!(m.m2, [[9, 15, 21], [15, 25, 35], [21, 35, 49]]);
}

#[test]
fn moments_of_two_voxels_add() {
    let rows = pack_rows(&grid_with(&[(1, 0, 0), (0, 2, 15)]));
    let m = MassMoments::of_chunk(&rows);
    assert_eq!(m.m0, 2);
    assert_eq!(m.m1, [1, 2, 15]);
    assert_eq!(m.m2, [[1, 0, 0], [0, 4, 30], [0, 30, 225]]);
}

#[test]
fn moments_of_full_chunk() {
    let m = MassMoments::of_chunk(&[u16::MAX; 256]);
    assert_eq!(m.m0, 4096);
    // Each coordinate 0..16 occurs 256 times per axis.
    assert_eq!(m.m1, [256 * 120; 3]);
    assert_eq!(m.m2[0][0], 256 * 1240);
    assert_eq!(m.m2[0][1], 16 * 120 * 120);
}
