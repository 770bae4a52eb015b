use cgmath::Vector3;
use voxel_physics::{BoxData, Collider, ColliderIterator, CollisionSearch, ObjectData};

fn object_with(voxels: &[(u16, u16, u16)]) -> ObjectData {
    let mut data = ObjectData::new();
    let i = data.chunk_for((0, 0, 0));
    for &(x, y, z) in voxels {
        data.chunks[i][(y + 16 * z) as usize] |= 1 << x;
    }
    data
}

fn node(start: (u16, u16, u16), width: (u16, u16, u16), axis: u8) -> ColliderIterator {
    ColliderIterator::ObjectIterator {
        chunk_index: 0,
        start_x: start.0,
        start_y: start.1,
        start_z: start.2,
        width_x: width.0,
        width_y: width.1,
        width_z: width.2,
        xyz_index: axis,
    }
}

fn unit_box() -> Collider<f64> {
    Collider::Box(BoxData {
        center: Vector3::new(0.0, 0.0, 0.0),
        half_extents: Vector3::new(0.5, 0.5, 0.5),
    })
}

#[test]
fn new_object_covers_whole_chunk() {
    assert_eq!(ColliderIterator::new_object(3), node((0, 0, 0), (16, 16, 16), 0).with_chunk(3));
}

trait WithChunk {
    fn with_chunk(self, c: usize) -> Self;
}

impl WithChunk for ColliderIterator {
    fn with_chunk(self, c: usize) -> Self {
        match self {
            ColliderIterator::ObjectIterator { start_x, start_y, start_z, width_x, width_y, width_z, xyz_index, .. } => {
                ColliderIterator::ObjectIterator {
                    chunk_index: c,
                    start_x,
                    start_y,
                    start_z,
                    width_x,
                    width_y,
                    width_z,
                    xyz_index,
                }
            }
            other => other,
        }
    }
}

#[test]
fn contains_blocks_sees_only_its_region() {
    let data = object_with(&[(15, 15, 15)]);
    assert!(node((0, 0, 0), (16, 16, 16), 0).contains_blocks(&data));
    assert!(node((8, 8, 8), (8, 8, 8), 0).contains_blocks(&data));
    assert!(node((15, 15, 15), (1, 1, 1), 0).contains_blocks(&data));
    assert!(!node((0, 0, 0), (8, 16, 16), 0).contains_blocks(&data));
    assert!(!node((14, 15, 15), (1, 1, 1), 0).contains_blocks(&data));
}

#[test]
fn next_bisects_and_keeps_both_occupied_halves() {
    let data = object_with(&[(0, 0, 0), (15, 0, 0)]);
    let kids = node((0, 0, 0), (16, 16, 16), 0).next(&data);
    assert_eq!(kids, vec![node((0, 0, 0), (8, 16, 16), 1), node((8, 0, 0), (8, 16, 16), 1)]);
}

#[test]
fn next_prunes_empty_half() {
    let data = object_with(&[(0, 0, 0)]);
    assert_eq!(node((0, 0, 0), (16, 16, 16), 0).next(&data), vec![node((0, 0, 0), (8, 16, 16), 1)]);
    assert_eq!(node((0, 0, 0), (8, 16, 16), 1).next(&data), vec![node((0, 0, 0), (8, 8, 16), 2)]);
    assert_eq!(node((0, 0, 0), (8, 8, 16), 2).next(&data), vec![node((0, 0, 0), (8, 8, 8), 0)]);
}

#[test]
fn next_of_empty_node_is_empty() {
    let data = object_with(&[]);
    assert!(node((0, 0, 0), (16, 16, 16), 0).next(&data).is_empty());
}

#[test]
fn next_stops_at_one_voxel() {
    let data = object_with(&[(4, 4, 4)]);
    let leaf = node((4, 4, 4), (1, 1, 1), 1);
    assert!(leaf.is_leaf());
    assert!(leaf.next(&data).is_empty());
    assert!(!node((4, 4, 4), (1, 2, 1), 1).is_leaf());
}

#[test]
fn single_voxel_descends_to_leaf_in_twelve_steps() {
    let data = object_with(&[(0, 0, 0)]);
    let mut n = ColliderIterator::new_object(0);
    let mut steps = 0;
    while !n.is_leaf() {
        let kids = n.next(&data);
        assert_eq!(kids.len(), 1);
        n = kids[0];
        steps += 1;
    }
    assert_eq!(steps, 12);
    assert_eq!(n, node((0, 0, 0), (1, 1, 1), 0));
}

#[test]
fn box_and_ray_nodes_are_leaves_that_yield_themselves() {
    let data = ObjectData::new();
    assert!(ColliderIterator::new_box().is_leaf());
    assert!(ColliderIterator::new_ray().is_leaf());
    assert_eq!(ColliderIterator::new_box().next(&data), vec![ColliderIterator::BoxIterator]);
    assert_eq!(ColliderIterator::new_ray().next(&data), vec![ColliderIterator::RayIterator]);
}

#[test]
fn box_in_half_voxels_is_exact() {
    let mut data = ObjectData::new();
    data.chunk_for((1, -2, 0));
    let b = node((8, 0, 4), (8, 16, 2), 0).box_in_half_voxels(&data);
    assert_eq!(b, ((32 + 16 + 8, -64 + 16, 8 + 2), (8, 16, 2)));
}

#[test]
fn roots_skip_empty_chunks() {
    let mut data = object_with(&[(1, 1, 1)]);
    data.chunk_for((5, 5, 5));
    let c: Collider<f64> = Collider::Object(data);
    assert_eq!(c.roots(), vec![ColliderIterator::new_object(0)]);
    assert_eq!(unit_box().roots(), vec![ColliderIterator::BoxIterator]);
    let ray: Collider<f64> = Collider::new_ray(Vector3::new(0.0, 0.0, -5.0), Vector3::new(0.0, 0.0, 10.0));
    assert_eq!(ray.roots(), vec![ColliderIterator::RayIterator]);
}

#[test]
fn empty_object_has_no_roots() {
    let c: Collider<f64> = Collider::empty_object();
    match &c {
        Collider::Object(d) => assert!(d.chunks.is_empty() && d.coords.is_empty()),
        _ => panic!("not an object"),
    }
    assert!(c.roots().is_empty());
    assert!(CollisionSearch::new(&c, &unit_box()).is_done());
}

/// Axis-aligned overlap in half-voxel units between an object node and a
/// probe box given as (min, max) corners in half-voxel units.
fn overlaps(node: &ColliderIterator, data: &ObjectData, probe: ((i64, i64, i64), (i64, i64, i64))) -> bool {
    let (c, h) = node.box_in_half_voxels(data);
    let (lo, hi) = probe;
    c.0 - h.0 < hi.0 && c.0 + h.0 > lo.0 && c.1 - h.1 < hi.1 && c.1 + h.1 > lo.1 && c.2 - h.2 < hi.2
        && c.2 + h.2 > lo.2
}

#[test]
fn search_never_tests_occupied_corner_from_empty_region() {
    // One voxel in the corner (0, 0, 0); the probe box covers only the
    // empty far corner of the chunk.
    let data = object_with(&[(0, 0, 0)]);
    let object: Collider<f64> = Collider::Object(data.clone());
    let probe_box = unit_box();
    let probe = ((20, 20, 20), (32, 32, 32));
    let mut search = CollisionSearch::new(&object, &probe_box);
    let mut tests = 0;
    let mut contacts = 0;
    while let Some(pair) = search.pop() {
        tests += 1;
        let (a, _) = pair;
        assert!(a.contains_blocks(&data));
        if overlaps(&a, &data, probe) {
            contacts += 1;
            search.refine(&object, &probe_box, pair);
        }
    }
    // The chunk root overlaps the probe; its only kept half (the lower x half)
    // does not, and no other sub-volume is ever produced.
    assert_eq!(tests, 2);
    assert_eq!(contacts, 1);
}

#[test]
fn search_reaches_occupied_voxel_under_probe() {
    let data = object_with(&[(0, 0, 0)]);
    let object: Collider<f64> = Collider::Object(data.clone());
    let probe_box = unit_box();
    let probe = ((0, 0, 0), (2, 2, 2));
    let mut search = CollisionSearch::new(&object, &probe_box);
    let mut deepest = None;
    let mut tests = 0;
    while let Some(pair) = search.pop() {
        tests += 1;
        if overlaps(&pair.0, &data, probe) {
            if pair.0.is_leaf() {
                deepest = Some(pair.0);
            }
            search.refine(&object, &probe_box, pair);
        }
    }
    assert_eq!(deepest, Some(node((0, 0, 0), (1, 1, 1), 0)));
    assert_eq!(tests, 13);
}

#[test]
fn search_pairs_roots_and_children_in_order() {
    let a = object_with(&[(0, 0, 0), (15, 0, 0)]);
    let b = object_with(&[(0, 0, 0)]);
    let ca: Collider<f64> = Collider::Object(a);
    let cb: Collider<f64> = Collider::Object(b);
    let mut search = CollisionSearch::new(&ca, &cb);
    let root = search.pop().unwrap();
    assert_eq!(root, (ColliderIterator::new_object(0), ColliderIterator::new_object(0)));
    assert!(search.is_done());
    assert!(search.refine(&ca, &cb, root));
    let b_half = node((0, 0, 0), (8, 16, 16), 1);
    assert_eq!(search.pop(), Some((node((8, 0, 0), (8, 16, 16), 1), b_half)));
    assert_eq!(search.pop(), Some((node((0, 0, 0), (8, 16, 16), 1), b_half)));
    assert_eq!(search.pop(), None);
}

#[test]
fn refine_refuses_leaves_and_foreign_nodes() {
    let a = object_with(&[(0, 0, 0)]);
    let ca: Collider<f64> = Collider::Object(a);
    let cb = unit_box();
    let mut search = CollisionSearch::new(&ca, &cb);
    let leaf = node((0, 0, 0), (1, 1, 1), 0);
    assert!(!search.refine(&ca, &cb, (leaf, ColliderIterator::BoxIterator)));
    assert!(!search.refine(&ca, &cb, (ColliderIterator::new_object(0), ColliderIterator::RayIterator)));
    assert!(!search.refine(&ca, &cb, (ColliderIterator::new_object(4), ColliderIterator::BoxIterator)));
    assert!(search.refine(&ca, &cb, (ColliderIterator::new_object(0), ColliderIterator::BoxIterator)));
    assert_eq!(search.pop(), Some((node((0, 0, 0), (8, 16, 16), 1), ColliderIterator::BoxIterator)));
}
