use voxel_physics::{chunks_to_unload, BodyStore, ObjectLoader, PlanetLoader, RigidBody, ShipLoader};

#[test]
fn demo_loader_is_a_ship() {
    assert!(matches!(ObjectLoader::demo(), ObjectLoader::OneShot(_)));
}

#[test]
fn planet_has_chunks_below_zero_only() {
    let p = PlanetLoader {};
    assert!(p.has_chunk((5, -3, -1)));
    assert!(!p.has_chunk((0, 0, 0)));
    assert!(!p.has_chunk((0, 0, 7)));
}

#[test]
fn load_plan_from_scratch() {
    let plan = PlanetLoader {}.chunks_to_load(&Vec::new(), (0, 0, 0));
    assert_eq!(plan.len(), 8 * 8 * 4);
    assert_eq!(plan[0], (-4, -4, -4));
    assert_eq!(plan[1], (-4, -4, -3));
    assert_eq!(plan[4], (-4, -3, -4));
    assert_eq!(*plan.last().unwrap(), (3, 3, -1));
    assert!(plan.windows(2).all(|w| w[0] < w[1]));
}

#[test]
fn load_plan_skips_loaded_chunks() {
    let loaded = vec![(-4, -4, -4), (0, 0, -1), (100, 0, -1)];
    let plan = PlanetLoader {}.chunks_to_load(&loaded, (0, 0, 0));
    assert_eq!(plan.len(), 8 * 8 * 4 - 2);
    assert!(!plan.contains(&(-4, -4, -4)));
    assert!(!plan.contains(&(0, 0, -1)));
}

#[test]
fn load_plan_far_above_planet_is_empty() {
    assert!(PlanetLoader {}.chunks_to_load(&Vec::new(), (0, 0, 10)).is_empty());
}

#[test]
fn load_plan_near_coordinate_limit() {
    let plan = PlanetLoader {}.chunks_to_load(&Vec::new(), (i32::MAX - 4, 0, i32::MIN + 4));
    assert_eq!(plan.len(), 512);
    assert_eq!(plan[0], (i32::MAX - 8, -4, i32::MIN));
}

#[test]
fn unload_plan_lists_far_chunks_in_order() {
    let coords = vec![(0, 0, 0), (5, 0, 0), (4, -4, 4), (0, 0, -9), (i32::MIN, 0, 0)];
    assert_eq!(chunks_to_unload(&coords, (0, 0, 0)), vec![1, 3, 4]);
    assert!(chunks_to_unload(&Vec::new(), (0, 0, 0)).is_empty());
}

#[test]
fn ship_stays_loaded_while_a_chunk_is_near() {
    let ship = ShipLoader {};
    ship.unload_all();
    assert!(ship.keeps_loaded(&vec![(9, 9, 9), (0, 0, -1)], (3, 3, 2)));
    assert!(!ship.keeps_loaded(&vec![(0, 0, -1)], (4, 0, 0)));
    assert!(!ship.keeps_loaded(&Vec::new(), (0, 0, 0)));
    assert!(!ship.keeps_loaded(&vec![(i32::MAX, 0, 0)], (i32::MIN, 0, 0)));
}

#[test]
fn store_hands_out_index_handles() {
    let mut store = BodyStore::new();
    let a = store.insert("a");
    let b = store.insert("b");
    assert_eq!(store.len(), 2);
    assert_eq!(a.index(), 0);
    assert_eq!(b.index(), 1);
    assert_ne!(a, b);
    assert_eq!(a, RigidBody::from_index(0));
    assert_eq!(store.get(b), Some(&"b"));
    assert_eq!(store.get(RigidBody::from_index(2)), None);
    *store.get_mut(a) = "c";
    assert_eq!(store.get(a), Some(&"c"));
    assert_eq!(store.handles(), vec![a, b]);
}

#[test]
fn ship_is_one_chunk_below_origin() {
    assert_eq!(ShipLoader {}.load_all(), vec![(0, 0, -1)]);
}

#[test]
fn demo_chunk_is_solid_between_layers_two_and_fourteen() {
    let blocks = voxel_physics::demo_blocks();
    assert_eq!(blocks[0], 0);
    assert_eq!(blocks[2 * 256 - 1], 0);
    assert_eq!(blocks[2 * 256], 2);
    assert_eq!(blocks[5 + 16 * 7 + 256 * 13], 2);
    assert_eq!(blocks[14 * 256], 0);
    assert_eq!(blocks.iter().filter(|b| **b == 2).count(), 12 * 256);
    PlanetLoader {}.unload_chunk((0, 0, -1));
}
