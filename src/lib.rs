//! Voxel rigid-body collision core: bit-packed chunk occupancy, lazy
//! octree-style narrowing of chunk volumes, and the work stack that drives
//! the narrow-phase search over pairs of collider nodes.

pub mod collider;
pub mod loader;
pub mod moments;
pub mod narrowing;
pub mod search;
pub mod store;
pub mod voxel;

pub use collider::{BoxData, Collider, RayData};
pub use moments::MassMoments;
pub use loader::{
    chunks_to_unload, demo_blocks, ObjectLoader, PlanetLoader, ShipLoader, RENDER_DISTANCE,
};
pub use narrowing::ColliderIterator;
pub use search::CollisionSearch;
pub use store::{BodyStore, RigidBody};
pub use voxel::{pack_rows, ObjectData, CHUNK_SIZE};
