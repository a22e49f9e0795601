pub mod blocks;
pub mod chunk;
pub mod cube_mesh;
pub mod directions;
pub mod entity;
pub mod fixed;
pub mod handles;
pub mod horizontal_point;
pub mod mesh_generator;
pub mod render_order;
pub mod rng;
pub mod world;
