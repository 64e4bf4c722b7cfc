pub mod camera;
pub mod geometry;
pub mod types;
pub mod utils;
