pub mod aabb;
pub mod rectangle;
pub mod square;
