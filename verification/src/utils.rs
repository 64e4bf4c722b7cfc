pub mod scalar;
pub mod vec3;
