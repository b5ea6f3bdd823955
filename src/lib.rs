pub mod average;
pub mod color;
pub mod disk;
pub mod photon;
pub mod root;
pub mod schedule;
pub mod skybox;
pub mod texture;
