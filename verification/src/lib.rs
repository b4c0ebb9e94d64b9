pub mod frame;
pub mod geometry;
pub mod point;
pub mod project;
pub mod rotation;
pub mod text;
