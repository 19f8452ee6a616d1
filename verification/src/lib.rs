pub mod geometry;
pub mod layout;
pub mod page;
pub mod render;
pub mod size;
pub mod style;
pub mod utils;
pub mod value;
