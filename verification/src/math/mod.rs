//! Integer math for 2D games: numeric traits, vectors and rectangles.

pub mod num;
pub mod vec2;
pub mod rect;
pub mod scalar;
pub mod rect_ops;
