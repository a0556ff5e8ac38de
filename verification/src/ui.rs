//! Widgets' state and geometry: what is drawn where, without the drawing.

pub mod cursor;
pub mod paragraph;
pub mod text_area;
