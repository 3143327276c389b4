//! An interactive checklist: an ordered list of task items, a small
//! line-oriented command language over it, and a plain-text file format.
pub mod text;
pub mod style;
pub mod item;
pub mod response;
pub mod todo;
