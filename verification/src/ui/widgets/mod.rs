//! What this crate knows of single widgets.

pub mod hoverable;
pub mod image;
pub mod video;
