//! Comparisons for kinds of files: text, SVG drawings and PNG images.

pub mod escape;
pub mod text;
pub mod svg;
pub mod image;
pub mod strategy;
