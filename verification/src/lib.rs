//! A streaming image-grid compositor: equally-sized source images are packed
//! left-to-right, top-to-bottom into a single growable canvas, one at a time,
//! without knowing the final image count in advance.

pub mod canvas;
pub mod image;
pub mod merger;
