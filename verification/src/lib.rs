//! A verified model of an off-screen drawing-surface lifecycle and its
//! pixel-transfer contract, together with a paragraph handle for laid-out
//! text.
//!
//! A [`surface::Surface`] owns a drawing destination (a CPU raster buffer, a
//! GPU-backed target, or a null sink), hands out a single associated drawing
//! context, tracks a content-version counter, and mediates pixel import and
//! export. A [`paragraph::Paragraph`] owns a laid-out block of text and
//! exposes read-only geometric queries over it.
//!
//! Every fallible operation yields an explicit absent result (no surface, no
//! image, no copy performed) rather than a partially valid object, and every
//! pixel-copy operation is conservative: any ambiguity about rectangle
//! intersection or buffer sizing yields "no copy performed", never an
//! out-of-bounds write.

pub mod canvas;
pub mod geometry;
pub mod gpu;
pub mod image;
pub mod image_info;
pub mod paragraph;
pub mod pixels;
pub mod surface;
