//! Batch image transformation core: geometry for crop/rotate/resize,
//! background compositing for opaque output formats, a quality-search
//! encoder, collision-free output naming, and the batch event protocol.
pub mod engine;
pub mod geometry;
pub mod color;
pub mod encoder;
pub mod picture;
pub mod naming;
pub mod process;
pub mod registry;
pub mod options;
