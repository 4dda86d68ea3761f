//! Verified texture bookkeeping for an egui painter that draws through OpenGL.
//!
//! The GPU calls themselves live with the caller; this crate decides which
//! texture is bound for a mesh, which user textures must be (re)uploaded or
//! deleted, what bytes are uploaded, and which scissor box a clip rectangle
//! becomes.
pub mod laws;
pub mod pixels;
pub mod scissor;
pub mod texture_id;
pub mod textures;
