//! An embeddable interactive text-editing engine.
//!
//! The engine keeps a mutable, cursor-addressable text buffer per editor,
//! translates per-frame input batches into buffer and cursor mutations, and
//! rasterizes the shaped text on demand into an RGBA pixel image by manual
//! alpha compositing at the byte level.  Glyph shaping and rasterization are
//! delegated to the `cosmic_text` crate behind a small trusted boundary; all
//! buffer, cursor, dispatch, mapping and compositing logic is verified.

pub mod buffer;
pub mod editor;
pub mod input;
pub mod mapper;
pub mod passes;
pub mod raster;
pub mod render;
pub mod shaping;
pub mod text;
