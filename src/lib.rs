//! Rebuilds standard asset files (collision models, meshes, motion packs) from
//! a streaming game's three-file container: a table of contents, a
//! scene-object index of asset headers, and a store of zlib-compressed
//! sections that hold the assets' payloads.
pub mod bytes;
pub mod collision;
pub mod error;
pub mod model;
pub mod motion;
pub mod quant;
mod reader;
pub mod soi;
pub mod soup;
pub mod store;
pub mod strings;
pub mod toc;
pub mod vector;
