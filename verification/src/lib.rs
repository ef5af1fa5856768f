//! Encoder for planar geometries into the command/parameter integer stream
//! of the vector-tile geometry encoding convention, together with the tile
//! cache interface used to store encoded tile payloads.

pub mod cache;
pub mod codec;
pub mod filecache;
pub mod geom;
