//! Client side of a length/type-tagged binary game protocol, together with
//! the chunk-streaming world model it feeds.
//!
//! The crate is organised leaf-first: `codec` holds the byte-level wire
//! primitives and `text` the length-prefixed UTF-16 strings; `attributes`
//! the tagged entity-attribute maps; `packets` the closed packet catalogue
//! with its decode dispatcher and outbound serializers; `connection` the
//! handshake state machine; `block` the voxel material catalogue; `chunk`
//! the dense voxel grid and its face-culled mesh builder; `slots` the
//! fixed-capacity render slot table; and `world` the streaming state that
//! ties chunks, slots and packets together.

pub mod attributes;
pub mod block;
pub mod chunk;
pub mod codec;
pub mod connection;
pub mod inflate;
pub mod packets;
pub mod slots;
pub mod text;
pub mod world;

pub use block::Block;
