//! Loader core for XML-based 2D tile maps: decoding of packed tile-layer
//! payloads, resolution of global tile identifiers against tileset
//! associations, and cached loading of externally referenced tilesets and
//! templates, all driven by a single forward pass over structural events.

pub mod animation;
pub mod codec;
pub mod error;
pub mod events;
pub mod text;
pub mod attrs;
pub mod wang;
pub mod tileset;
pub mod gids;
pub mod layers;
pub mod xml;
pub mod cache;
pub mod template;
pub mod map;
