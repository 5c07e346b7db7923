//! Rendering and caching of character avatars and skins: cache keys,
//! a compaction codec for the stored images, and the pixel pipeline.

pub mod codec;
pub mod flow;
pub mod identity;
pub mod imaging;
pub mod pixels;
pub mod serve;
