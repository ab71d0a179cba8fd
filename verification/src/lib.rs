//! Asset pipeline of an image gallery: directory scanning, image and GIF
//! decoding, atlas packing, frame-delay compression and the texture cache
//! that the render loop feeds from.

pub mod delay;
pub mod size;
pub mod atlas;
pub mod picture;
pub mod pack;
pub mod scan;
pub mod loader;
pub mod storage;
pub mod layout;
pub mod worker;
pub mod images;
pub mod schedule;
pub mod window;
