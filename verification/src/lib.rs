//! Sticky notes on the desktop, and what they ask of herdr.
//!
//! The windows, the socket and the file system are the program's part. The library decides what
//! goes into them, and what comes of what they give back.
pub mod herdr;
pub mod json;
pub mod menu;
pub mod note;
pub mod paths;
pub mod store;
pub mod text;
pub mod wire;
