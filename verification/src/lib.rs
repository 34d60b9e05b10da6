//! Byte-level visualisation of a fixed-layout record under out-of-bounds writes.

pub mod color;
pub mod frame;
pub mod layout;
pub mod text;
pub mod trial;
pub mod view;
