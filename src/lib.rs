//! Primality over a range of integers, drawn as an uncompressed 24-bit bitmap.
pub mod bitmap;
pub mod classify;
pub mod pixels;
pub mod primality;
pub mod render;
