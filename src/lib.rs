//! Hides an encrypted payload inside a PNG file, in a private chunk placed
//! after the image's end marker.
pub mod bytes;
pub mod chunk;
pub mod container;
pub mod envelope;
pub mod error;
pub mod search;
pub mod stego;

pub use error::Error;
