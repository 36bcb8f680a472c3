//! Hexadecimal decoding, with the properties that check it.

pub mod decode;
pub mod error;
pub mod inputs;
pub mod etna;
pub mod runner;
pub mod text;

pub use decode::decode;
pub use error::FromHexError;
