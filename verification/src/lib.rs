//! Encoding of Rust values into Windows registry keys and values, and
//! decoding them back: the decisions of a serde serializer and deserializer
//! over the registry, verified.

pub mod decoder;
pub mod encoder;
pub mod roundtrip;
pub mod structure;
pub mod text;
pub mod utf16;
pub mod value;
