pub mod address;
pub mod bytesutil;
pub mod curve;
pub mod errors;
pub mod hashes;
pub mod hexcodec;
pub mod keys;
pub mod path;
pub mod search;
pub mod serializer;
pub mod signing;
