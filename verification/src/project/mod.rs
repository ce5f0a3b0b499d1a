pub mod cache;
pub mod fields;
pub mod hash;
pub mod manifest;
pub mod paths;
pub mod roundtrip;
pub mod table;
