pub mod compiler;
pub mod engine;
pub mod error;
pub mod source;
