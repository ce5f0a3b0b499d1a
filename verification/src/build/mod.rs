pub mod compiler;
pub mod dependencies;
pub mod runner;
pub mod types;
pub mod versions;
pub mod manifest_toml;
pub mod resolver;
