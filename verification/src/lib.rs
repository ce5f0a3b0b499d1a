pub mod build;
pub mod cargo;
pub mod cli;
pub mod project;
pub mod text;
pub mod transpiler;
