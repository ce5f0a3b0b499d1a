pub mod expr;
pub mod items;
pub mod spec;
pub mod text;
pub mod types;
