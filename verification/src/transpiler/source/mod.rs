pub mod bindings;
pub mod collections;
pub mod functions;
pub mod iterators;
pub mod keywords;
pub mod literals;
pub mod pipeline;
pub mod plain;
pub mod scan;
