pub mod options;
