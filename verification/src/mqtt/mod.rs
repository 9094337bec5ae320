pub mod data;
pub mod options;
