pub mod error;
pub mod fields;
pub mod ops;
pub mod utils;
pub mod parser;
pub mod cortex;
pub mod transformer;
