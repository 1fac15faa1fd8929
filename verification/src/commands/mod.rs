pub mod parser;
pub mod roll;
pub mod utils;
