pub mod interpreter;
pub mod parser;
pub mod text;
