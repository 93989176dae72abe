//! A small C99 front end: preprocessing phases, a lexer and parser producing
//! an abstract syntax tree, and the typing rules used when lowering that tree.
pub mod ast;
pub mod driver;
pub mod generator;
pub mod parse;
pub mod preprocess;
pub mod text;
pub mod utils;
