pub mod ast;
pub mod lex;
pub mod parse;
