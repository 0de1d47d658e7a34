//! Front end of the Rig compiler: source text to tokens, tokens to syntax trees,
//! with the span and diagnostic model that both stages share.

pub mod ast;
pub mod driver;
pub mod error;
pub mod escape;
pub mod expr;
pub mod grammar;
pub mod grammar_laws;
pub mod lexer;
pub mod number;
pub mod parser;
pub mod report;
pub mod scan;
pub mod scan_laws;
pub mod span;
pub mod text;
pub mod token;

pub use lexer::Lexer;
pub use parser::{parse, parse_tokens, Parser};
