//! RunicScript: a small verified interpreter for a line-oriented command
//! language. Incantations are tokenized, parsed into an abstract syntax
//! tree, and evaluated into narrative text.

pub mod interpreter;
pub mod laws;
pub mod lexer;
pub mod numeral;
pub mod parser;
pub mod text;

pub use interpreter::Interpreter;
pub use lexer::tokenize;
pub use parser::ASTNode;
