//! Front end of the Aspect compiler.
pub mod diagnostics;
pub mod dsl;
pub mod lexer;
pub mod names;
pub mod parser;
pub mod preprocessor;
pub mod registers;
pub mod scope;
pub mod symbol;
pub mod target;
pub mod text;
pub mod typechecker;
pub mod variants;
