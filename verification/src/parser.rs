//! From tokens to a syntax tree.
pub mod ahead;
pub mod assembly;
pub mod ast;
pub mod balance;
pub mod containment;
pub mod coverage;
pub mod cursor;
pub mod cycles;
pub mod declarations;
pub mod declared;
pub mod dot_access;
pub mod errors;
pub mod expressions;
pub mod grammar;
pub mod literals;
pub mod matching;
pub mod meta;
pub mod operators;
pub mod outline;
pub mod patterns;
pub mod program;
pub mod reading;
pub mod shapes;
pub mod statements;
pub mod switch;
pub mod syntax;
pub mod toplevel;
pub mod type_expr;
pub mod unit;
pub mod visibility;
pub mod written;
