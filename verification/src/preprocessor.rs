//! The stage between the scanner and the parser.
//!
//! It walks the tokens of a file, follows `$` directives, puts defines in the
//! place of names, and loads the modules that are imported.
pub mod branches;
pub mod conditional;
pub mod defines;
pub mod disk;
pub mod driver;
pub mod errors;
pub mod expr_eval;
pub mod flow;
pub mod growth;
pub mod modules;
pub mod places;
pub mod rules;
pub mod splice;
pub mod suggest;
pub mod values;
