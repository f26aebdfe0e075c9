//! Tokens, positions and types: what the scanner hands to every later phase.
pub mod lang_type;
pub mod position;
pub mod scan;
pub mod spelling;
pub mod token;
