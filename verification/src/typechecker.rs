//! Type checking.
pub mod again;
pub mod balance;
pub mod checker;
pub mod conduct;
pub mod conversions;
pub mod elaborate;
pub mod errors;
pub mod judgement;
pub mod measure;
pub mod members;
pub mod operands;
pub mod parsed;
pub mod program;
pub mod recheck;
pub mod rules;
pub mod targets;
pub mod types;
pub mod whole;
