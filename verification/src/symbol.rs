//! Symbol registries.
pub mod found;
pub mod ids;
pub mod module;
pub mod table;
