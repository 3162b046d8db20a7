//! Types for procedural TeX macros.
pub mod types;
