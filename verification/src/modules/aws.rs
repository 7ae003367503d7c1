//! Modules that work on cloud resources.

pub mod cloudformation;
pub mod region;
