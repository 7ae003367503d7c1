//! The modules that come with the engine.

pub mod aws;
pub mod command;
