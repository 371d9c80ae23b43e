//! Verified core of syncopate-machine: token-span layout planning, the
//! lightweight screening engine, configuration validation and the integer
//! side of the neural model configuration.

pub mod browser;
pub mod config;
pub mod engine;
pub mod error;
pub mod inference;
pub mod layout;
pub mod model;
pub mod runtime;
pub mod screen;
pub mod text;
pub mod tile;
pub mod training;
pub mod windows;
