//! Shared logic of the casa smart-home client and its resident rule engine.
//!
//! The library decides; the program around it spawns child CLIs, reads files,
//! and prints JSON.

pub mod adapter;
pub mod cli;
pub mod casad;
pub mod config;
pub mod error;
pub mod json;
pub mod lookup;
pub mod ops;
pub mod output;
pub mod runner;
pub mod standalone;
pub mod text;
