//! The single-binary casa CLI: numeric Matter node ids with a configured
//! endpoint, positional mat arguments, adapters that report unsupported
//! operations as errors, and no groups.

pub mod adapter;
pub mod cli;
pub mod config;
pub mod ops;
