//! casad, the resident layer: automation rules that fire casa actions when a
//! time comes or a device reports a change.

pub mod action;
pub mod cli;
pub mod dispatch;
pub mod engine;
pub mod enl;
pub mod mat;
pub mod rules;
pub mod state_cache;
