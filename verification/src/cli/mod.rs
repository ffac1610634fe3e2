//! The settings of a run and the command line's choices, as plain values.
pub mod config;
