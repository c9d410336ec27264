//! Streaming driver for a binary delta codec.
//!
//! The codec engine is a pull-based state machine that lives outside this
//! crate. This crate holds everything the driver decides: the configuration
//! record, the windowed cache of source blocks, and the reaction to each
//! signal of the engine. It performs no I/O itself: the caller reads and
//! writes, and reports what happened.

pub mod pow2;
pub mod config;
pub mod signal;
pub mod error;
pub mod source_model;
pub mod source_cache;
pub mod pump;
