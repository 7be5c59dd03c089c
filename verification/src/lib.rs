//! Indent formatting over pluggable output sinks.
//!
//! The crate provides one lazy-indent engine, written and verified once,
//! together with two thin facades over it: a text-oriented writer and a
//! byte-oriented writer. Each facade owns a sink implementing the
//! [`common::IndentWrite`] capability and re-exposes that flavor's native
//! write interface, inserting the current indentation at the start of every
//! line of output.

pub mod buffer;
pub mod common;
pub mod fmt;
pub mod io;
pub mod marker;
