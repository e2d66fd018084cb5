//! Structured diagnostics raised while scanning.

pub mod diagnostic;
