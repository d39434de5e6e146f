//! Binding a declared schema of typed fields to environment variables,
//! collecting every failure before deciding, and rendering a usage table.

pub mod naming;
pub mod parse;
pub mod binding;
pub mod usage;
pub mod laws;
