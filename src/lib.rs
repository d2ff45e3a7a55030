//! Expands the responsive variants of `atomic({...})` style definitions into
//! flat class lists, and injects them into a program as marker statements.

pub mod variant_map;
pub mod ast;
pub mod text;
pub mod extract;
pub mod expand;
pub mod walk;
pub mod config;
pub mod pass;
pub mod laws;

pub use crate::pass::process;
