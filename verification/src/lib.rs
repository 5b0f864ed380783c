//! Literal text substitution for a command-line replace tool: the rules that
//! turn command-line tokens into a plan, and the replacement itself.

pub mod error;
pub mod resolver;
pub mod substitution;
pub mod text;
