//! A command manager: tasks written down in a KDL configuration, rendered
//! through a small placeholder template language, ordered by their
//! dependencies and handed to a runner as plain command lines.
use vstd::prelude::*;

pub mod text;
pub mod error;
pub mod document;
pub mod strmap;
pub mod spec;
pub mod template;
pub mod config;
pub mod deps;
pub mod order;
pub mod placeholders;
pub mod parse;
pub mod runner;
pub mod cli;
pub mod git_hooks;

verus! {
} // verus!
