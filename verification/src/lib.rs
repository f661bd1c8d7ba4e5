//! An interactive line-oriented command shell, with its core logic verified:
//! quote-aware tokenizing and redirection parsing, pipeline splitting and
//! planning, output routing, executable resolution, command history, and
//! the line editor's key handling.
//!
//! Everything that touches the outside world — the terminal, the
//! filesystem, child processes, environment variables — stays outside this
//! crate and hands plain values in.

use vstd::prelude::*;

pub mod builtins;
pub mod editor;
pub mod history;
pub mod order;
pub mod output;
pub mod parser;
pub mod pipeline;
pub mod resolver;
pub mod shell;
pub mod text;

pub use output::OutputProcessor;
pub use resolver::OSInstance;
pub use shell::CommandOutput;

verus! {

} // verus!
