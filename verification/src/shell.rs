//! The uniform result every command stage produces: an optional working
//! directory change, optional standard output text, and optional standard
//! error text.

use vstd::prelude::*;

verus! {

/// What one command stage hands back to the orchestrator.
pub struct CommandOutput {
    /// A new working directory, when the stage changed it (only `cd` does).
    pub updated_dir: Option<String>,
    /// Text destined for standard output.
    pub std_output: Option<String>,
    /// Text destined for standard error.
    pub std_error: Option<String>,
}

impl CommandOutput {
    /// A result that carries only standard output text.
    pub fn success(msg: String) -> (r: CommandOutput)
        ensures
            r.updated_dir is None,
            r.std_output == Some(msg),
            r.std_error is None,
    {
        CommandOutput { updated_dir: None, std_output: Some(msg), std_error: None }
    }

    /// A result that carries only standard error text.
    pub fn failure(msg: String) -> (r: CommandOutput)
        ensures
            r.updated_dir is None,
            r.std_output is None,
            r.std_error == Some(msg),
    {
        CommandOutput { updated_dir: None, std_output: None, std_error: Some(msg) }
    }

    /// A result that carries nothing at all.
    pub fn empty() -> (r: CommandOutput)
        ensures
            r.updated_dir is None,
            r.std_output is None,
            r.std_error is None,
    {
        CommandOutput { updated_dir: None, std_output: None, std_error: None }
    }

    /// A result that carries only a working directory change.
    pub fn path_update(path: String) -> (r: CommandOutput)
        ensures
            r.updated_dir == Some(path),
            r.std_output is None,
            r.std_error is None,
    {
        CommandOutput { updated_dir: Some(path), std_output: None, std_error: None }
    }
}

} // verus!
