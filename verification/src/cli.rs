//! The command line's top level and what it prints for a result.
use vstd::prelude::*;
use crate::commands::{CommandFailure, CommandOutput, Commands};
use crate::json::{Json, JsonValue};
use crate::output::{error_envelope, error_json, success_envelope, success_json};

verus! {

/// The parsed command line.
#[derive(Debug)]
pub struct Cli {
    pub command: Commands,
}

/// What is printed on standard output.
#[derive(Debug)]
pub enum Rendering {
    Text(String),
    Json(Json),
}

/// A command's text, or else its success envelope.
pub fn success_rendering(output: CommandOutput) -> (r: Rendering)
    ensures
        match output.text {
            Some(t) => r matches Rendering::Text(x) && x@ == t@,
            None => r matches Rendering::Json(j) && j@ == success_envelope(
                output.command@,
                output.dry_run,
                output.data@,
            ),
        },
{
    match output.text {
        Some(t) => Rendering::Text(t),
        None => Rendering::Json(success_json(output.command, output.dry_run, output.data)),
    }
}

/// The failure envelope of a failed command.
pub fn failure_rendering(failure: &CommandFailure) -> (j: Json)
    ensures
        j@ == error_envelope(failure.command@, failure.error),
{
    error_json(failure.command, &failure.error)
}

/// The process exit status: 0 after success, 1 after a failure.
pub fn exit_code(succeeded: bool) -> (c: i32)
    ensures
        c == (if succeeded {
            0i32
        } else {
            1i32
        }),
{
    if succeeded {
        0
    } else {
        1
    }
}

} // verus!
