//! Core tool argument handling: the command line a tool call runs and how
//! the command's exit is reported.
use vstd::prelude::*;
use crate::error::{EaiError, EaiResult};
use crate::reflex::ToolArgument;
use crate::text::{trim, chars_of, trimmed, string_of, push_str};

verus! {

/// The words `shlex::split` yields for a command line, or `None` when its
/// shell syntax is invalid (an unterminated quote or escape).
pub uninterp spec fn shlex_split(s: Seq<char>) -> Option<Seq<Seq<char>>>;

/// Calls `shlex::split`; its words are only known by the name
/// `shlex_split`.
#[verifier::external_body]
fn shell_split(s: &str) -> (r: Option<Vec<String>>)
    ensures
        match r {
            Some(v) => shlex_split(s@) == Some(v@.map_values(|w: String| w@)),
            None => shlex_split(s@) is None,
        },
{
    shlex::split(s)
}

/// Core tools of the substrate.
pub struct CoreTools;

impl CoreTools {
    /// The program and arguments an `exec_command` call runs: the argument
    /// must be a string holding a non-empty command line in valid shell
    /// syntax that yields at least one word.
    pub fn exec_command_args(arg: &ToolArgument) -> (r: EaiResult<Vec<String>>)
        ensures
            match arg {
                ToolArgument::Json(_) => r matches Err(e) && e == EaiError::Protocol(e->Protocol_0)
                    && e->Protocol_0@ == "Invalid argument type"@,
                ToolArgument::Text(t) => {
                    let clean = trim(t@);
                    if clean.len() == 0 {
                        r matches Err(e) && e == EaiError::Protocol(e->Protocol_0)
                            && e->Protocol_0@ == "Usage: exec_command <cmd>"@
                    } else {
                        match shlex_split(clean) {
                            None => r matches Err(e) && e == EaiError::Protocol(e->Protocol_0)
                                && e->Protocol_0@ == "Invalid shell syntax"@,
                            Some(words) => if words.len() == 0 {
                                r matches Err(e) && e == EaiError::Protocol(e->Protocol_0)
                                    && e->Protocol_0@ == "Command cannot be empty"@
                            } else {
                                r matches Ok(v) && v@.map_values(|w: String| w@) == words
                            },
                        }
                    }
                },
            },
    {
        match arg {
            ToolArgument::Json(_) => Err(EaiError::protocol("Invalid argument type")),
            ToolArgument::Text(t) => {
                let chars = chars_of(t.as_str());
                let c = trimmed(&chars);
                if c.len() == 0 {
                    return Err(EaiError::protocol("Usage: exec_command <cmd>"));
                }
                let clean = string_of(&c);
                match shell_split(clean.as_str()) {
                    None => Err(EaiError::protocol("Invalid shell syntax")),
                    Some(words) => {
                        if words.len() == 0 {
                            Err(EaiError::protocol("Command cannot be empty"))
                        } else {
                            Ok(words)
                        }
                    },
                }
            },
        }
    }

    /// The result of a finished command: its standard output on success;
    /// otherwise a process error carrying its standard error, or a generic
    /// message when that is empty.
    pub fn exec_command_result(success: bool, stdout: String, stderr: String) -> (r: EaiResult<String>)
        ensures
            success ==> (r matches Ok(s) && s@ == stdout@),
            !success ==> (r matches Err(e) && e == EaiError::Process(e->Process_0) && e->Process_0@ == if stderr@.len() == 0 {
                "Command failed with non-zero exit status"@
            } else {
                stderr@
            }),
    {
        if success {
            Ok(stdout)
        } else if chars_of(stderr.as_str()).len() == 0 {
            Err(EaiError::process("Command failed with non-zero exit status"))
        } else {
            Err(EaiError::process(stderr.as_str()))
        }
    }
}

} // verus!
