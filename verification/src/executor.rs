//! The privileged executor's plan: how a script is started as the target
//! user, and what the way it ended means.

use vstd::prelude::*;
use vstd::string::StringExecFns;
use crate::text::{push_signed_decimal, signed_decimal};

verus! {

/// The program that runs a command as another user.
pub const RUNUSER: &'static str = "runuser";

/// The shell that runs the script.
pub const LOGIN_SHELL: &'static str = "/bin/bash";

/// Why a script did not run to a good end.
#[derive(Debug, Clone, PartialEq)]
pub enum ExecutionError {
    /// `runuser` could not be started.
    Launch { reason: String },
    /// The command ended with this exit code, or by a signal where there
    /// is none.
    Failed { code: Option<i32> },
}

/// The arguments for `runuser` that run `script` as `user`: a login shell
/// that replaces itself by its argument zero, which is the script's path.
/// The path is an argument of its own and never part of the shell's
/// command text.
pub open spec fn runuser_arguments(user: Seq<char>, script: Seq<char>) -> Seq<Seq<char>> {
    seq!["-u"@, user, "--"@, LOGIN_SHELL@, "-l"@, "-c"@, "exec \"$0\""@, script]
}

/// An exit code as the error text shows it.
pub open spec fn exit_code_text(code: Option<i32>) -> Seq<char> {
    match code {
        Some(c) => "Some("@ + signed_decimal(c as int) + ")"@,
        None => "None"@,
    }
}

impl ExecutionError {
    /// The text of the error.
    pub open spec fn message_text(&self) -> Seq<char> {
        match self {
            ExecutionError::Launch { reason } => "Failed to execute runuser: "@ + reason@,
            ExecutionError::Failed { code } => "Command failed with exit code: "@ + exit_code_text(
                *code,
            ),
        }
    }

    /// The text of the error.
    pub fn message(&self) -> (text: String)
        ensures
            text@ == self.message_text(),
    {
        match self {
            ExecutionError::Launch { reason } => "Failed to execute runuser: ".to_owned().concat(
                reason.as_str(),
            ),
            ExecutionError::Failed { code } => {
                let mut text = "Command failed with exit code: ".to_owned();
                match code {
                    Some(c) => {
                        text.append("Some(");
                        push_signed_decimal(&mut text, *c);
                        text.append(")");
                    },
                    None => {
                        text.append("None");
                    },
                }
                text
            },
        }
    }
}

/// The arguments for `runuser` that run `script` as `user` in a login
/// shell.
pub fn runuser_args(user: &str, script: &str) -> (args: Vec<String>)
    ensures
        args.deep_view() == runuser_arguments(user@, script@),
{
    let mut args: Vec<String> = Vec::new();
    args.push("-u".to_owned());
    args.push(user.to_owned());
    args.push("--".to_owned());
    args.push(LOGIN_SHELL.to_owned());
    args.push("-l".to_owned());
    args.push("-c".to_owned());
    args.push("exec \"$0\"".to_owned());
    args.push(script.to_owned());
    args
}

/// What the end of the command means: exit code zero is success, any
/// other code, or none, is a failure that carries the code.
pub fn exit_result(code: Option<i32>) -> (r: Result<(), ExecutionError>)
    ensures
        r is Ok <==> code == Some(0i32),
        r matches Err(e) ==> e == (ExecutionError::Failed { code }),
{
    match code {
        Some(0) => Ok(()),
        _ => Err(ExecutionError::Failed { code }),
    }
}

} // verus!
