//! The commands of the protocol, by name.

use crate::text::str_eq;
use vstd::prelude::*;

verus! {

/// The commands that a request can name.
#[derive(Clone, Copy, Debug, PartialEq, Eq, Structural)]
pub enum Command {
    Initialize,
    Launch,
    Attach,
    Disconnect,
    SetBreakpoints,
    SetExceptionBreakpoints,
    ConfigurationDone,
    Threads,
    Pause,
    StackTrace,
    Scopes,
    Source,
    Variables,
    Continue,
    Next,
    /// Any other name.
    Unsupported,
}

/// The command that `name` names.
pub open spec fn command_of(name: Seq<char>) -> Command {
    if name == "initialize"@ {
        Command::Initialize
    } else if name == "launch"@ {
        Command::Launch
    } else if name == "attach"@ {
        Command::Attach
    } else if name == "disconnect"@ {
        Command::Disconnect
    } else if name == "setBreakpoints"@ {
        Command::SetBreakpoints
    } else if name == "setExceptionBreakpoints"@ {
        Command::SetExceptionBreakpoints
    } else if name == "configurationDone"@ {
        Command::ConfigurationDone
    } else if name == "threads"@ {
        Command::Threads
    } else if name == "pause"@ {
        Command::Pause
    } else if name == "stackTrace"@ {
        Command::StackTrace
    } else if name == "scopes"@ {
        Command::Scopes
    } else if name == "source"@ {
        Command::Source
    } else if name == "variables"@ {
        Command::Variables
    } else if name == "continue"@ {
        Command::Continue
    } else if name == "next"@ {
        Command::Next
    } else {
        Command::Unsupported
    }
}

impl Command {
    /// The command that `name` names.
    pub fn of(name: &str) -> (r: Command)
        ensures
            r == command_of(name@),
    {
        if str_eq(name, "initialize") {
            Command::Initialize
        } else if str_eq(name, "launch") {
            Command::Launch
        } else if str_eq(name, "attach") {
            Command::Attach
        } else if str_eq(name, "disconnect") {
            Command::Disconnect
        } else if str_eq(name, "setBreakpoints") {
            Command::SetBreakpoints
        } else if str_eq(name, "setExceptionBreakpoints") {
            Command::SetExceptionBreakpoints
        } else if str_eq(name, "configurationDone") {
            Command::ConfigurationDone
        } else if str_eq(name, "threads") {
            Command::Threads
        } else if str_eq(name, "pause") {
            Command::Pause
        } else if str_eq(name, "stackTrace") {
            Command::StackTrace
        } else if str_eq(name, "scopes") {
            Command::Scopes
        } else if str_eq(name, "source") {
            Command::Source
        } else if str_eq(name, "variables") {
            Command::Variables
        } else if str_eq(name, "continue") {
            Command::Continue
        } else if str_eq(name, "next") {
            Command::Next
        } else {
            Command::Unsupported
        }
    }
}

} // verus!
