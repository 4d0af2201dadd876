//! Requests to the scripting host and to the supervisor of the components.

use vstd::prelude::*;

verus! {

/// A request that only checks that a component is handling its inbox.
/// No reply.
pub struct Ping;

/// A request to the scripting host to wait until every component it
/// started is handling its inbox. No reply.
pub struct WaitStartup;

/// A request to the supervisor for a handle to the scripting host.
pub struct GetActorLuaVM;

/// A request to run a chunk of script code. The reply is success or the
/// error the script raised.
pub struct ExecChunk(pub String);

impl From<String> for ExecChunk {
    fn from(value: String) -> ExecChunk {
        ExecChunk(value)
    }
}

impl vstd::std_specs::convert::FromSpecImpl<String> for ExecChunk {
    open spec fn obeys_from_spec() -> bool {
        true
    }

    open spec fn from_spec(v: String) -> ExecChunk {
        ExecChunk(v)
    }
}

/// A request to evaluate a script expression. The reply is its value or
/// the error the script raised.
pub struct EvalChunk(pub String);

impl From<String> for EvalChunk {
    fn from(value: String) -> EvalChunk {
        EvalChunk(value)
    }
}

impl vstd::std_specs::convert::FromSpecImpl<String> for EvalChunk {
    open spec fn obeys_from_spec() -> bool {
        true
    }

    open spec fn from_spec(v: String) -> EvalChunk {
        EvalChunk(v)
    }
}

/// A warning for the scripting host's diagnostic channel. No reply.
pub enum SendWarning {
    /// The warning text is complete: deliver it with anything buffered.
    Complete(String),
    /// Buffer the text until a complete warning follows.
    Incomplete(String),
}

impl SendWarning {
    /// The text of the warning.
    pub fn text(&self) -> (r: &String)
        ensures
            *r == match *self {
                SendWarning::Complete(t) => t,
                SendWarning::Incomplete(t) => t,
            },
    {
        match self {
            SendWarning::Complete(t) => t,
            SendWarning::Incomplete(t) => t,
        }
    }

    /// Whether the text must be buffered until a complete warning follows.
    pub fn is_incomplete(&self) -> (r: bool)
        ensures
            r == (*self is Incomplete),
    {
        match self {
            SendWarning::Complete(_) => false,
            SendWarning::Incomplete(_) => true,
        }
    }
}

} // verus!
