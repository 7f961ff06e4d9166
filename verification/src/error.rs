//! One error type across config parsing, planning, the lifecycle state machine,
//! and the Linux runtime.
use vstd::prelude::*;

verus! {

/// What went wrong, and in which part of the runtime.
#[derive(Debug, Clone, PartialEq)]
pub enum Error {
    Config(String),
    Plan(String),
    State(String),
    Runtime(String),
    Unsupported(String),
}

/// The meaning of an [`Error`]: its kind and the characters of its message.
pub enum ErrorView {
    Config(Seq<char>),
    Plan(Seq<char>),
    State(Seq<char>),
    Runtime(Seq<char>),
    Unsupported(Seq<char>),
}

impl View for Error {
    type V = ErrorView;

    open spec fn view(&self) -> ErrorView {
        match self {
            Error::Config(m) => ErrorView::Config(m@),
            Error::Plan(m) => ErrorView::Plan(m@),
            Error::State(m) => ErrorView::State(m@),
            Error::Runtime(m) => ErrorView::Runtime(m@),
            Error::Unsupported(m) => ErrorView::Unsupported(m@),
        }
    }
}

/// What the user reads: the kind of the error, then its message.
pub open spec fn error_text(e: ErrorView) -> Seq<char> {
    match e {
        ErrorView::Config(m) => "config error: "@ + m,
        ErrorView::Plan(m) => "plan error: "@ + m,
        ErrorView::State(m) => "state error: "@ + m,
        ErrorView::Runtime(m) => "runtime error: "@ + m,
        ErrorView::Unsupported(m) => "unsupported: "@ + m,
    }
}

impl Error {
    /// A copy of the error.
    pub fn copy(&self) -> (r: Error)
        ensures
            r@ == self@,
    {
        match self {
            Error::Config(m) => Error::Config(m.clone()),
            Error::Plan(m) => Error::Plan(m.clone()),
            Error::State(m) => Error::State(m.clone()),
            Error::Runtime(m) => Error::Runtime(m.clone()),
            Error::Unsupported(m) => Error::Unsupported(m.clone()),
        }
    }

    /// The message shown to the user.
    pub fn to_string(&self) -> (r: String)
        ensures
            r@ == error_text(self@),
    {
        let (kind, message) = match self {
            Error::Config(m) => ("config error: ", m),
            Error::Plan(m) => ("plan error: ", m),
            Error::State(m) => ("state error: ", m),
            Error::Runtime(m) => ("runtime error: ", m),
            Error::Unsupported(m) => ("unsupported: ", m),
        };
        let mut out = String::new();
        out.append(kind);
        out.append(message.as_str());
        out
    }
}

pub type Result<T> = std::result::Result<T, Error>;

/// The meaning of a result: that of the value, or that of the error.
pub open spec fn meaning<T: View>(r: Result<T>) -> std::result::Result<T::V, ErrorView> {
    match r {
        Ok(v) => Ok(v@),
        Err(e) => Err(e@),
    }
}

/// The runtime error for a failed operation: what was attempted, then the
/// reason the system gave.
pub open spec fn runtime_error(ctx: Seq<char>, reason: Seq<char>) -> ErrorView {
    ErrorView::Runtime(ctx + ": "@ + reason)
}

/// Turns the failure of a system operation into a runtime error.
pub fn rt(ctx: &str, reason: &str) -> (r: Error)
    ensures
        r@ == runtime_error(ctx@, reason@),
{
    let mut message = String::new();
    message.append(ctx);
    message.append(": ");
    message.append(reason);
    assert(message@ =~= ctx@ + ": "@ + reason@);
    Error::Runtime(message)
}

} // verus!
