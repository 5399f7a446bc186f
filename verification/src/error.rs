//! Error type with an exit code and optional help text, and the standard exit
//! codes of the Agwaita processes.
use vstd::prelude::*;
use crate::text::{opt_text, push_signed, push_str, signed_decimal, string_of};

verus! {

/// Successful program execution.
pub const SUCCESS: i32 = 0;

/// General failure.
pub const FAILURE: i32 = 1;

/// Process terminated by SIGINT (Ctrl+C).
pub const SIGINT: i32 = 130;

/// Service-specific error.
pub const SERVICE_ERROR: i32 = 50;

/// Agwaita error: an exit code, a message, an optional help text, and the text
/// of the underlying error it was raised for, if any.
pub struct AgwError {
    pub code: i32,
    pub message: String,
    pub help: Option<String>,
    pub source: Option<String>,
}

/// The line shown when an error carries a source error.
pub open spec fn debug_line() -> Seq<char> {
    "\ndebug: Set `AGWAITA_LOG_LEVEL` to debug to view source error"@
}

/// How an error is displayed: `Error(<code>): <message>`, then `\nhelp: <help>`
/// when there is a help text, then the debug line when there is a source.
pub open spec fn rendered(code: i32, message: Seq<char>, help: Option<Seq<char>>, has_source: bool) -> Seq<
    char,
> {
    let head = "Error("@ + signed_decimal(code as int) + "): "@ + message;
    let with_help = match help {
        Some(h) => head + "\nhelp: "@ + h,
        None => head,
    };
    if has_source {
        with_help + debug_line()
    } else {
        with_help
    }
}

impl AgwError {
    /// Create a new error with code and message.
    pub fn new(code: i32, message: String) -> (e: Self)
        ensures
            e.code == code,
            e.message == message,
            e.help is None,
            e.source is None,
    {
        AgwError { code, message, help: None, source: None }
    }

    /// Create a new error with code, message, and help text.
    pub fn with_help(code: i32, message: String, help: String) -> (e: Self)
        ensures
            e.code == code,
            e.message == message,
            e.help == Some(help),
            e.source is None,
    {
        AgwError { code, message, help: Some(help), source: None }
    }

    /// Create a new error with code, message, and the text of its source error.
    pub fn with_source(code: i32, message: String, source: String) -> (e: Self)
        ensures
            e.code == code,
            e.message == message,
            e.help is None,
            e.source == Some(source),
    {
        AgwError { code, message, help: None, source: Some(source) }
    }

    /// Create a new error with code, message, help, and source.
    pub fn with_all(code: i32, message: String, help: String, source: String) -> (e: Self)
        ensures
            e.code == code,
            e.message == message,
            e.help == Some(help),
            e.source == Some(source),
    {
        AgwError { code, message, help: Some(help), source: Some(source) }
    }

    /// The text the error is displayed with.
    pub fn render(&self) -> (s: String)
        ensures
            s@ == rendered(
                self.code,
                self.message@,
                opt_text(self.help),
                self.source is Some,
            ),
    {
        let mut out: Vec<char> = Vec::new();
        push_str("Error(", &mut out);
        push_signed(self.code as i64, &mut out);
        push_str("): ", &mut out);
        push_str(self.message.as_str(), &mut out);
        match &self.help {
            Some(h) => {
                push_str("\nhelp: ", &mut out);
                push_str(h.as_str(), &mut out);
            },
            None => {},
        }
        if self.source.is_some() {
            push_str("\ndebug: Set `AGWAITA_LOG_LEVEL` to debug to view source error", &mut out);
        }
        let s = string_of(out.as_slice());
        assert(s@ =~= rendered(self.code, self.message@, opt_text(self.help), self.source is Some));
        s
    }
}

} // verus!
