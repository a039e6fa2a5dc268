//! The one error type of the library.

use vstd::prelude::*;

verus! {

/// The text that `std` writes for a string slice when it is asked for its
/// `Debug` form: the characters between quotation marks, with escapes.
pub uninterp spec fn debug_quoted(text: Seq<char>) -> Seq<char>;

/// The `Debug` form of a string slice, as `std` writes it with `{:?}`.
/// Claimed: the text depends on the characters alone; `debug_quoted` names
/// it.
#[verifier::external_body]
pub(crate) fn quote_debug(text: &str) -> (quoted: String)
    ensures
        quoted@ == debug_quoted(text@),
{
    format!("{:?}", text)
}

/// What lies behind an error: the message of the failure that was met, and
/// the text of its `Debug` form.
#[derive(Debug, Clone, PartialEq, Eq)]
pub struct Cause {
    pub message: String,
    pub debug: String,
}

/// The `Debug` text of a failure that the library itself has found, with
/// the given message: the form in which `serde_json` writes an error that
/// has no place in a text.
pub open spec fn own_debug(message: Seq<char>) -> Seq<char> {
    "Error("@ + debug_quoted(message) + ", line: 0, column: 0)"@
}

impl Cause {
    /// The cause of a failure that the library itself has found.
    pub fn of_message(message: String) -> (cause: Cause)
        ensures
            cause.message@ == message@,
            cause.debug@ == own_debug(message@),
    {
        let mut debug = String::from_str("Error(");
        let quoted = quote_debug(message.as_str());
        debug.append(quoted.as_str());
        debug.append(", line: 0, column: 0)");
        Cause { message, debug }
    }
}

/// What went wrong.
#[derive(Debug, Clone, PartialEq, Eq)]
pub enum ErrorKind {
    /// The request did not get through, or the answer did not arrive.
    IO(Cause),
    /// A text was not the JSON that was expected. The second field holds the
    /// text that was offered, or nothing where it is not at hand.
    Parse(Cause, String),
    /// A failure handed on from a handler or from the connection.
    Custom(Cause),
}

/// An error of a request, of decoding, or of a handler.
#[derive(Debug, Clone, PartialEq, Eq)]
pub struct Error(pub ErrorKind);

impl Error {
    /// Whether this is a transport failure.
    pub open spec fn is_io(&self) -> bool {
        self.0 is IO
    }

    /// Whether this is a decoding failure.
    pub open spec fn is_parse(&self) -> bool {
        self.0 is Parse
    }

    /// Whether this is a failure handed on from elsewhere.
    pub open spec fn is_custom(&self) -> bool {
        self.0 is Custom
    }

    /// What lies behind the error.
    pub open spec fn cause(&self) -> Cause {
        match self.0 {
            ErrorKind::IO(cause) => cause,
            ErrorKind::Parse(cause, _) => cause,
            ErrorKind::Custom(cause) => cause,
        }
    }

    /// The message of the error.
    pub open spec fn message(&self) -> Seq<char> {
        self.cause().message@
    }

    /// The text that a decoding failure was about; empty for the other kinds.
    pub open spec fn content(&self) -> Seq<char> {
        match self.0 {
            ErrorKind::Parse(_, content) => content@,
            _ => Seq::empty(),
        }
    }

    /// A transport failure.
    pub fn io(cause: Cause) -> (e: Error)
        ensures
            e.is_io(),
            e.cause() == cause,
    {
        Error(ErrorKind::IO(cause))
    }

    /// A decoding failure: `cause` says what was wrong with `content`.
    pub fn parse_error(cause: Cause, content: &str) -> (e: Error)
        ensures
            e.is_parse(),
            e.cause() == cause,
            e.content() == content@,
    {
        Error(ErrorKind::Parse(cause, String::from_str(content)))
    }

    /// A failure handed on from a handler or from the connection.
    pub fn custom(cause: Cause) -> (e: Error)
        ensures
            e.is_custom(),
            e.cause() == cause,
    {
        Error(ErrorKind::Custom(cause))
    }

    /// The line that `describe` gives: the kind in its `Debug` form between
    /// round brackets, that is, the name of the kind and in brackets the
    /// `Debug` text of the cause, for a decoding failure followed by a comma
    /// and the offending text in its `Debug` form.
    pub open spec fn description(&self) -> Seq<char> {
        match self.0 {
            ErrorKind::IO(cause) => "(IO("@ + cause.debug@ + "))"@,
            ErrorKind::Parse(cause, content) => "(Parse("@ + cause.debug@ + ", "@ + debug_quoted(
                content@,
            ) + "))"@,
            ErrorKind::Custom(cause) => "(Custom("@ + cause.debug@ + "))"@,
        }
    }

    /// The error as one line of text, for a log or for a message: its kind
    /// in its `Debug` form between round brackets.
    pub fn describe(&self) -> (line: String)
        ensures
            line@ == self.description(),
    {
        let mut line = String::from_str("(");
        match &self.0 {
            ErrorKind::IO(cause) => {
                line.append("IO(");
                line.append(cause.debug.as_str());
            },
            ErrorKind::Parse(cause, content) => {
                line.append("Parse(");
                line.append(cause.debug.as_str());
                line.append(", ");
                let quoted = quote_debug(content.as_str());
                line.append(quoted.as_str());
            },
            ErrorKind::Custom(cause) => {
                line.append("Custom(");
                line.append(cause.debug.as_str());
            },
        }
        line.append("))");
        proof {
            reveal_strlit("(");
            reveal_strlit("IO(");
            reveal_strlit("Parse(");
            reveal_strlit("Custom(");
            reveal_strlit("(IO(");
            reveal_strlit("(Parse(");
            reveal_strlit("(Custom(");
        }
        assert(line@ =~= self.description());
        line
    }
}

} // verus!
