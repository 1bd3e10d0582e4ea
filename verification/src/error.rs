//! Failures of template compilation: one error type carrying the failure
//! category and a human-readable message with a bounded snippet of the
//! surrounding source.

use vstd::prelude::*;
use vstd::string::*;

verus! {

/// The category of a compilation failure.
#[derive(Clone, Copy, Debug, PartialEq, Eq, Structural)]
pub enum ErrorKind {
    /// An opened delimiter, raw block or block helper without a matching close.
    UnclosedBlock,
    /// An expression with an empty body.
    EmptyExpression,
    /// A sub-expression whose parentheses do not balance.
    UnmatchedBrackets,
    /// A string literal without a closing quote.
    UnterminatedString,
    /// A token was required and the input ended instead.
    MissingToken,
    /// A token other than the one required stood in its place.
    UnexpectedToken,
    /// A block open naming no registered helper.
    UnknownBlockHelper,
    /// A block close with no matching open.
    MismatchedBlockClose,
    /// An `else` under a block whose helper has no else branch.
    ElseNotAllowed,
    /// A `../` path that walks outward past the root scope.
    ScopeNotFound,
    /// A private variable the innermost block does not supply.
    UnknownPrivateVariable,
    /// A helper called with the wrong number of arguments.
    WrongArgumentCount,
    /// A `format` whose first argument is not a string literal.
    FormatNotLiteral,
}

/// A failure of template compilation.
///
/// The `kind` is what the contracts speak of; the `message` repeats it in
/// words together with a snippet of the source around the failure.
#[derive(Debug)]
pub struct ParseError {
    pub kind: ErrorKind,
    pub message: String,
}

/// The number of trailing characters kept for error context.
pub const CAP_AT: usize = 32;

/// The last [`CAP_AT`] characters of `s`.
pub open spec fn rcap_spec(s: Seq<char>) -> Seq<char> {
    if s.len() > CAP_AT {
        s.subrange(s.len() - CAP_AT, s.len() as int)
    } else {
        s
    }
}

/// The last characters of a string, for error context.
pub fn rcap(src: &str) -> (r: &str)
    ensures
        r@ == rcap_spec(src@),
{
    let len = src.unicode_len();
    if len > CAP_AT {
        src.substring_char(len - CAP_AT, len)
    } else {
        src
    }
}

/// The message of an error built by [`ParseError::new`].
pub open spec fn message_with_context(message: Seq<char>, context: Seq<char>) -> Seq<char> {
    message + " near \""@ + context + "\""@
}

/// The message of an error built by [`ParseError::unclosed`].
pub open spec fn unclosed_message(preffix: Seq<char>) -> Seq<char> {
    "unclosed block near "@ + rcap_spec(preffix)
}

impl ParseError {
    /// A parse error of the given category, with the source context appended
    /// to its message.
    pub fn new(kind: ErrorKind, message: &str, context: &str) -> (r: Self)
        ensures
            r.kind == kind,
            r.message@ == message_with_context(message@, context@),
    {
        let mut text = String::from_str(message);
        text.append(" near \"");
        text.append(context);
        text.append("\"");
        ParseError { kind, message: text }
    }

    /// The error for an opened delimiter that never closes, keeping the tail
    /// of the text before it as context.
    pub fn unclosed(preffix: &str) -> (r: Self)
        ensures
            r.kind == ErrorKind::UnclosedBlock,
            r.message@ == unclosed_message(preffix@),
    {
        let mut text = String::from_str("unclosed block near ");
        text.append(rcap(preffix));
        ParseError { kind: ErrorKind::UnclosedBlock, message: text }
    }

    /// The message as text, for callers that report the failure.
    pub fn to_string(&self) -> (r: String)
        ensures
            r@ == self.message@,
    {
        let r = String::from_str(self.message.as_str());
        r
    }
}

/// The outcome of a step of template compilation.
pub type ParseResult<T> = Result<T, ParseError>;

} // verus!
