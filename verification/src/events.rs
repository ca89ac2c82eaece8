//! The event and error model of the trace printer.

use vstd::prelude::*;

verus! {

/// One attribute of a tag: its key and the value text that the trace shows.
///
/// For a start tag the value is the unescaped form of what stood in the
/// document; for a self-closing tag it is the raw text, escapes kept.
#[derive(Debug, Clone, PartialEq, Eq)]
pub struct Attr {
    pub key: String,
    pub value: String,
}

/// One decoded unit of structure from a streaming XML parse.
///
/// Events are consumed exactly once, in document order.  `Other` stands for
/// any event the printer does not render specially (text, comments, CDATA,
/// processing instructions, doctypes); it carries the generic rendering that
/// the trace shows for it.  `EndOfInput` closes the stream.
#[derive(Debug, Clone, PartialEq, Eq)]
pub enum ParseEvent {
    Declaration { version: String, encoding: String },
    StartTag { name: String, attrs: Vec<Attr> },
    EndTag { name: String },
    EmptyTag { name: String, attrs: Vec<Attr> },
    Other { text: String },
    EndOfInput,
}

/// Why a print pass stopped early.
///
/// `ParseFailed` carries the parser's own account of malformed structure;
/// `DecodeFailed` carries the account of a field that could not be decoded
/// (a declaration without a version, a malformed attribute or escape);
/// `UnbalancedEnd` reports an end tag with no open element, which the trace
/// cannot indent.  No error is recovered: the trace gathered so far stands
/// as partial output.
#[derive(Debug, Clone, PartialEq, Eq)]
pub enum TraceError {
    ParseFailed { message: String },
    DecodeFailed { message: String },
    UnbalancedEnd,
}

impl TraceError {
    /// The text shown for this error: the carried account for a parse or
    /// decode failure, a fixed line for an unbalanced end tag.
    pub fn message(&self) -> (r: String)
        ensures
            self matches TraceError::ParseFailed { message } ==> r@ == message@,
            self matches TraceError::DecodeFailed { message } ==> r@ == message@,
            self is UnbalancedEnd ==> r@ == "end tag with no open element"@,
    {
        match self {
            TraceError::ParseFailed { message } => message.clone(),
            TraceError::DecodeFailed { message } => message.clone(),
            TraceError::UnbalancedEnd => String::from_str("end tag with no open element"),
        }
    }
}

} // verus!
