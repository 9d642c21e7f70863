//! The error that the analyses report.
use vstd::prelude::*;
use vstd::string::StringExecFns;

verus! {

/// What went wrong.
#[derive(Debug, Clone, Copy, PartialEq, Eq, Structural)]
pub enum ParseErrorKind {
    InvalidSymbol,
    UnexpectedEOF,
    NoMatches,
    ConversionError,
    UnknownCharacter(char),
}

/// The text that the standard library writes for `c` in its debug form:
/// the character between single quotes, escaped where it is not printable.
pub uninterp spec fn char_debug(c: char) -> Seq<char>;

/// Formats `c` with the standard library's `Debug` for `char`; the contract
/// names the text and claims nothing else of it.
#[verifier::external_body]
fn debug_char(c: char) -> (s: String)
    ensures
        s@ == char_debug(c),
{
    format!("{:?}", c)
}

impl ParseErrorKind {
    /// The name of the kind, as it is shown.
    pub open spec fn label(self) -> Seq<char> {
        match self {
            ParseErrorKind::InvalidSymbol => "InvalidSymbol"@,
            ParseErrorKind::UnexpectedEOF => "UnexpectedEOF"@,
            ParseErrorKind::NoMatches => "NoMatches"@,
            ParseErrorKind::ConversionError => "ConversionError"@,
            ParseErrorKind::UnknownCharacter(c) => "UnknownCharacter("@ + char_debug(c) + ")"@,
        }
    }

    /// The kind as text.
    pub fn to_string(&self) -> (s: String)
        ensures
            s@ == self.label(),
    {
        match self {
            ParseErrorKind::InvalidSymbol => "InvalidSymbol".to_owned(),
            ParseErrorKind::UnexpectedEOF => "UnexpectedEOF".to_owned(),
            ParseErrorKind::NoMatches => "NoMatches".to_owned(),
            ParseErrorKind::ConversionError => "ConversionError".to_owned(),
            ParseErrorKind::UnknownCharacter(c) => {
                let mut s: String = "UnknownCharacter(".to_owned();
                let shown: String = debug_char(*c);
                s.append(shown.as_str());
                s.append(")");
                s
            },
        }
    }
}

/// An error of an analysis: its kind, and where they are known a message,
/// the offset in the text at which it arose, and a description of what
/// caused it.
#[derive(Debug, PartialEq, Eq)]
pub struct ParseError {
    pub kind: ParseErrorKind,
    pub msg: Option<String>,
    pub index: Option<usize>,
    pub source: Option<String>,
}

/// What an analysis returns: a value, or the error that kept it from one.
pub type ParseResult<T> = Result<T, ParseError>;

/// An error, mathematically.
pub struct ParseErrorView {
    pub kind: ParseErrorKind,
    pub msg: Option<Seq<char>>,
    pub index: Option<usize>,
    pub source: Option<Seq<char>>,
}

impl ParseErrorView {
    /// The error of the given kind with nothing else known.
    pub open spec fn kind(kind: ParseErrorKind) -> ParseErrorView {
        ParseErrorView { kind, msg: None, index: None, source: None }
    }

    pub open spec fn msg(self, msg: Seq<char>) -> ParseErrorView {
        ParseErrorView { msg: Some(msg), ..self }
    }

    pub open spec fn source(self, source: Seq<char>) -> ParseErrorView {
        ParseErrorView { source: Some(source), ..self }
    }

    pub open spec fn index(self, index: usize) -> ParseErrorView {
        ParseErrorView { index: Some(index), ..self }
    }
}

impl View for ParseError {
    type V = ParseErrorView;

    open spec fn view(&self) -> ParseErrorView {
        ParseErrorView {
            kind: self.kind,
            msg: match self.msg {
                Some(msg) => Some(msg@),
                None => None,
            },
            index: self.index,
            source: match self.source {
                Some(source) => Some(source@),
                None => None,
            },
        }
    }
}

impl ParseError {
    /// An error of the given kind with nothing else known.
    pub fn kind(kind: ParseErrorKind) -> (e: ParseError)
        ensures
            e.kind == kind,
            e.msg is None,
            e.index is None,
            e.source is None,
            e@ == ParseErrorView::kind(kind),
    {
        ParseError { kind, msg: None, index: None, source: None }
    }

    /// The same error with `msg` as its message.
    pub fn msg(self, msg: String) -> (e: ParseError)
        ensures
            e == (ParseError { msg: Some(msg), ..self }),
            e@ == self@.msg(msg@),
    {
        let mut e = self;
        e.msg = Some(msg);
        e
    }

    /// The same error with `source` as the description of its cause.
    pub fn source(self, source: String) -> (e: ParseError)
        ensures
            e == (ParseError { source: Some(source), ..self }),
            e@ == self@.source(source@),
    {
        let mut e = self;
        e.source = Some(source);
        e
    }

    /// The same error with `index` as the offset at which it arose.
    pub fn index(self, index: usize) -> (e: ParseError)
        ensures
            e == (ParseError { index: Some(index), ..self }),
            e@ == self@.index(index),
    {
        let mut e = self;
        e.index = Some(index);
        e
    }

    /// The error as it is shown: `Error: ` and the kind, then, where there is
    /// a message, `, Message: ` and the message.
    pub open spec fn shown(self) -> Seq<char> {
        match self.msg {
            Some(msg) => "Error: "@ + self.kind.label() + ", Message: "@ + msg@,
            None => "Error: "@ + self.kind.label(),
        }
    }

    /// The error as text.
    pub fn to_string(&self) -> (s: String)
        ensures
            s@ == self.shown(),
    {
        let mut s: String = "Error: ".to_owned();
        let kind: String = self.kind.to_string();
        s.append(kind.as_str());
        match &self.msg {
            Some(msg) => {
                s.append(", Message: ");
                s.append(msg.as_str());
            },
            None => {},
        }
        s
    }
}

} // verus!
