use vstd::prelude::*;
use vstd::std_specs::convert::FromSpecImpl;
use crate::ops::Type;
use crate::text::IntegerFault;
use crate::types::{ParserDescriptor, ParserDescriptorView, Token, TokenView};

verus! {

/// Why a source text could not be turned into tokens.
#[derive(Debug, PartialEq, Eq)]
pub enum TokenizeError {
    /// A character that starts no token, with the line it stands on.
    UnknownToken { c: char, linenum: u32, filename: String },
    /// A numeric literal that is no number, or one too large for 64 bits,
    /// with the kind of the fault.
    InvalidInteger(IntegerFault),
}

/// The mathematical value of a [`TokenizeError`].
pub enum TokenizeErrorView {
    UnknownToken { c: char, linenum: u32, filename: Seq<char> },
    InvalidInteger(IntegerFault),
}

impl View for TokenizeError {
    type V = TokenizeErrorView;

    open spec fn view(&self) -> TokenizeErrorView {
        match self {
            TokenizeError::UnknownToken { c, linenum, filename } => TokenizeErrorView::UnknownToken {
                c: *c,
                linenum: *linenum,
                filename: filename@,
            },
            TokenizeError::InvalidInteger(fault) => TokenizeErrorView::InvalidInteger(*fault),
        }
    }
}

/// Why a token sequence could not be turned into a program. Each error that
/// a token caused carries that token's line and the name of the file.
#[derive(Debug, PartialEq, Eq)]
pub enum ParseError {
    /// A declaration without `=`, or a token that starts no expression.
    UnassignedVariable { linenum: u32, filename: String },
    /// Another token than the one that the grammar asks for.
    UnexpectedToken { expected: ParserDescriptor, received: Token, linenum: u32, filename: String },
    /// A parameter whose type is none of `int`, `str`, `mlstr`, `bool`.
    UnexpectedType { expected: Type, received: Type, linenum: u32, filename: String },
    /// The tokens ended where the grammar asks for one more.
    AbsentToken { expected: ParserDescriptor },
    /// A `:` after a parameter list that no return type follows.
    AbsentReturnType { fnname: String, linenum: u32, filename: String },
    /// An error of the tokenizer, passed on.
    TokenizeError(TokenizeError),
    /// No error that the parser reports: `Parser::parse` never returns it.
    Unknown,
}

/// The mathematical value of a [`ParseError`].
pub enum ParseErrorView {
    UnassignedVariable { linenum: u32, filename: Seq<char> },
    UnexpectedToken {
        expected: ParserDescriptorView,
        received: TokenView,
        linenum: u32,
        filename: Seq<char>,
    },
    UnexpectedType { expected: Type, received: Type, linenum: u32, filename: Seq<char> },
    AbsentToken { expected: ParserDescriptorView },
    AbsentReturnType { fnname: Seq<char>, linenum: u32, filename: Seq<char> },
    TokenizeError(TokenizeErrorView),
    Unknown,
}

impl View for ParseError {
    type V = ParseErrorView;

    open spec fn view(&self) -> ParseErrorView {
        match self {
            ParseError::UnassignedVariable { linenum, filename } => {
                ParseErrorView::UnassignedVariable { linenum: *linenum, filename: filename@ }
            },
            ParseError::UnexpectedToken { expected, received, linenum, filename } => {
                ParseErrorView::UnexpectedToken {
                    expected: expected@,
                    received: received@,
                    linenum: *linenum,
                    filename: filename@,
                }
            },
            ParseError::UnexpectedType { expected, received, linenum, filename } => {
                ParseErrorView::UnexpectedType {
                    expected: *expected,
                    received: *received,
                    linenum: *linenum,
                    filename: filename@,
                }
            },
            ParseError::AbsentToken { expected } => ParseErrorView::AbsentToken {
                expected: expected@,
            },
            ParseError::AbsentReturnType { fnname, linenum, filename } => {
                ParseErrorView::AbsentReturnType {
                    fnname: fnname@,
                    linenum: *linenum,
                    filename: filename@,
                }
            },
            ParseError::TokenizeError(e) => ParseErrorView::TokenizeError(e@),
            ParseError::Unknown => ParseErrorView::Unknown,
        }
    }
}

impl From<TokenizeError> for ParseError {
    fn from(e: TokenizeError) -> (res: ParseError) {
        ParseError::TokenizeError(e)
    }
}

impl FromSpecImpl<TokenizeError> for ParseError {
    open spec fn obeys_from_spec() -> bool {
        true
    }

    open spec fn from_spec(e: TokenizeError) -> ParseError {
        ParseError::TokenizeError(e)
    }
}

} // verus!
