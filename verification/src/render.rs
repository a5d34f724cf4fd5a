use vstd::prelude::*;
use vstd::string::StringExecFns;
use crate::errors::{ParseError, ParseErrorView, TokenizeError, TokenizeErrorView};
use crate::ops::Type;
use crate::text::{
    debug_char, debug_char_text, debug_quote, debug_text, decimal, decimal_text,
};
use crate::types::{
    Keyword, ParserDescriptor, ParserDescriptorView, Token, TokenView, Value, ValueView,
};

verus! {

/// The name of a keyword, as an error message writes it.
pub open spec fn keyword_name(v: Keyword) -> Seq<char> {
    match v {
        Keyword::Int => "Int"@,
        Keyword::Async => "Async"@,
        Keyword::String => "String"@,
        Keyword::Void => "Void"@,
        Keyword::True => "True"@,
        Keyword::False => "False"@,
        Keyword::MLstr => "MLstr"@,
        Keyword::Let => "Let"@,
        Keyword::Func => "Func"@,
        Keyword::Bool => "Bool"@,
        Keyword::Return => "Return"@,
        Keyword::If => "If"@,
        Keyword::Else => "Else"@,
        Keyword::While => "While"@,
        Keyword::Use => "Use"@,
        Keyword::Pub => "Pub"@,
        Keyword::Const => "Const"@,
        Keyword::For => "For"@,
    }
}

/// The name of a return type, as an error message writes it.
pub open spec fn return_type_name(v: Type) -> Seq<char> {
    match v {
        Type::Bool => "Bool"@,
        Type::Str => "Str"@,
        Type::Void => "Void"@,
        Type::Int => "Int"@,
        Type::Mlstr => "Mlstr"@,
        Type::Char => "Char"@,
    }
}

/// A literal payload, as an error message writes it.
pub open spec fn value_text(v: ValueView) -> Seq<char> {
    match v {
        ValueView::Int(n) => "Int("@ + decimal(n as nat) + ")"@,
        ValueView::Char(s) => "Char("@ + debug_text(s) + ")"@,
        ValueView::MLStr(s) => "MLStr("@ + debug_text(s) + ")"@,
    }
}

/// A token, as an error message writes it: the name of its kind, with the
/// payload in parentheses where it has one.
pub open spec fn token_text(t: TokenView) -> Seq<char> {
    match t {
        TokenView::Keyword(k) => "Keyword("@ + keyword_name(k) + ")"@,
        TokenView::Identifier(s) => "Identifier("@ + debug_text(s) + ")"@,
        TokenView::Literal(v) => "Literal("@ + value_text(v) + ")"@,
        TokenView::OpenBrace => "OpenBrace"@,
        TokenView::CloseBrace => "CloseBrace"@,
        TokenView::OpenParen => "OpenParen"@,
        TokenView::CloseParen => "CloseParen"@,
        TokenView::OpenSquareParen => "OpenSquareParen"@,
        TokenView::CloseSquareParen => "CloseSquareParen"@,
        TokenView::BitComp => "BitComp"@,
        TokenView::LogicalNeg => "LogicalNeg"@,
        TokenView::Negation => "Negation"@,
        TokenView::Addition => "Addition"@,
        TokenView::Multiplication => "Multiplication"@,
        TokenView::Division => "Division"@,
        TokenView::Modulus => "Modulus"@,
        TokenView::Dot => "Dot"@,
        TokenView::And => "And"@,
        TokenView::Or => "Or"@,
        TokenView::Equal => "Equal"@,
        TokenView::NotEqual => "NotEqual"@,
        TokenView::LessThan => "LessThan"@,
        TokenView::LessThanOrEqual => "LessThanOrEqual"@,
        TokenView::GreaterThan => "GreaterThan"@,
        TokenView::GreaterThanOrEqual => "GreaterThanOrEqual"@,
        TokenView::BitwiseLeft => "BitwiseLeft"@,
        TokenView::BitwiseRight => "BitwiseRight"@,
        TokenView::BitwiseAnd => "BitwiseAnd"@,
        TokenView::BitwiseXor => "BitwiseXor"@,
        TokenView::BitwiseOr => "BitwiseOr"@,
        TokenView::Assign => "Assign"@,
        TokenView::Comma => "Comma"@,
        TokenView::AsignFunc => "AsignFunc"@,
        TokenView::AssignAdd => "AssignAdd"@,
        TokenView::AssignSub => "AssignSub"@,
        TokenView::AssignDiv => "AssignDiv"@,
        TokenView::AssignMul => "AssignMul"@,
        TokenView::AssignMod => "AssignMod"@,
        TokenView::AssignBitLeft => "AssignBitLeft"@,
        TokenView::AssignBitRight => "AssignBitRight"@,
        TokenView::AssignAnd => "AssignAnd"@,
        TokenView::AssignOr => "AssignOr"@,
        TokenView::AssignXor => "AssignXor"@,
        TokenView::HashTag => "HashTag"@,
        TokenView::Increment => "Increment"@,
        TokenView::Decrement => "Decrement"@,
        TokenView::Colon => "Colon"@,
        TokenView::DoubleColon => "DoubleColon"@,
        TokenView::Dollar => "Dollar"@,
        TokenView::Question => "Question"@,
    }
}

/// What the parser looked for, as an error message writes it.
pub open spec fn descriptor_text(d: ParserDescriptorView) -> Seq<char> {
    match d {
        ParserDescriptorView::AnyIdentifier => "AnyIdentifier"@,
        ParserDescriptorView::AnyVariable => "AnyVariable"@,
        ParserDescriptorView::Token(t) => "Token("@ + token_text(t) + ")"@,
        ParserDescriptorView::Newline => "Newline"@,
        ParserDescriptorView::NoToken => "NoToken"@,
    }
}

/// The message of an error of the tokenizer.
pub open spec fn tokenize_error_text(e: TokenizeErrorView) -> Seq<char> {
    match e {
        TokenizeErrorView::UnknownToken { c, linenum, filename } => "invalid token "@
            + debug_char_text(c) + ", in line "@ + decimal(linenum as nat),
        TokenizeErrorView::InvalidInteger(_) => "invalid integer "@,
    }
}

/// The place of an error in a message: the file and the line.
pub open spec fn place_text(filename: Seq<char>, linenum: u32) -> Seq<char> {
    filename + ":"@ + decimal(linenum as nat)
}

/// The message of an error of the parser.
pub open spec fn parse_error_text(e: ParseErrorView) -> Seq<char> {
    match e {
        ParseErrorView::UnassignedVariable { linenum, filename } => "unassigned variable, in "@
            + place_text(filename, linenum),
        ParseErrorView::UnexpectedToken { expected, received, linenum, filename } => "expected "@
            + descriptor_text(expected) + " got "@ + token_text(received) + ": in "@ + place_text(
            filename,
            linenum,
        ),
        ParseErrorView::UnexpectedType { expected, received, linenum, filename } => "expected "@
            + return_type_name(expected) + " got "@ + return_type_name(received) + " "@ + place_text(
            filename,
            linenum,
        ),
        ParseErrorView::AbsentToken { expected } => "expected "@ + descriptor_text(expected)
            + " to be present"@,
        ParseErrorView::AbsentReturnType { fnname, linenum, filename } => {
            "expected return type to be present in function: "@ + debug_text(fnname)
                + ", File: "@ + place_text(filename, linenum)
        },
        ParseErrorView::TokenizeError(_) => "error tokenizing"@,
        ParseErrorView::Unknown => "unknown error"@,
    }
}

/// The name of a keyword, as an error message writes it.
pub fn keyword_to_string(v: Keyword) -> (text: String)
    ensures
        text@ == keyword_name(v),
{
    match v {
        Keyword::Int => String::from_str("Int"),
        Keyword::Async => String::from_str("Async"),
        Keyword::String => String::from_str("String"),
        Keyword::Void => String::from_str("Void"),
        Keyword::True => String::from_str("True"),
        Keyword::False => String::from_str("False"),
        Keyword::MLstr => String::from_str("MLstr"),
        Keyword::Let => String::from_str("Let"),
        Keyword::Func => String::from_str("Func"),
        Keyword::Bool => String::from_str("Bool"),
        Keyword::Return => String::from_str("Return"),
        Keyword::If => String::from_str("If"),
        Keyword::Else => String::from_str("Else"),
        Keyword::While => String::from_str("While"),
        Keyword::Use => String::from_str("Use"),
        Keyword::Pub => String::from_str("Pub"),
        Keyword::Const => String::from_str("Const"),
        Keyword::For => String::from_str("For"),
    }
}

/// The name of a return type, as an error message writes it.
pub fn type_to_string(v: Type) -> (text: String)
    ensures
        text@ == return_type_name(v),
{
    match v {
        Type::Bool => String::from_str("Bool"),
        Type::Str => String::from_str("Str"),
        Type::Void => String::from_str("Void"),
        Type::Int => String::from_str("Int"),
        Type::Mlstr => String::from_str("Mlstr"),
        Type::Char => String::from_str("Char"),
    }
}

/// `head`, `inner` and a closing parenthesis.
fn wrapped(head: &str, inner: &str) -> (text: String)
    ensures
        text@ == head@ + inner@ + ")"@,
{
    let mut text = String::from_str(head);
    text.append(inner);
    text.append(")");
    text
}

/// The place of an error in a message: the file and the line.
fn place(filename: &str, linenum: u32) -> (text: String)
    ensures
        text@ == place_text(filename@, linenum),
{
    let mut text = String::from_str(filename);
    text.append(":");
    text.append(decimal_text(linenum as u64).as_str());
    text
}

impl Value {
    /// The payload, as an error message writes it.
    pub fn to_text(&self) -> (text: String)
        ensures
            text@ == value_text(self@),
    {
        match self {
            Value::Int(n) => wrapped("Int(", decimal_text(*n).as_str()),
            Value::Char(s) => wrapped("Char(", debug_quote(s.as_str()).as_str()),
            Value::MLStr(s) => wrapped("MLStr(", debug_quote(s.as_str()).as_str()),
        }
    }
}

impl Token {
    /// The token, as an error message writes it.
    pub fn to_text(&self) -> (text: String)
        ensures
            text@ == token_text(self@),
    {
        match self {
            Token::Keyword(k) => wrapped("Keyword(", keyword_to_string(*k).as_str()),
            Token::Identifier(s) => wrapped("Identifier(", debug_quote(s.as_str()).as_str()),
            Token::Literal(v) => wrapped("Literal(", v.to_text().as_str()),
            Token::OpenBrace => String::from_str("OpenBrace"),
            Token::CloseBrace => String::from_str("CloseBrace"),
            Token::OpenParen => String::from_str("OpenParen"),
            Token::CloseParen => String::from_str("CloseParen"),
            Token::OpenSquareParen => String::from_str("OpenSquareParen"),
            Token::CloseSquareParen => String::from_str("CloseSquareParen"),
            Token::BitComp => String::from_str("BitComp"),
            Token::LogicalNeg => String::from_str("LogicalNeg"),
            Token::Negation => String::from_str("Negation"),
            Token::Addition => String::from_str("Addition"),
            Token::Multiplication => String::from_str("Multiplication"),
            Token::Division => String::from_str("Division"),
            Token::Modulus => String::from_str("Modulus"),
            Token::Dot => String::from_str("Dot"),
            Token::And => String::from_str("And"),
            Token::Or => String::from_str("Or"),
            Token::Equal => String::from_str("Equal"),
            Token::NotEqual => String::from_str("NotEqual"),
            Token::LessThan => String::from_str("LessThan"),
            Token::LessThanOrEqual => String::from_str("LessThanOrEqual"),
            Token::GreaterThan => String::from_str("GreaterThan"),
            Token::GreaterThanOrEqual => String::from_str("GreaterThanOrEqual"),
            Token::BitwiseLeft => String::from_str("BitwiseLeft"),
            Token::BitwiseRight => String::from_str("BitwiseRight"),
            Token::BitwiseAnd => String::from_str("BitwiseAnd"),
            Token::BitwiseXor => String::from_str("BitwiseXor"),
            Token::BitwiseOr => String::from_str("BitwiseOr"),
            Token::Assign => String::from_str("Assign"),
            Token::Comma => String::from_str("Comma"),
            Token::AsignFunc => String::from_str("AsignFunc"),
            Token::AssignAdd => String::from_str("AssignAdd"),
            Token::AssignSub => String::from_str("AssignSub"),
            Token::AssignDiv => String::from_str("AssignDiv"),
            Token::AssignMul => String::from_str("AssignMul"),
            Token::AssignMod => String::from_str("AssignMod"),
            Token::AssignBitLeft => String::from_str("AssignBitLeft"),
            Token::AssignBitRight => String::from_str("AssignBitRight"),
            Token::AssignAnd => String::from_str("AssignAnd"),
            Token::AssignOr => String::from_str("AssignOr"),
            Token::AssignXor => String::from_str("AssignXor"),
            Token::HashTag => String::from_str("HashTag"),
            Token::Increment => String::from_str("Increment"),
            Token::Decrement => String::from_str("Decrement"),
            Token::Colon => String::from_str("Colon"),
            Token::DoubleColon => String::from_str("DoubleColon"),
            Token::Dollar => String::from_str("Dollar"),
            Token::Question => String::from_str("Question"),
        }
    }
}

impl ParserDescriptor {
    /// The descriptor, as an error message writes it.
    pub fn to_text(&self) -> (text: String)
        ensures
            text@ == descriptor_text(self@),
    {
        match self {
            ParserDescriptor::AnyIdentifier => String::from_str("AnyIdentifier"),
            ParserDescriptor::AnyVariable => String::from_str("AnyVariable"),
            ParserDescriptor::Token(t) => wrapped("Token(", t.to_text().as_str()),
            ParserDescriptor::Newline => String::from_str("Newline"),
            ParserDescriptor::NoToken => String::from_str("NoToken"),
        }
    }
}

impl TokenizeError {
    /// The message of the error, for a terminal.
    pub fn message(&self) -> (text: String)
        ensures
            text@ == tokenize_error_text(self@),
    {
        match self {
            TokenizeError::UnknownToken { c, linenum, filename } => {
                let mut text = String::from_str("invalid token ");
                text.append(debug_char(*c).as_str());
                text.append(", in line ");
                text.append(decimal_text(*linenum as u64).as_str());
                text
            },
            TokenizeError::InvalidInteger(_) => String::from_str("invalid integer "),
        }
    }
}

impl ParseError {
    /// The message of the error, for a terminal.
    pub fn message(&self) -> (text: String)
        ensures
            text@ == parse_error_text(self@),
    {
        match self {
            ParseError::UnassignedVariable { linenum, filename } => {
                let mut text = String::from_str("unassigned variable, in ");
                text.append(place(filename.as_str(), *linenum).as_str());
                text
            },
            ParseError::UnexpectedToken { expected, received, linenum, filename } => {
                let mut text = String::from_str("expected ");
                text.append(expected.to_text().as_str());
                text.append(" got ");
                text.append(received.to_text().as_str());
                text.append(": in ");
                text.append(place(filename.as_str(), *linenum).as_str());
                text
            },
            ParseError::UnexpectedType { expected, received, linenum, filename } => {
                let mut text = String::from_str("expected ");
                text.append(type_to_string(*expected).as_str());
                text.append(" got ");
                text.append(type_to_string(*received).as_str());
                text.append(" ");
                text.append(place(filename.as_str(), *linenum).as_str());
                text
            },
            ParseError::AbsentToken { expected } => {
                let mut text = String::from_str("expected ");
                text.append(expected.to_text().as_str());
                text.append(" to be present");
                text
            },
            ParseError::AbsentReturnType { fnname, linenum, filename } => {
                let mut text = String::from_str("expected return type to be present in function: ");
                text.append(debug_quote(fnname.as_str()).as_str());
                text.append(", File: ");
                text.append(place(filename.as_str(), *linenum).as_str());
                text
            },
            ParseError::TokenizeError(_) => String::from_str("error tokenizing"),
            ParseError::Unknown => String::from_str("unknown error"),
        }
    }
}

} // verus!
