use vstd::prelude::*;
use vstd::std_specs::cmp::PartialEqSpecImpl;

verus! {

/// The reserved words of the language.
#[derive(Debug, Clone, Copy, PartialEq, Eq, Structural)]
pub enum Keyword {
    Int,
    Async,
    String,
    Void,
    True,
    False,
    MLstr,
    Let,
    Func,
    Bool,
    Return,
    If,
    Else,
    While,
    Use,
    Pub,
    Const,
    For,
}

/// The payload of a literal token.
///
/// `Char` holds the text between a pair of `"` or `'` delimiters, of any
/// length; `MLStr` holds the text between a pair of backticks.
#[derive(Debug)]
pub enum Value {
    Int(u64),
    Char(String),
    MLStr(String),
}

/// The mathematical value of a [`Value`]: text is a sequence of characters.
pub enum ValueView {
    Int(u64),
    Char(Seq<char>),
    MLStr(Seq<char>),
}

impl View for Value {
    type V = ValueView;

    open spec fn view(&self) -> ValueView {
        match self {
            Value::Int(n) => ValueView::Int(*n),
            Value::Char(s) => ValueView::Char(s@),
            Value::MLStr(s) => ValueView::MLStr(s@),
        }
    }
}

impl Clone for Value {
    fn clone(&self) -> (res: Self)
        ensures
            res@ == self@,
    {
        match self {
            Value::Int(n) => Value::Int(*n),
            Value::Char(s) => Value::Char(s.clone()),
            Value::MLStr(s) => Value::MLStr(s.clone()),
        }
    }
}

impl PartialEq for Value {
    fn eq(&self, other: &Self) -> (res: bool) {
        match (self, other) {
            (Value::Int(a), Value::Int(b)) => *a == *b,
            (Value::Char(a), Value::Char(b)) => *a == *b,
            (Value::MLStr(a), Value::MLStr(b)) => *a == *b,
            _ => false,
        }
    }
}

impl PartialEqSpecImpl for Value {
    open spec fn obeys_eq_spec() -> bool {
        true
    }

    open spec fn eq_spec(&self, other: &Self) -> bool {
        self@ == other@
    }
}

impl Eq for Value {}

/// A lexical unit: a bracket, a punctuation mark, an operator, a keyword, an
/// identifier or a literal.
#[derive(Debug)]
pub enum Token {
    OpenBrace,
    CloseBrace,
    OpenParen,
    CloseParen,
    OpenSquareParen,
    CloseSquareParen,
    Keyword(Keyword),
    Identifier(String),
    Literal(Value),
    BitComp,
    LogicalNeg,
    Negation,
    Addition,
    Multiplication,
    Division,
    Modulus,
    Dot,
    And,
    Or,
    Equal,
    NotEqual,
    LessThan,
    LessThanOrEqual,
    GreaterThan,
    GreaterThanOrEqual,
    BitwiseLeft,
    BitwiseRight,
    BitwiseAnd,
    BitwiseXor,
    BitwiseOr,
    Assign,
    Comma,
    AsignFunc,
    AssignAdd,
    AssignSub,
    AssignDiv,
    AssignMul,
    AssignMod,
    AssignBitLeft,
    AssignBitRight,
    AssignAnd,
    AssignOr,
    AssignXor,
    HashTag,
    Increment,
    Decrement,
    Colon,
    DoubleColon,
    Dollar,
    Question,
}

/// The mathematical value of a [`Token`].
pub enum TokenView {
    OpenBrace,
    CloseBrace,
    OpenParen,
    CloseParen,
    OpenSquareParen,
    CloseSquareParen,
    Keyword(Keyword),
    Identifier(Seq<char>),
    Literal(ValueView),
    BitComp,
    LogicalNeg,
    Negation,
    Addition,
    Multiplication,
    Division,
    Modulus,
    Dot,
    And,
    Or,
    Equal,
    NotEqual,
    LessThan,
    LessThanOrEqual,
    GreaterThan,
    GreaterThanOrEqual,
    BitwiseLeft,
    BitwiseRight,
    BitwiseAnd,
    BitwiseXor,
    BitwiseOr,
    Assign,
    Comma,
    AsignFunc,
    AssignAdd,
    AssignSub,
    AssignDiv,
    AssignMul,
    AssignMod,
    AssignBitLeft,
    AssignBitRight,
    AssignAnd,
    AssignOr,
    AssignXor,
    HashTag,
    Increment,
    Decrement,
    Colon,
    DoubleColon,
    Dollar,
    Question,
}

impl View for Token {
    type V = TokenView;

    open spec fn view(&self) -> TokenView {
        match self {
            Token::Keyword(k) => TokenView::Keyword(*k),
            Token::Identifier(s) => TokenView::Identifier(s@),
            Token::Literal(v) => TokenView::Literal(v@),
            Token::OpenBrace => TokenView::OpenBrace,
            Token::CloseBrace => TokenView::CloseBrace,
            Token::OpenParen => TokenView::OpenParen,
            Token::CloseParen => TokenView::CloseParen,
            Token::OpenSquareParen => TokenView::OpenSquareParen,
            Token::CloseSquareParen => TokenView::CloseSquareParen,
            Token::BitComp => TokenView::BitComp,
            Token::LogicalNeg => TokenView::LogicalNeg,
            Token::Negation => TokenView::Negation,
            Token::Addition => TokenView::Addition,
            Token::Multiplication => TokenView::Multiplication,
            Token::Division => TokenView::Division,
            Token::Modulus => TokenView::Modulus,
            Token::Dot => TokenView::Dot,
            Token::And => TokenView::And,
            Token::Or => TokenView::Or,
            Token::Equal => TokenView::Equal,
            Token::NotEqual => TokenView::NotEqual,
            Token::LessThan => TokenView::LessThan,
            Token::LessThanOrEqual => TokenView::LessThanOrEqual,
            Token::GreaterThan => TokenView::GreaterThan,
            Token::GreaterThanOrEqual => TokenView::GreaterThanOrEqual,
            Token::BitwiseLeft => TokenView::BitwiseLeft,
            Token::BitwiseRight => TokenView::BitwiseRight,
            Token::BitwiseAnd => TokenView::BitwiseAnd,
            Token::BitwiseXor => TokenView::BitwiseXor,
            Token::BitwiseOr => TokenView::BitwiseOr,
            Token::Assign => TokenView::Assign,
            Token::Comma => TokenView::Comma,
            Token::AsignFunc => TokenView::AsignFunc,
            Token::AssignAdd => TokenView::AssignAdd,
            Token::AssignSub => TokenView::AssignSub,
            Token::AssignDiv => TokenView::AssignDiv,
            Token::AssignMul => TokenView::AssignMul,
            Token::AssignMod => TokenView::AssignMod,
            Token::AssignBitLeft => TokenView::AssignBitLeft,
            Token::AssignBitRight => TokenView::AssignBitRight,
            Token::AssignAnd => TokenView::AssignAnd,
            Token::AssignOr => TokenView::AssignOr,
            Token::AssignXor => TokenView::AssignXor,
            Token::HashTag => TokenView::HashTag,
            Token::Increment => TokenView::Increment,
            Token::Decrement => TokenView::Decrement,
            Token::Colon => TokenView::Colon,
            Token::DoubleColon => TokenView::DoubleColon,
            Token::Dollar => TokenView::Dollar,
            Token::Question => TokenView::Question,
        }
    }
}

impl Clone for Token {
    fn clone(&self) -> (res: Self)
        ensures
            res@ == self@,
    {
        match self {
            Token::Keyword(k) => Token::Keyword(*k),
            Token::Identifier(s) => Token::Identifier(s.clone()),
            Token::Literal(v) => Token::Literal(v.clone()),
            Token::OpenBrace => Token::OpenBrace,
            Token::CloseBrace => Token::CloseBrace,
            Token::OpenParen => Token::OpenParen,
            Token::CloseParen => Token::CloseParen,
            Token::OpenSquareParen => Token::OpenSquareParen,
            Token::CloseSquareParen => Token::CloseSquareParen,
            Token::BitComp => Token::BitComp,
            Token::LogicalNeg => Token::LogicalNeg,
            Token::Negation => Token::Negation,
            Token::Addition => Token::Addition,
            Token::Multiplication => Token::Multiplication,
            Token::Division => Token::Division,
            Token::Modulus => Token::Modulus,
            Token::Dot => Token::Dot,
            Token::And => Token::And,
            Token::Or => Token::Or,
            Token::Equal => Token::Equal,
            Token::NotEqual => Token::NotEqual,
            Token::LessThan => Token::LessThan,
            Token::LessThanOrEqual => Token::LessThanOrEqual,
            Token::GreaterThan => Token::GreaterThan,
            Token::GreaterThanOrEqual => Token::GreaterThanOrEqual,
            Token::BitwiseLeft => Token::BitwiseLeft,
            Token::BitwiseRight => Token::BitwiseRight,
            Token::BitwiseAnd => Token::BitwiseAnd,
            Token::BitwiseXor => Token::BitwiseXor,
            Token::BitwiseOr => Token::BitwiseOr,
            Token::Assign => Token::Assign,
            Token::Comma => Token::Comma,
            Token::AsignFunc => Token::AsignFunc,
            Token::AssignAdd => Token::AssignAdd,
            Token::AssignSub => Token::AssignSub,
            Token::AssignDiv => Token::AssignDiv,
            Token::AssignMul => Token::AssignMul,
            Token::AssignMod => Token::AssignMod,
            Token::AssignBitLeft => Token::AssignBitLeft,
            Token::AssignBitRight => Token::AssignBitRight,
            Token::AssignAnd => Token::AssignAnd,
            Token::AssignOr => Token::AssignOr,
            Token::AssignXor => Token::AssignXor,
            Token::HashTag => Token::HashTag,
            Token::Increment => Token::Increment,
            Token::Decrement => Token::Decrement,
            Token::Colon => Token::Colon,
            Token::DoubleColon => Token::DoubleColon,
            Token::Dollar => Token::Dollar,
            Token::Question => Token::Question,
        }
    }
}

impl PartialEq for Token {
    fn eq(&self, other: &Self) -> (res: bool) {
        match (self, other) {
            (Token::Keyword(a), Token::Keyword(b)) => *a == *b,
            (Token::Identifier(a), Token::Identifier(b)) => *a == *b,
            (Token::Literal(a), Token::Literal(b)) => *a == *b,
            (Token::OpenBrace, Token::OpenBrace) => true,
            (Token::CloseBrace, Token::CloseBrace) => true,
            (Token::OpenParen, Token::OpenParen) => true,
            (Token::CloseParen, Token::CloseParen) => true,
            (Token::OpenSquareParen, Token::OpenSquareParen) => true,
            (Token::CloseSquareParen, Token::CloseSquareParen) => true,
            (Token::BitComp, Token::BitComp) => true,
            (Token::LogicalNeg, Token::LogicalNeg) => true,
            (Token::Negation, Token::Negation) => true,
            (Token::Addition, Token::Addition) => true,
            (Token::Multiplication, Token::Multiplication) => true,
            (Token::Division, Token::Division) => true,
            (Token::Modulus, Token::Modulus) => true,
            (Token::Dot, Token::Dot) => true,
            (Token::And, Token::And) => true,
            (Token::Or, Token::Or) => true,
            (Token::Equal, Token::Equal) => true,
            (Token::NotEqual, Token::NotEqual) => true,
            (Token::LessThan, Token::LessThan) => true,
            (Token::LessThanOrEqual, Token::LessThanOrEqual) => true,
            (Token::GreaterThan, Token::GreaterThan) => true,
            (Token::GreaterThanOrEqual, Token::GreaterThanOrEqual) => true,
            (Token::BitwiseLeft, Token::BitwiseLeft) => true,
            (Token::BitwiseRight, Token::BitwiseRight) => true,
            (Token::BitwiseAnd, Token::BitwiseAnd) => true,
            (Token::BitwiseXor, Token::BitwiseXor) => true,
            (Token::BitwiseOr, Token::BitwiseOr) => true,
            (Token::Assign, Token::Assign) => true,
            (Token::Comma, Token::Comma) => true,
            (Token::AsignFunc, Token::AsignFunc) => true,
            (Token::AssignAdd, Token::AssignAdd) => true,
            (Token::AssignSub, Token::AssignSub) => true,
            (Token::AssignDiv, Token::AssignDiv) => true,
            (Token::AssignMul, Token::AssignMul) => true,
            (Token::AssignMod, Token::AssignMod) => true,
            (Token::AssignBitLeft, Token::AssignBitLeft) => true,
            (Token::AssignBitRight, Token::AssignBitRight) => true,
            (Token::AssignAnd, Token::AssignAnd) => true,
            (Token::AssignOr, Token::AssignOr) => true,
            (Token::AssignXor, Token::AssignXor) => true,
            (Token::HashTag, Token::HashTag) => true,
            (Token::Increment, Token::Increment) => true,
            (Token::Decrement, Token::Decrement) => true,
            (Token::Colon, Token::Colon) => true,
            (Token::DoubleColon, Token::DoubleColon) => true,
            (Token::Dollar, Token::Dollar) => true,
            (Token::Question, Token::Question) => true,
            _ => false,
        }
    }
}

impl PartialEqSpecImpl for Token {
    open spec fn obeys_eq_spec() -> bool {
        true
    }

    open spec fn eq_spec(&self, other: &Self) -> bool {
        self@ == other@
    }
}

impl Eq for Token {}

/// A token together with the text it was scanned from and the line on which
/// it starts (lines are counted from 1).
#[derive(Debug, PartialEq, Eq)]
pub struct TokenType {
    pub token: Token,
    pub val: String,
    pub linenum: u32,
}

/// The mathematical value of a [`TokenType`].
pub struct TokenTypeView {
    pub token: TokenView,
    pub val: Seq<char>,
    pub linenum: u32,
}

impl View for TokenType {
    type V = TokenTypeView;

    open spec fn view(&self) -> TokenTypeView {
        TokenTypeView { token: self.token@, val: self.val@, linenum: self.linenum }
    }
}

impl Clone for TokenType {
    fn clone(&self) -> (res: Self)
        ensures
            res@ == self@,
    {
        TokenType { token: self.token.clone(), val: self.val.clone(), linenum: self.linenum }
    }
}

/// The views of a sequence of positioned tokens, in order.
pub open spec fn token_views(tokens: Seq<TokenType>) -> Seq<TokenTypeView> {
    tokens.map_values(|t: TokenType| t@)
}

/// What the parser was looking for when it reported an error.
#[derive(Debug, PartialEq, Eq)]
pub enum ParserDescriptor {
    AnyIdentifier,
    AnyVariable,
    Token(Token),
    Newline,
    NoToken,
}

/// The mathematical value of a [`ParserDescriptor`].
pub enum ParserDescriptorView {
    AnyIdentifier,
    AnyVariable,
    Token(TokenView),
    Newline,
    NoToken,
}

impl View for ParserDescriptor {
    type V = ParserDescriptorView;

    open spec fn view(&self) -> ParserDescriptorView {
        match self {
            ParserDescriptor::AnyIdentifier => ParserDescriptorView::AnyIdentifier,
            ParserDescriptor::AnyVariable => ParserDescriptorView::AnyVariable,
            ParserDescriptor::Token(t) => ParserDescriptorView::Token(t@),
            ParserDescriptor::Newline => ParserDescriptorView::Newline,
            ParserDescriptor::NoToken => ParserDescriptorView::NoToken,
        }
    }
}

impl Clone for ParserDescriptor {
    fn clone(&self) -> (res: Self)
        ensures
            res@ == self@,
    {
        match self {
            ParserDescriptor::AnyIdentifier => ParserDescriptor::AnyIdentifier,
            ParserDescriptor::AnyVariable => ParserDescriptor::AnyVariable,
            ParserDescriptor::Token(t) => ParserDescriptor::Token(t.clone()),
            ParserDescriptor::Newline => ParserDescriptor::Newline,
            ParserDescriptor::NoToken => ParserDescriptor::NoToken,
        }
    }
}

} // verus!
