use vstd::prelude::*;
use crate::errors::ParseErrorView;
use crate::ops::{
    binop_of, compound_op_of, unop_of, BinOp, ExpressionView, FunctionView, ImportView,
    ProgramView, Size, StatementView, Type, VariableView,
};
use crate::types::{Keyword, ParserDescriptorView, Token, TokenTypeView, TokenView, ValueView};

verus! {

/// What the parser reads: the tokens of a compilation unit and the name of
/// its file.
pub struct Source {
    pub tokens: Seq<TokenTypeView>,
    pub file: Seq<char>,
}

/// The outcome of parsing one construct: the construct or the error, and the
/// number of tokens taken on the way.
pub struct Parsed<T> {
    pub result: Result<T, ParseErrorView>,
    pub len: nat,
}

impl<T> Parsed<T> {
    /// The same outcome after `n` more tokens taken before it.
    pub open spec fn after(self, n: nat) -> Parsed<T> {
        Parsed { result: self.result, len: self.len + n }
    }
}

/// The outcome of a construct parsed with success from `len` tokens.
pub open spec fn ok<T>(value: T, len: nat) -> Parsed<T> {
    Parsed { result: Ok(value), len }
}

/// The outcome of a construct that failed with `e` after `len` tokens taken.
pub open spec fn fail<T>(e: ParseErrorView, len: nat) -> Parsed<T> {
    Parsed { result: Err(e), len }
}

/// The precedence levels of the left-associative binary operators, from the
/// one that binds least to the one that binds most.
#[derive(Debug, Clone, Copy, PartialEq, Eq, Structural)]
pub enum Level {
    Comma,
    Or,
    And,
    BitOr,
    BitXor,
    BitAnd,
    Equality,
    Relational,
    Shift,
    Additive,
    Multiplicative,
}

impl Level {
    /// Whether `token` is an operator of this level.
    pub open spec fn accepts(self, token: TokenView) -> bool {
        match self {
            Level::Comma => token == TokenView::Comma,
            Level::Or => token == TokenView::Or,
            Level::And => token == TokenView::And,
            Level::BitOr => token == TokenView::BitwiseOr,
            Level::BitXor => token == TokenView::BitwiseXor,
            Level::BitAnd => token == TokenView::BitwiseAnd,
            Level::Equality => token == TokenView::Equal || token == TokenView::NotEqual,
            Level::Relational => token == TokenView::LessThan || token == TokenView::GreaterThan
                || token == TokenView::LessThanOrEqual || token == TokenView::GreaterThanOrEqual,
            Level::Shift => token == TokenView::BitwiseLeft || token == TokenView::BitwiseRight,
            Level::Additive => token == TokenView::Negation || token == TokenView::Addition,
            Level::Multiplicative => token == TokenView::Multiplication || token
                == TokenView::Division || token == TokenView::Modulus,
        }
    }

    /// How far the level stands above the tightest one. The ternary and the
    /// assignment stand between `Or` and `Comma`.
    pub open spec fn height(self) -> nat {
        match self {
            Level::Multiplicative => 0,
            Level::Additive => 1,
            Level::Shift => 2,
            Level::Relational => 3,
            Level::Equality => 4,
            Level::BitAnd => 5,
            Level::BitXor => 6,
            Level::BitOr => 7,
            Level::And => 8,
            Level::Or => 9,
            Level::Comma => 12,
        }
    }
}

impl Source {
    /// The token at `pos`, if the sequence reaches that far.
    pub open spec fn token(self, pos: nat) -> Option<TokenView> {
        if pos < self.tokens.len() {
            Some(self.tokens[pos as int].token)
        } else {
            None
        }
    }

    /// The line of the token at `pos`.
    pub open spec fn line(self, pos: nat) -> u32
        recommends
            pos < self.tokens.len(),
    {
        self.tokens[pos as int].linenum
    }

    /// The number of tokens from `pos` on.
    pub open spec fn left(self, pos: nat) -> nat {
        if pos <= self.tokens.len() {
            (self.tokens.len() - pos) as nat
        } else {
            0
        }
    }

    /// Whether `len` tokens taken from `pos` on are at least one token and
    /// no more than there are. Every construct that is parsed with success
    /// takes its tokens so. Where the grammar repeats a construct it asks
    /// for this before it goes on, and gives the error `Unknown` otherwise;
    /// `lemma_program` shows that no parse ends in that error.
    pub open spec fn takes(self, pos: nat, len: nat) -> bool {
        1 <= len <= self.left(pos)
    }

    /// The error for the token at `pos`, which is not what `expected` names.
    pub open spec fn unexpected(self, pos: nat, expected: ParserDescriptorView) -> ParseErrorView {
        ParseErrorView::UnexpectedToken {
            expected,
            received: self.tokens[pos as int].token,
            linenum: self.line(pos),
            filename: self.file,
        }
    }

    /// The error for the token at `pos`, which starts no expression or
    /// follows a declared name without being `=`.
    pub open spec fn unassigned(self, pos: nat) -> ParseErrorView {
        ParseErrorView::UnassignedVariable {
            linenum: self.line(pos),
            filename: self.file,
        }
    }
}

/// The error for tokens that end where `expected` should stand.
pub open spec fn absent(expected: ParserDescriptorView) -> ParseErrorView {
    ParseErrorView::AbsentToken { expected }
}

/// `name` plus or minus one: what `++` and `--` stand for.
pub open spec fn step_of(op: BinOp, name: Seq<char>) -> ExpressionView {
    ExpressionView::BinOp(
        op,
        Box::new(ExpressionView::Variable(name)),
        Box::new(ExpressionView::Int(1)),
    )
}

/// Takes the token `wanted`. Another token is taken too, and is an error.
pub open spec fn expect_token(src: Source, pos: nat, wanted: TokenView) -> Parsed<TokenView> {
    match src.token(pos) {
        None => fail(absent(ParserDescriptorView::Token(wanted)), 0),
        Some(t) => if t == wanted {
            ok(t, 1)
        } else {
            fail(src.unexpected(pos, ParserDescriptorView::Token(wanted)), 1)
        },
    }
}

/// Takes the keyword `wanted`. Another token is taken too, and is an error.
pub open spec fn expect_keyword(src: Source, pos: nat, wanted: Keyword) -> Parsed<()> {
    match src.token(pos) {
        None => fail(absent(ParserDescriptorView::Newline), 0),
        Some(t) => if t == TokenView::Keyword(wanted) {
            ok((), 1)
        } else {
            fail(src.unexpected(pos, ParserDescriptorView::Newline), 1)
        },
    }
}

/// Takes an identifier. Another token is taken too, and is an error.
pub open spec fn expect_identifier(src: Source, pos: nat) -> Parsed<Seq<char>> {
    match src.token(pos) {
        None => fail(absent(ParserDescriptorView::AnyIdentifier), 0),
        Some(TokenView::Identifier(name)) => ok(name, 1),
        Some(_) => fail(src.unexpected(pos, ParserDescriptorView::AnyIdentifier), 1),
    }
}

/// A primary expression with its prefix and postfix operators: a literal, a
/// variable, a call, an increment or decrement, a parenthesized expression,
/// a unary operation or a reference.
pub open spec fn factor(src: Source, pos: nat) -> Parsed<ExpressionView>
    decreases src.left(pos), 0nat,
{
    let second = src.token(pos + 1);
    match src.token(pos) {
        None => fail(absent(ParserDescriptorView::AnyVariable), 0),
        Some(TokenView::Literal(ValueView::Char(text))) => ok(ExpressionView::Char(text), 1),
        Some(TokenView::Literal(ValueView::MLStr(text))) => ok(ExpressionView::MLStr(text), 1),
        Some(TokenView::Literal(ValueView::Int(n))) => ok(ExpressionView::Int(n), 1),
        Some(TokenView::Keyword(Keyword::True)) => ok(ExpressionView::Bool(true), 1),
        Some(TokenView::Keyword(Keyword::False)) => ok(ExpressionView::Bool(false), 1),
        Some(TokenView::Identifier(name)) => match second {
            Some(TokenView::Increment) => ok(
                ExpressionView::AssignPostfix(name, Box::new(step_of(BinOp::Addition, name))),
                2,
            ),
            Some(TokenView::Decrement) => ok(
                ExpressionView::AssignPostfix(name, Box::new(step_of(BinOp::Subtraction, name))),
                2,
            ),
            Some(TokenView::OpenParen) => {
                let args = call_arguments(src, pos + 2, Seq::empty());
                match args.result {
                    Ok(values) => ok(ExpressionView::FunctionCall(name, values), args.len + 2),
                    Err(e) => fail(e, args.len + 2),
                }
            },
            _ => ok(ExpressionView::Variable(name), 1),
        },
        Some(TokenView::Increment) => match second {
            Some(TokenView::Identifier(name)) => ok(
                ExpressionView::Assign(name, Box::new(step_of(BinOp::Addition, name))),
                2,
            ),
            _ => fail(src.unassigned(pos), 1),
        },
        Some(TokenView::Decrement) => match second {
            Some(TokenView::Identifier(name)) => ok(
                ExpressionView::Assign(name, Box::new(step_of(BinOp::Subtraction, name))),
                2,
            ),
            _ => fail(src.unassigned(pos), 1),
        },
        Some(TokenView::OpenParen) => {
            let inner = expression(src, pos + 1);
            match inner.result {
                Err(e) => fail(e, inner.len + 1),
                Ok(value) => {
                    let close = expect_token(src, pos + 1 + inner.len, TokenView::CloseParen);
                    match close.result {
                        Err(e) => fail(e, inner.len + 1 + close.len),
                        Ok(_) => ok(value, inner.len + 2),
                    }
                },
            }
        },
        Some(TokenView::BitwiseAnd) => match second {
            None => fail(absent(ParserDescriptorView::AnyVariable), 1),
            Some(TokenView::Identifier(name)) => ok(ExpressionView::VariableRef(name), 2),
            Some(_) => fail(src.unexpected(pos + 1, ParserDescriptorView::AnyVariable), 2),
        },
        Some(t) => match unop_of(t) {
            Some(op) => {
                let operand = factor(src, pos + 1);
                match operand.result {
                    Err(e) => fail(e, operand.len + 1),
                    Ok(value) => ok(ExpressionView::UnOp(op, Box::new(value)), operand.len + 1),
                }
            },
            None => fail(src.unassigned(pos), 1),
        },
    }
}

/// The arguments of a call, after its `(`: assignment expressions up to the
/// `)`, which is taken. A comma after an argument is taken with it.
pub open spec fn call_arguments(src: Source, pos: nat, acc: Seq<ExpressionView>) -> Parsed<
    Seq<ExpressionView>,
>
    decreases src.left(pos), 52nat,
{
    if src.token(pos) == Some(TokenView::CloseParen) {
        ok(acc, 1)
    } else {
        let arg = assignment(src, pos);
        match arg.result {
            Err(e) => fail(e, arg.len),
            Ok(value) => if !src.takes(pos, arg.len) {
                fail(ParseErrorView::Unknown, 0)
            } else {
                let comma: nat = if src.token(pos + arg.len) == Some(TokenView::Comma) {
                    1
                } else {
                    0
                };
                call_arguments(src, pos + arg.len + comma, acc.push(value)).after(arg.len + comma)
            },
        }
    }
}

/// The operand of a binary operator of `level`: an expression of the next
/// tighter level.
pub open spec fn operand(src: Source, pos: nat, level: Level) -> Parsed<ExpressionView>
    decreases src.left(pos), 4 * level.height() + 1,
{
    match level {
        Level::Comma => assignment(src, pos),
        Level::Or => binary(src, pos, Level::And),
        Level::And => binary(src, pos, Level::BitOr),
        Level::BitOr => binary(src, pos, Level::BitXor),
        Level::BitXor => binary(src, pos, Level::BitAnd),
        Level::BitAnd => binary(src, pos, Level::Equality),
        Level::Equality => binary(src, pos, Level::Relational),
        Level::Relational => binary(src, pos, Level::Shift),
        Level::Shift => binary(src, pos, Level::Additive),
        Level::Additive => binary(src, pos, Level::Multiplicative),
        Level::Multiplicative => factor(src, pos),
    }
}

/// A chain of operands joined by operators of `level`, which associate to
/// the left.
pub open spec fn binary(src: Source, pos: nat, level: Level) -> Parsed<ExpressionView>
    decreases src.left(pos), 4 * level.height() + 3,
{
    let first = operand(src, pos, level);
    match first.result {
        Err(e) => first,
        Ok(term) => binary_tail(src, pos + first.len, level, term).after(first.len),
    }
}

/// The rest of a chain of `level` whose operands so far make up `lhs`.
pub open spec fn binary_tail(src: Source, pos: nat, level: Level, lhs: ExpressionView) -> Parsed<
    ExpressionView,
>
    decreases src.left(pos), 4 * level.height() + 2,
{
    match src.token(pos) {
        Some(t) if level.accepts(t) && binop_of(t) is Some => {
            let rhs = operand(src, pos + 1, level);
            match rhs.result {
                Err(e) => fail(e, rhs.len + 1),
                Ok(term) => binary_tail(
                    src,
                    pos + 1 + rhs.len,
                    level,
                    ExpressionView::BinOp(binop_of(t)->0, Box::new(lhs), Box::new(term)),
                ).after(rhs.len + 1),
            }
        },
        _ => ok(lhs, 0),
    }
}

/// A ternary chain `cond ? then : otherwise`, or just its condition. Both
/// branches are full expressions, so a chain nests to the right.
pub open spec fn conditional(src: Source, pos: nat) -> Parsed<ExpressionView>
    decreases src.left(pos), 43nat,
{
    let first = binary(src, pos, Level::Or);
    match first.result {
        Err(e) => first,
        Ok(term) => conditional_tail(src, pos + first.len, term).after(first.len),
    }
}

/// The rest of a ternary chain whose condition so far is `cond`.
pub open spec fn conditional_tail(src: Source, pos: nat, cond: ExpressionView) -> Parsed<
    ExpressionView,
>
    decreases src.left(pos), 42nat,
{
    if src.token(pos) == Some(TokenView::Question) {
        let then = expression(src, pos + 1);
        match then.result {
            Err(e) => fail(e, then.len + 1),
            Ok(body) => {
                let colon = expect_token(src, pos + 1 + then.len, TokenView::Colon);
                match colon.result {
                    Err(e) => fail(e, then.len + 1 + colon.len),
                    Ok(_) => {
                        let otherwise = expression(src, pos + then.len + 2);
                        match otherwise.result {
                            Err(e) => fail(e, then.len + 2 + otherwise.len),
                            Ok(else_body) => conditional_tail(
                                src,
                                pos + then.len + 2 + otherwise.len,
                                ExpressionView::Ternary(
                                    Box::new(cond),
                                    Box::new(body),
                                    Box::new(else_body),
                                ),
                            ).after(then.len + 2 + otherwise.len),
                        }
                    },
                }
            },
        }
    } else {
        ok(cond, 0)
    }
}

/// An assignment `name = value` or a compound assignment `name op= value`,
/// which stands for `name = name op value`; or else a conditional
/// expression. The value is a full expression.
pub open spec fn assignment(src: Source, pos: nat) -> Parsed<ExpressionView>
    decreases src.left(pos), 47nat,
{
    match (src.token(pos), src.token(pos + 1)) {
        (Some(TokenView::Identifier(name)), Some(TokenView::Assign)) => {
            let value = expression(src, pos + 2);
            match value.result {
                Err(e) => fail(e, value.len + 2),
                Ok(v) => ok(ExpressionView::Assign(name, Box::new(v)), value.len + 2),
            }
        },
        (Some(TokenView::Identifier(name)), Some(t)) if compound_op_of(t) is Some => {
            let value = expression(src, pos + 2);
            match value.result {
                Err(e) => fail(e, value.len + 2),
                Ok(v) => ok(
                    ExpressionView::Assign(
                        name,
                        Box::new(
                            ExpressionView::BinOp(
                                compound_op_of(t)->0,
                                Box::new(ExpressionView::Variable(name)),
                                Box::new(v),
                            ),
                        ),
                    ),
                    value.len + 2,
                ),
            }
        },
        _ => conditional(src, pos),
    }
}

/// An expression: a chain of assignment expressions joined by commas.
pub open spec fn expression(src: Source, pos: nat) -> Parsed<ExpressionView>
    decreases src.left(pos), 55nat,
{
    binary(src, pos, Level::Comma)
}

/// The rest of a declaration after its keyword: a name, `=` and the value.
pub open spec fn declaration(src: Source, pos: nat, size: Size, t: Seq<char>) -> Parsed<
    StatementView,
>
    decreases src.left(pos), 60nat,
{
    match (src.token(pos), src.token(pos + 1)) {
        (None, _) => fail(absent(ParserDescriptorView::AnyIdentifier), 0),
        (Some(TokenView::Identifier(name)), Some(TokenView::Assign)) => {
            let value = expression(src, pos + 2);
            match value.result {
                Err(e) => fail(e, value.len + 2),
                Ok(v) => ok(
                    StatementView::Declare(VariableView { name, t, size }, Some(v)),
                    value.len + 2,
                ),
            }
        },
        (Some(_), _) => fail(src.unassigned(pos), 1),
    }
}

/// A statement: a declaration, a `return`, an `if`, a `while`, a block, or
/// else an expression.
pub open spec fn statement(src: Source, pos: nat) -> Parsed<StatementView>
    decreases src.left(pos), 61nat,
{
    match src.token(pos) {
        Some(TokenView::Keyword(Keyword::Int)) => declaration(
            src,
            pos + 1,
            Size::Int,
            "int"@,
        ).after(1),
        Some(TokenView::Keyword(Keyword::Let)) => declaration(src, pos + 1, Size::Byte, ""@).after(
            1,
        ),
        Some(TokenView::Keyword(Keyword::Bool)) => declaration(
            src,
            pos + 1,
            Size::Byte,
            "bool"@,
        ).after(1),
        Some(TokenView::Keyword(Keyword::Const)) => declaration(
            src,
            pos + 1,
            Size::Byte,
            ""@,
        ).after(1),
        Some(TokenView::Keyword(Keyword::String)) => declaration(
            src,
            pos + 1,
            Size::Byte,
            "str"@,
        ).after(1),
        Some(TokenView::Keyword(Keyword::Return)) => {
            let value = expression(src, pos + 1);
            match value.result {
                Err(e) => fail(e, value.len + 1),
                Ok(v) => ok(StatementView::Return(v), value.len + 1),
            }
        },
        Some(TokenView::Keyword(Keyword::If)) => if_statement(src, pos + 1).after(1),
        Some(TokenView::Keyword(Keyword::While)) => while_statement(src, pos + 1).after(1),
        Some(TokenView::OpenBrace) => {
            let body = block(src, pos + 1, Seq::empty());
            match body.result {
                Err(e) => fail(e, body.len + 1),
                Ok(statements) => ok(StatementView::Compound(statements), body.len + 1),
            }
        },
        _ => {
            let value = expression(src, pos);
            match value.result {
                Err(e) => fail(e, value.len),
                Ok(v) => ok(StatementView::Exp(v), value.len),
            }
        },
    }
}

/// The statements of a block, after its `{` and the statements `acc`, up to
/// the `}`, which is taken.
pub open spec fn block(src: Source, pos: nat, acc: Seq<StatementView>) -> Parsed<
    Seq<StatementView>,
>
    decreases src.left(pos), 62nat,
{
    if src.token(pos) == Some(TokenView::CloseBrace) {
        ok(acc, 1)
    } else {
        let first = statement(src, pos);
        match first.result {
            Err(e) => fail(e, first.len),
            Ok(s) => if !src.takes(pos, first.len) {
                fail(ParseErrorView::Unknown, 0)
            } else {
                block(src, pos + first.len, acc.push(s)).after(first.len)
            },
        }
    }
}

/// The condition of an `if` or a `while` in parentheses, and the statement
/// that it governs.
pub open spec fn governed(src: Source, pos: nat) -> Parsed<(ExpressionView, StatementView)>
    decreases src.left(pos), 58nat,
{
    match src.token(pos) {
        None => fail(absent(ParserDescriptorView::Token(TokenView::OpenParen)), 0),
        Some(TokenView::OpenParen) => {
            let cond = expression(src, pos + 1);
            match cond.result {
                Err(e) => fail(e, cond.len + 1),
                Ok(c) => {
                    let close = expect_token(src, pos + 1 + cond.len, TokenView::CloseParen);
                    match close.result {
                        Err(e) => fail(e, cond.len + 1 + close.len),
                        Ok(_) => {
                            let body = statement(src, pos + cond.len + 2);
                            match body.result {
                                Err(e) => fail(e, cond.len + 2 + body.len),
                                Ok(b) => ok((c, b), cond.len + 2 + body.len),
                            }
                        },
                    }
                },
            }
        },
        Some(_) => fail(src.unexpected(pos, ParserDescriptorView::Token(TokenView::OpenParen)), 1),
    }
}

/// The rest of an `if` statement after its keyword, with the `else` branch
/// where one follows.
pub open spec fn if_statement(src: Source, pos: nat) -> Parsed<StatementView>
    decreases src.left(pos), 59nat,
{
    let head = governed(src, pos);
    match head.result {
        Err(e) => fail(e, head.len),
        Ok((cond, then)) => if src.token(pos + head.len) == Some(
            TokenView::Keyword(Keyword::Else),
        ) {
            let otherwise = statement(src, pos + head.len + 1);
            match otherwise.result {
                Err(e) => fail(e, head.len + 1 + otherwise.len),
                Ok(else_body) => ok(
                    StatementView::If(cond, Box::new(then), Some(Box::new(else_body))),
                    head.len + 1 + otherwise.len,
                ),
            }
        } else {
            ok(StatementView::If(cond, Box::new(then), None), head.len)
        },
    }
}

/// The rest of a `while` statement after its keyword.
pub open spec fn while_statement(src: Source, pos: nat) -> Parsed<StatementView>
    decreases src.left(pos), 59nat,
{
    let head = governed(src, pos);
    match head.result {
        Err(e) => fail(e, head.len),
        Ok((cond, body)) => ok(StatementView::While(cond, Box::new(body)), head.len),
    }
}

/// The type of a parameter: its name as written and its storage width.
pub open spec fn parameter_type(token: TokenView) -> Option<(Seq<char>, Size)> {
    match token {
        TokenView::Keyword(Keyword::Int) => Some(("int"@, Size::Int)),
        TokenView::Keyword(Keyword::String) => Some(("str"@, Size::Byte)),
        TokenView::Keyword(Keyword::MLstr) => Some(("mlstr"@, Size::Byte)),
        TokenView::Keyword(Keyword::Bool) => Some(("bool"@, Size::Byte)),
        _ => None,
    }
}

/// The parameters of a function, after the parameters `acc`, up to the `)`,
/// which stays: each is a name, `:` and a type. A comma after a parameter is
/// taken with it.
pub open spec fn parameters(src: Source, pos: nat, acc: Seq<VariableView>) -> Parsed<
    Seq<VariableView>,
>
    decreases src.left(pos),
{
    if src.token(pos) == Some(TokenView::CloseParen) {
        ok(acc, 0)
    } else {
        let name = expect_identifier(src, pos);
        match name.result {
            Err(e) => fail(e, name.len),
            Ok(n) => {
                let colon = expect_token(src, pos + 1, TokenView::Colon);
                match colon.result {
                    Err(e) => fail(e, 1 + colon.len),
                    Ok(_) => match src.token(pos + 2) {
                        None => fail(absent(ParserDescriptorView::NoToken), 2),
                        Some(t) => match parameter_type(t) {
                            None => fail(
                                ParseErrorView::UnexpectedType {
                                    expected: Type::Int,
                                    received: Type::Char,
                                    linenum: src.line(pos + 2),
                                    filename: src.file,
                                },
                                3,
                            ),
                            Some((t, size)) => {
                                let comma: nat = if src.token(pos + 3) == Some(TokenView::Comma) {
                                    1
                                } else {
                                    0
                                };
                                parameters(
                                    src,
                                    pos + 3 + comma,
                                    acc.push(VariableView { name: n, t, size }),
                                ).after(3 + comma)
                            },
                        },
                    },
                }
            },
        }
    }
}

/// The return type that a keyword names.
pub open spec fn return_type_of(token: TokenView) -> Option<Type> {
    match token {
        TokenView::Keyword(Keyword::Bool) => Some(Type::Bool),
        TokenView::Keyword(Keyword::MLstr) => Some(Type::Mlstr),
        TokenView::Keyword(Keyword::Int) => Some(Type::Int),
        TokenView::Keyword(Keyword::String) => Some(Type::Str),
        TokenView::Keyword(Keyword::Void) => Some(Type::Void),
        _ => None,
    }
}

/// The return type of the function `fnname`, after the `:`. A token that
/// names no type stays, and is an error.
pub open spec fn return_type(src: Source, pos: nat, fnname: Seq<char>) -> Parsed<Type> {
    match src.token(pos) {
        None => fail(absent(ParserDescriptorView::NoToken), 0),
        Some(t) => match return_type_of(t) {
            Some(ty) => ok(ty, 1),
            None => fail(
                ParseErrorView::AbsentReturnType {
                    fnname,
                    linenum: src.line(pos),
                    filename: src.file,
                },
                0,
            ),
        },
    }
}

/// The part of a function from its `(` up to, not including, the `{` of its
/// body: the parameters and the return type, `void` where none is given.
pub open spec fn signature(src: Source, pos: nat, fnname: Seq<char>) -> Parsed<
    (Seq<VariableView>, Type),
> {
    let open = expect_token(src, pos, TokenView::OpenParen);
    match open.result {
        Err(e) => fail(e, open.len),
        Ok(_) => {
            let params = parameters(src, pos + 1, Seq::empty());
            match params.result {
                Err(e) => fail(e, params.len + 1),
                Ok(arguments) => {
                    let close = expect_token(src, pos + 1 + params.len, TokenView::CloseParen);
                    let at = pos + params.len + 2;
                    match close.result {
                        Err(e) => fail(e, params.len + 1 + close.len),
                        Ok(_) => if src.token(at) == Some(TokenView::Colon) {
                            let ty = return_type(src, at + 1, fnname);
                            match ty.result {
                                Err(e) => fail(e, params.len + 3 + ty.len),
                                Ok(t) => ok((arguments, t), params.len + 3 + ty.len),
                            }
                        } else {
                            ok((arguments, Type::Void), params.len + 2)
                        },
                    }
                },
            }
        },
    }
}

/// A function: `fn`, `async` or not, the name, the parameters in
/// parentheses, `:` and a return type or neither, and the body in braces.
#[verifier::opaque]
pub open spec fn function(src: Source, pos: nat) -> Parsed<FunctionView> {
    let keyword = expect_keyword(src, pos, Keyword::Func);
    match keyword.result {
        Err(e) => fail(e, keyword.len),
        Ok(_) => {
            let is_async = src.token(pos + 1) == Some(TokenView::Keyword(Keyword::Async));
            let at: nat = if is_async {
                pos + 2
            } else {
                pos + 1
            };
            let name = expect_identifier(src, at);
            match name.result {
                Err(e) => fail(e, (at - pos + name.len) as nat),
                Ok(fnname) => {
                    let sig = signature(src, at + 1, fnname);
                    match sig.result {
                        Err(e) => fail(e, (at - pos + 1 + sig.len) as nat),
                        Ok((arguments, return_type)) => {
                            let open = expect_token(src, at + 1 + sig.len, TokenView::OpenBrace);
                            match open.result {
                                Err(e) => fail(e, (at - pos + 1 + sig.len + open.len) as nat),
                                Ok(_) => {
                                    let body = block(src, at + sig.len + 2, Seq::empty());
                                    let len = (at - pos + sig.len + 2 + body.len) as nat;
                                    match body.result {
                                        Err(e) => fail(e, len),
                                        Ok(statements) => ok(
                                            FunctionView {
                                                is_async,
                                                name: fnname,
                                                return_type,
                                                arguments,
                                                statements,
                                            },
                                            len,
                                        ),
                                    }
                                },
                            }
                        },
                    }
                },
            }
        },
    }
}

/// Whether `token` ends the path of an import while staying in place: one
/// of the keywords `fn`, `const` and `use`.
pub open spec fn ends_import(token: Option<TokenView>) -> bool {
    token == Some(TokenView::Keyword(Keyword::Func)) || token == Some(
        TokenView::Keyword(Keyword::Const),
    ) || token == Some(TokenView::Keyword(Keyword::Use))
}

/// The path of an import after the segments `acc`: identifiers, each with
/// the `::` after it, up to one that `fn`, `const` or `use` follows. A token
/// that stands where an identifier should ends the path too, and is taken.
pub open spec fn import_path(src: Source, pos: nat, acc: Seq<Seq<char>>) -> Parsed<Seq<Seq<char>>>
    decreases src.left(pos),
{
    match src.token(pos) {
        None => fail(absent(ParserDescriptorView::AnyIdentifier), 0),
        Some(TokenView::Identifier(name)) => {
            let next = src.token(pos + 1);
            if ends_import(next) {
                ok(acc.push(name), 1)
            } else {
                let separator: nat = if next == Some(TokenView::DoubleColon) {
                    1
                } else {
                    0
                };
                import_path(src, pos + 1 + separator, acc.push(name)).after(1 + separator)
            }
        },
        Some(_) => ok(acc, 1),
    }
}

/// An import: `use` and a path.
#[verifier::opaque]
pub open spec fn import(src: Source, pos: nat) -> Parsed<ImportView> {
    let keyword: nat = if src.token(pos) == Some(TokenView::Keyword(Keyword::Use)) {
        1
    } else {
        0
    };
    let path = import_path(src, pos + keyword, Seq::empty());
    match path.result {
        Err(e) => fail(e, path.len + keyword),
        Ok(name) => ok(ImportView { name }, path.len + keyword),
    }
}

/// A top-level statement: a constant declaration or an expression.
#[verifier::opaque]
pub open spec fn global(src: Source, pos: nat) -> Parsed<StatementView> {
    if src.token(pos) == Some(TokenView::Keyword(Keyword::Const)) {
        declaration(src, pos + 1, Size::Byte, "&str"@).after(1)
    } else {
        let value = expression(src, pos);
        match value.result {
            Err(e) => fail(e, value.len),
            Ok(v) => ok(StatementView::Exp(v), value.len),
        }
    }
}

/// The program that the tokens from `pos` on write, after the items `acc`:
/// imports, functions and top-level statements in any order, up to the end
/// of the tokens.
pub open spec fn program(src: Source, pos: nat, acc: ProgramView) -> Parsed<ProgramView>
    decreases src.left(pos),
{
    match src.token(pos) {
        None => ok(acc, 0),
        Some(TokenView::Keyword(Keyword::Use)) => {
            let item = import(src, pos);
            match item.result {
                Err(e) => fail(e, item.len),
                Ok(i) => if !src.takes(pos, item.len) {
                    fail(ParseErrorView::Unknown, 0)
                } else {
                    program(
                        src,
                        pos + item.len,
                        ProgramView { imports: acc.imports.push(i), ..acc },
                    ).after(item.len)
                },
            }
        },
        Some(TokenView::Keyword(Keyword::Func)) => {
            let item = function(src, pos);
            match item.result {
                Err(e) => fail(e, item.len),
                Ok(f) => if !src.takes(pos, item.len) {
                    fail(ParseErrorView::Unknown, 0)
                } else {
                    program(
                        src,
                        pos + item.len,
                        ProgramView { func: acc.func.push(f), ..acc },
                    ).after(item.len)
                },
            }
        },
        Some(_) => {
            let item = global(src, pos);
            match item.result {
                Err(e) => fail(e, item.len),
                Ok(s) => if !src.takes(pos, item.len) {
                    fail(ParseErrorView::Unknown, 0)
                } else {
                    program(
                        src,
                        pos + item.len,
                        ProgramView { globals: acc.globals.push(s), ..acc },
                    ).after(item.len)
                },
            }
        },
    }
}

/// The program without any item.
pub open spec fn empty_program() -> ProgramView {
    ProgramView { imports: Seq::empty(), func: Seq::empty(), globals: Seq::empty() }
}

} // verus!
