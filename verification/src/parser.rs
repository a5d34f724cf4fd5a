use vstd::prelude::*;
use crate::errors::{ParseError, ParseErrorView};
use crate::grammar::{
    absent, assignment, binary, binary_tail, block, call_arguments, conditional, conditional_tail,
    declaration, empty_program, expect_identifier, expect_keyword, expect_token, expression,
    factor, function, global, governed, if_statement, import, import_path, ok, operand, parameters,
    program, return_type, signature, statement, step_of, while_statement, Level, Parsed, Source,
};
use crate::ops::{
    expression_views, function_views, import_views, lemma_block_view, lemma_call_view,
    statement_views, string_views, variable_views, BinOp, Expression, ExpressionView, Function,
    Import, Program, ProgramView, Size, Statement, StatementView, Type, UnOp, Variable,
    VariableView,
};
use crate::types::{
    token_views, Keyword, ParserDescriptor, ParserDescriptorView, Token, TokenType, TokenTypeView,
    TokenView, Value,
};

verus! {

/// A cursor over the tokens of one compilation unit, from which `parse`
/// builds the program.
pub struct Parser {
    tokens: Vec<TokenType>,
    pos: usize,
    file: String,
}

/// The views of what a parse function returns.
pub open spec fn outcome<T: View>(res: Result<T, ParseError>) -> Result<T::V, ParseErrorView> {
    match res {
        Ok(value) => Ok(value@),
        Err(e) => Err(e@),
    }
}

/// The views of the expressions that a parse function returns.
pub open spec fn expressions_outcome(res: Result<Vec<Expression>, ParseError>) -> Result<
    Seq<ExpressionView>,
    ParseErrorView,
> {
    match res {
        Ok(values) => Ok(expression_views(values@)),
        Err(e) => Err(e@),
    }
}

/// The views of the statements that a parse function returns.
pub open spec fn statements_outcome(res: Result<Vec<Statement>, ParseError>) -> Result<
    Seq<StatementView>,
    ParseErrorView,
> {
    match res {
        Ok(values) => Ok(statement_views(values@)),
        Err(e) => Err(e@),
    }
}

/// The views of the variables that a parse function returns.
pub open spec fn variables_outcome(res: Result<Vec<Variable>, ParseError>) -> Result<
    Seq<VariableView>,
    ParseErrorView,
> {
    match res {
        Ok(values) => Ok(variable_views(values@)),
        Err(e) => Err(e@),
    }
}

/// The view of the type that a parse function returns.
pub open spec fn type_outcome(res: Result<Type, ParseError>) -> Result<Type, ParseErrorView> {
    match res {
        Ok(t) => Ok(t),
        Err(e) => Err(e@),
    }
}

/// The views of what `parse` returns: the program, and the tokens that it
/// was made from.
pub open spec fn parse_outcome(res: Result<(Program, Vec<TokenType>), ParseError>) -> Result<
    (ProgramView, Seq<TokenTypeView>),
    ParseErrorView,
> {
    match res {
        Ok((program, tokens)) => Ok((program@, token_views(tokens@))),
        Err(e) => Err(e@),
    }
}

/// The views of expressions with one more are the views with one more.
proof fn lemma_expressions_push(s: Seq<Expression>, e: Expression)
    ensures
        expression_views(s.push(e)) == expression_views(s).push(e@),
{
    assert(expression_views(s.push(e)) =~= expression_views(s).push(e@));
}

/// The views of statements with one more are the views with one more.
proof fn lemma_statements_push(s: Seq<Statement>, e: Statement)
    ensures
        statement_views(s.push(e)) == statement_views(s).push(e@),
{
    assert(statement_views(s.push(e)) =~= statement_views(s).push(e@));
}

/// The views of variables with one more are the views with one more.
proof fn lemma_variables_push(s: Seq<Variable>, e: Variable)
    ensures
        variable_views(s.push(e)) == variable_views(s).push(e@),
{
    assert(variable_views(s.push(e)) =~= variable_views(s).push(e@));
}

/// The texts of strings with one more are the texts with one more.
proof fn lemma_strings_push(s: Seq<String>, e: String)
    ensures
        string_views(s.push(e)) == string_views(s).push(e@),
{
    assert(string_views(s.push(e)) =~= string_views(s).push(e@));
}

/// The views of imports with one more are the views with one more.
proof fn lemma_imports_push(s: Seq<Import>, e: Import)
    ensures
        import_views(s.push(e)) == import_views(s).push(e@),
{
    assert(import_views(s.push(e)) =~= import_views(s).push(e@));
}

/// The views of functions with one more are the views with one more.
proof fn lemma_functions_push(s: Seq<Function>, e: Function)
    ensures
        function_views(s.push(e)) == function_views(s).push(e@),
{
    assert(function_views(s.push(e)) =~= function_views(s).push(e@));
}

impl Level {
    /// Whether `token` is an operator of this level.
    pub fn takes(self, token: &Token) -> (r: bool)
        ensures
            r == self.accepts(token@),
    {
        match self {
            Level::Comma => matches!(token, Token::Comma),
            Level::Or => matches!(token, Token::Or),
            Level::And => matches!(token, Token::And),
            Level::BitOr => matches!(token, Token::BitwiseOr),
            Level::BitXor => matches!(token, Token::BitwiseXor),
            Level::BitAnd => matches!(token, Token::BitwiseAnd),
            Level::Equality => matches!(token, Token::Equal | Token::NotEqual),
            Level::Relational => matches!(
                token,
                Token::LessThan | Token::GreaterThan | Token::LessThanOrEqual
                    | Token::GreaterThanOrEqual
            ),
            Level::Shift => matches!(token, Token::BitwiseLeft | Token::BitwiseRight),
            Level::Additive => matches!(token, Token::Negation | Token::Addition),
            Level::Multiplicative => matches!(
                token,
                Token::Multiplication | Token::Division | Token::Modulus
            ),
        }
    }
}

impl Parser {
    /// The cursor lies within the tokens.
    #[verifier::type_invariant]
    spec fn cursor_in_tokens(&self) -> bool {
        self.pos <= self.tokens@.len()
    }

    /// What the parser reads: the views of all its tokens, and the file name.
    pub closed spec fn source(&self) -> Source {
        Source { tokens: token_views(self.tokens@), file: self.file@ }
    }

    /// The number of tokens taken so far.
    pub closed spec fn cursor(&self) -> nat {
        self.pos as nat
    }

    /// The parser `self` is the parser `before` after `len` more tokens
    /// taken.
    spec fn follows(&self, before: &Parser, len: nat) -> bool {
        &&& self.tokens == before.tokens
        &&& self.file == before.file
        &&& self.pos == before.pos + len
    }

    /// The parser `self` is the parser `before` after it has taken what
    /// `expected` says, and `got` is the outcome that `expected` holds.
    spec fn did<T>(
        &self,
        before: &Parser,
        expected: Parsed<T>,
        got: Result<T, ParseErrorView>,
    ) -> bool {
        &&& self.follows(before, expected.len)
        &&& got == expected.result
        &&& !(got matches Err(ParseErrorView::Unknown))
    }

    /// The number of tokens that are left.
    spec fn left(&self) -> nat {
        self.source().left(self.cursor())
    }

    /// A parser at the start of `tokens`, which come from the file `file`.
    pub fn new(tokens: Vec<TokenType>, file: String) -> (parser: Parser)
        ensures
            parser.source() == (Source { tokens: token_views(tokens@), file: file@ }),
            parser.cursor() == 0,
    {
        Parser { tokens, pos: 0, file }
    }

    /// Parses the tokens from the cursor on as a program: imports, functions
    /// and top-level statements, up to the end of the tokens. Returns the
    /// program together with all the tokens of the parser, or the first
    /// error; the cursor stays behind the last token taken.
    pub fn parse(&mut self) -> (res: Result<(Program, Vec<TokenType>), ParseError>)
        ensures
            ({
                let expected = program(old(self).source(), old(self).cursor(), empty_program());
                &&& final(self).source() == old(self).source()
                &&& final(self).cursor() == old(self).cursor() + expected.len
                &&& parse_outcome(res) == match expected.result {
                    Ok(p) => Ok((p, old(self).source().tokens)),
                    Err(e) => Err(e),
                }
                &&& res is Ok ==> final(self).cursor() == old(self).source().tokens.len()
                &&& !(res matches Err(ParseError::Unknown))
            }),
    {
        self.parse_program()
    }

    /// The token under the cursor, which it takes.
    fn next(&mut self) -> (t: Option<TokenType>)
        ensures
            match t {
                Some(t) => old(self).pos < old(self).tokens@.len() && t@ == old(
                    self,
                ).tokens@[old(self).pos as int]@ && final(self).follows(old(self), 1),
                None => old(self).pos >= old(self).tokens@.len() && final(self).follows(
                    old(self),
                    0,
                ),
            },
    {
        proof {
            use_type_invariant(&*self);
        }
        if self.pos < self.tokens.len() {
            let t = self.tokens[self.pos].clone();
            self.pos = self.pos + 1;
            Some(t)
        } else {
            None
        }
    }

    /// The token under the cursor, which stays.
    fn peek(&self) -> (t: Option<&Token>)
        ensures
            match t {
                Some(t) => self.source().token(self.cursor()) == Some(t@),
                None => self.source().token(self.cursor()) is None,
            },
    {
        if self.pos < self.tokens.len() {
            Some(&self.tokens[self.pos].token)
        } else {
            None
        }
    }

    /// The token after the one under the cursor.
    fn peek_second(&self) -> (t: Option<&Token>)
        ensures
            match t {
                Some(t) => self.source().token(self.cursor() + 1) == Some(t@),
                None => self.source().token(self.cursor() + 1) is None,
            },
    {
        proof {
            use_type_invariant(self);
        }
        if self.pos < self.tokens.len() && self.pos + 1 < self.tokens.len() {
            Some(&self.tokens[self.pos + 1].token)
        } else {
            None
        }
    }

    /// The token under the cursor with its text and line, which stays.
    fn peek_tt(&self) -> (t: Option<&TokenType>)
        ensures
            match t {
                Some(t) => self.pos < self.tokens@.len() && *t == self.tokens@[self.pos as int],
                None => self.pos >= self.tokens@.len(),
            },
    {
        if self.pos < self.tokens.len() {
            Some(&self.tokens[self.pos])
        } else {
            None
        }
    }

    /// Takes `count` tokens, or as many as are left.
    fn drop(&mut self, count: usize)
        ensures
            final(self).follows(
                old(self),
                if count <= old(self).left() {
                    count as nat
                } else {
                    old(self).left()
                },
            ),
    {
        proof {
            use_type_invariant(&*self);
        }
        let left = self.tokens.len() - self.pos;
        if count <= left {
            self.pos = self.pos + count;
        } else {
            self.pos = self.tokens.len();
        }
    }

    /// Whether a token is left.
    fn has_more(&self) -> (more: bool)
        ensures
            more == (self.left() > 0),
    {
        proof {
            use_type_invariant(self);
        }
        self.pos < self.tokens.len()
    }

    /// The error for the token `received`, which is not what `expected`
    /// names.
    fn unexpected(&self, expected: ParserDescriptor, received: TokenType) -> (e: ParseError)
        ensures
            e@ == (ParseErrorView::UnexpectedToken {
                expected: expected@,
                received: received@.token,
                linenum: received.linenum,
                filename: self.file@,
            }),
    {
        ParseError::UnexpectedToken {
            expected,
            received: received.token,
            linenum: received.linenum,
            filename: self.file.clone(),
        }
    }

    /// The error for a token on line `linenum` that starts no expression, or
    /// follows a declared name without being `=`.
    fn unassigned(&self, linenum: u32) -> (e: ParseError)
        ensures
            e@ == (ParseErrorView::UnassignedVariable { linenum, filename: self.file@ }),
    {
        ParseError::UnassignedVariable { linenum, filename: self.file.clone() }
    }

    /// Takes the token `token`. Another token is taken too, and is an error.
    fn match_token(&mut self, token: Token) -> (res: Result<Token, ParseError>)
        ensures
            final(self).did(
                old(self),
                expect_token(old(self).source(), old(self).cursor(), token@),
                outcome(res),
            ),
    {
        match self.next() {
            None => Err(ParseError::AbsentToken { expected: ParserDescriptor::Token(token) }),
            Some(t) => {
                if t.token == token {
                    Ok(t.token)
                } else {
                    Err(self.unexpected(ParserDescriptor::Token(token), t))
                }
            },
        }
    }

    /// Whether `token` is under the cursor, which stays: `Ok` with the token
    /// if it is.
    fn peek_token(&self, token: Token) -> (res: Result<Token, ParseError>)
        ensures
            res is Ok <==> self.source().token(self.cursor()) == Some(token@),
            res matches Ok(t) ==> t@ == token@,
            res matches Err(e) ==> e@ == absent(ParserDescriptorView::Token(token@)),
    {
        let found = match self.peek() {
            Some(t) => *t == token,
            None => false,
        };
        if found {
            Ok(token)
        } else {
            Err(ParseError::AbsentToken { expected: ParserDescriptor::Token(token) })
        }
    }

    /// Takes the keyword `keyword`. Another token is taken too, and is an
    /// error.
    fn match_keyword(&mut self, keyword: &Keyword) -> (res: Result<(), ParseError>)
        ensures
            final(self).did(
                old(self),
                expect_keyword(old(self).source(), old(self).cursor(), *keyword),
                match res {
                    Ok(_) => Ok(()),
                    Err(e) => Err(e@),
                },
            ),
    {
        match self.next() {
            None => Err(ParseError::AbsentToken { expected: ParserDescriptor::Newline }),
            Some(t) => {
                let found = match &t.token {
                    Token::Keyword(k) => *k == *keyword,
                    _ => false,
                };
                if found {
                    Ok(())
                } else {
                    Err(self.unexpected(ParserDescriptor::Newline, t))
                }
            },
        }
    }

    /// Takes an identifier. Another token is taken too, and is an error.
    fn match_identifier(&mut self) -> (res: Result<String, ParseError>)
        ensures
            final(self).did(
                old(self),
                expect_identifier(old(self).source(), old(self).cursor()),
                outcome(res),
            ),
    {
        match self.next() {
            None => Err(ParseError::AbsentToken { expected: ParserDescriptor::AnyIdentifier }),
            Some(t) => {
                match t.token {
                    Token::Identifier(name) => Ok(name),
                    other => Err(
                        self.unexpected(
                            ParserDescriptor::AnyIdentifier,
                            TokenType { token: other, val: t.val, linenum: t.linenum },
                        ),
                    ),
                }
            },
        }
    }
}

impl Parser {
    /// As `did`, for a construct that takes at least one token where it is
    /// parsed with success.
    spec fn did_take<T>(
        &self,
        before: &Parser,
        expected: Parsed<T>,
        got: Result<T, ParseErrorView>,
    ) -> bool {
        &&& self.did(before, expected, got)
        &&& got is Ok ==> expected.len >= 1
    }

    /// Takes the `++` or `--` that follows, or the name after it, and builds
    /// the assignment that it stands for.
    fn parse_inc_op(&mut self, bin_op: BinOp, name: String, postfix: bool) -> (res: Result<
        Expression,
        ParseError,
    >)
        requires
            old(self).left() > 0,
        ensures
            final(self).follows(old(self), 1),
            res matches Ok(e) && e@ == if postfix {
                ExpressionView::AssignPostfix(name@, Box::new(step_of(bin_op, name@)))
            } else {
                ExpressionView::Assign(name@, Box::new(step_of(bin_op, name@)))
            },
    {
        self.drop(1);
        let exp = Expression::BinOp(
            bin_op,
            Box::new(Expression::Variable(name.clone())),
            Box::new(Expression::Int(1)),
        );
        proof {
            reveal_with_fuel(Expression::model, 3);
        }
        if postfix {
            Ok(Expression::AssignPostfix(name, Box::new(exp)))
        } else {
            Ok(Expression::Assign(name, Box::new(exp)))
        }
    }

    /// The value of a compound assignment to `name`, which stands for
    /// `name = name op value`.
    fn parse_assign_op(&mut self, bin_op: BinOp, name: String) -> (res: Result<
        Expression,
        ParseError,
    >)
        ensures
            ({
                let value = expression(old(self).source(), old(self).cursor());
                final(self).did_take(
                    old(self),
                    Parsed {
                        result: match value.result {
                            Ok(v) => Ok(
                                ExpressionView::Assign(
                                    name@,
                                    Box::new(
                                        ExpressionView::BinOp(
                                            bin_op,
                                            Box::new(ExpressionView::Variable(name@)),
                                            Box::new(v),
                                        ),
                                    ),
                                ),
                            ),
                            Err(e) => Err(e),
                        },
                        len: value.len,
                    },
                    outcome(res),
                )
            }),
        decreases old(self).left(), 54nat,
    {
        let value = match self.parse_expression() {
            Ok(v) => v,
            Err(e) => {
                return Err(e);
            },
        };
        let exp = Expression::BinOp(
            bin_op,
            Box::new(Expression::Variable(name.clone())),
            Box::new(value),
        );
        proof {
            reveal_with_fuel(Expression::model, 3);
        }
        Ok(Expression::Assign(name, Box::new(exp)))
    }

    /// An expression.
    fn parse_expression(&mut self) -> (res: Result<Expression, ParseError>)
        ensures
            final(self).did_take(
                old(self),
                expression(old(self).source(), old(self).cursor()),
                outcome(res),
            ),
        decreases old(self).left(), 53nat,
    {
        self.parse_comma_expression()
    }

    /// A chain of assignment expressions joined by `,`.
    fn parse_comma_expression(&mut self) -> (res: Result<Expression, ParseError>)
        ensures
            final(self).did_take(
                old(self),
                binary(old(self).source(), old(self).cursor(), Level::Comma),
                outcome(res),
            ),
        decreases old(self).left(), 52nat,
    {
        self.parse_gen_experssion(Level::Comma)
    }

    /// An assignment, a compound assignment, or else a conditional
    /// expression.
    #[verifier::rlimit(80)]
    #[verifier::spinoff_prover]
    fn parse_assignment_expression(&mut self) -> (res: Result<Expression, ParseError>)
        ensures
            final(self).did_take(
                old(self),
                assignment(old(self).source(), old(self).cursor()),
                outcome(res),
            ),
        decreases old(self).left(), 47nat,
    {
        let target: Option<(String, Option<BinOp>)> = match self.peek() {
            Some(Token::Identifier(name)) => match self.peek_second() {
                Some(Token::Assign) => Some((name.clone(), None)),
                Some(second) => match BinOp::from_compound_assignment(second) {
                    Some(op) => Some((name.clone(), Some(op))),
                    None => None,
                },
                None => None,
            },
            _ => None,
        };
        match target {
            Some((name, None)) => {
                self.drop(2);
                match self.parse_expression() {
                    Ok(value) => Ok(Expression::Assign(name, Box::new(value))),
                    Err(e) => Err(e),
                }
            },
            Some((name, Some(op))) => {
                self.drop(2);
                self.parse_assign_op(op, name)
            },
            None => self.parse_conditional_expression(),
        }
    }

    /// A ternary chain, or just its condition.
    #[verifier::rlimit(80)]
    #[verifier::spinoff_prover]
    fn parse_conditional_expression(&mut self) -> (res: Result<Expression, ParseError>)
        ensures
            final(self).did_take(
                old(self),
                conditional(old(self).source(), old(self).cursor()),
                outcome(res),
            ),
        decreases old(self).left(), 43nat,
    {
        let ghost src = self.source();
        let ghost start = self.cursor();
        let mut term = match self.parse_or_expression() {
            Ok(t) => t,
            Err(e) => {
                return Err(e);
            },
        };
        loop
            invariant
                self.follows(old(self), (self.cursor() - start) as nat),
                src == old(self).source(),
                start == old(self).cursor(),
                start < self.cursor(),
                conditional(src, start) == conditional_tail(src, self.cursor(), term@).after(
                    (self.cursor() - start) as nat,
                ),
            ensures
                conditional(src, start) == ok(
                    term@,
                    (self.cursor() - start) as nat,
                ),
            decreases self.left(),
        {
            proof {
                use_type_invariant(&*self);
            }
            let question = match self.peek() {
                Some(Token::Question) => true,
                _ => false,
            };
            if !question {
                break ;
            }
            self.drop(1);
            let body = match self.parse_expression() {
                Ok(v) => v,
                Err(e) => {
                    return Err(e);
                },
            };
            match self.match_token(Token::Colon) {
                Ok(_) => {},
                Err(e) => {
                    return Err(e);
                },
            }
            let else_body = match self.parse_expression() {
                Ok(v) => v,
                Err(e) => {
                    return Err(e);
                },
            };
            term = Expression::Ternary(Box::new(term), Box::new(body), Box::new(else_body));
        }
        Ok(term)
    }
}

impl Parser {
    /// A chain joined by `||`.
    fn parse_or_expression(&mut self) -> (res: Result<Expression, ParseError>)
        ensures
            final(self).did_take(
                old(self),
                binary(old(self).source(), old(self).cursor(), Level::Or),
                outcome(res),
            ),
        decreases old(self).left(), 40nat,
    {
        self.parse_gen_experssion(Level::Or)
    }

    /// A chain joined by `&&`.
    fn parse_logical_and_expression(&mut self) -> (res: Result<Expression, ParseError>)
        ensures
            final(self).did_take(
                old(self),
                binary(old(self).source(), old(self).cursor(), Level::And),
                outcome(res),
            ),
        decreases old(self).left(), 36nat,
    {
        self.parse_gen_experssion(Level::And)
    }

    /// A chain joined by `|`.
    fn parse_bitwise_or_expression(&mut self) -> (res: Result<Expression, ParseError>)
        ensures
            final(self).did_take(
                old(self),
                binary(old(self).source(), old(self).cursor(), Level::BitOr),
                outcome(res),
            ),
        decreases old(self).left(), 32nat,
    {
        self.parse_gen_experssion(Level::BitOr)
    }

    /// A chain joined by `^`.
    fn parse_bitwise_xor_expression(&mut self) -> (res: Result<Expression, ParseError>)
        ensures
            final(self).did_take(
                old(self),
                binary(old(self).source(), old(self).cursor(), Level::BitXor),
                outcome(res),
            ),
        decreases old(self).left(), 28nat,
    {
        self.parse_gen_experssion(Level::BitXor)
    }

    /// A chain joined by `&`.
    fn parse_bitwise_and_expression(&mut self) -> (res: Result<Expression, ParseError>)
        ensures
            final(self).did_take(
                old(self),
                binary(old(self).source(), old(self).cursor(), Level::BitAnd),
                outcome(res),
            ),
        decreases old(self).left(), 24nat,
    {
        self.parse_gen_experssion(Level::BitAnd)
    }

    /// A chain joined by `==` and `!=`.
    fn parse_equality_expression(&mut self) -> (res: Result<Expression, ParseError>)
        ensures
            final(self).did_take(
                old(self),
                binary(old(self).source(), old(self).cursor(), Level::Equality),
                outcome(res),
            ),
        decreases old(self).left(), 20nat,
    {
        self.parse_gen_experssion(Level::Equality)
    }

    /// A chain joined by `<`, `>`, `<=` and `>=`.
    fn parse_relational_expression(&mut self) -> (res: Result<Expression, ParseError>)
        ensures
            final(self).did_take(
                old(self),
                binary(old(self).source(), old(self).cursor(), Level::Relational),
                outcome(res),
            ),
        decreases old(self).left(), 16nat,
    {
        self.parse_gen_experssion(Level::Relational)
    }

    /// A chain joined by `<<` and `>>`.
    fn parse_bitshift_expression(&mut self) -> (res: Result<Expression, ParseError>)
        ensures
            final(self).did_take(
                old(self),
                binary(old(self).source(), old(self).cursor(), Level::Shift),
                outcome(res),
            ),
        decreases old(self).left(), 12nat,
    {
        self.parse_gen_experssion(Level::Shift)
    }

    /// A chain joined by `+` and `-`.
    fn parse_additive_expression(&mut self) -> (res: Result<Expression, ParseError>)
        ensures
            final(self).did_take(
                old(self),
                binary(old(self).source(), old(self).cursor(), Level::Additive),
                outcome(res),
            ),
        decreases old(self).left(), 8nat,
    {
        self.parse_gen_experssion(Level::Additive)
    }

    /// A chain joined by `*`, `/` and `%`.
    fn parse_multiplicative_expression(&mut self) -> (res: Result<Expression, ParseError>)
        ensures
            final(self).did_take(
                old(self),
                binary(old(self).source(), old(self).cursor(), Level::Multiplicative),
                outcome(res),
            ),
        decreases old(self).left(), 4nat,
    {
        self.parse_gen_experssion(Level::Multiplicative)
    }

    /// An operand of a binary operator of `level`.
    fn parse_operand(&mut self, level: Level) -> (res: Result<Expression, ParseError>)
        ensures
            final(self).did_take(
                old(self),
                operand(old(self).source(), old(self).cursor(), level),
                outcome(res),
            ),
        decreases old(self).left(), 4 * level.height() + 1,
    {
        match level {
            Level::Comma => self.parse_assignment_expression(),
            Level::Or => self.parse_logical_and_expression(),
            Level::And => self.parse_bitwise_or_expression(),
            Level::BitOr => self.parse_bitwise_xor_expression(),
            Level::BitXor => self.parse_bitwise_and_expression(),
            Level::BitAnd => self.parse_equality_expression(),
            Level::Equality => self.parse_relational_expression(),
            Level::Relational => self.parse_bitshift_expression(),
            Level::Shift => self.parse_additive_expression(),
            Level::Additive => self.parse_multiplicative_expression(),
            Level::Multiplicative => self.parse_factor(),
        }
    }

    /// A chain of operands joined by operators of `level`, which associate
    /// to the left.
    #[verifier::rlimit(80)]
    #[verifier::spinoff_prover]
    fn parse_gen_experssion(&mut self, level: Level) -> (res: Result<Expression, ParseError>)
        ensures
            final(self).did_take(
                old(self),
                binary(old(self).source(), old(self).cursor(), level),
                outcome(res),
            ),
        decreases old(self).left(), 4 * level.height() + 3,
    {
        let ghost src = self.source();
        let ghost start = self.cursor();
        let mut term = match self.parse_operand(level) {
            Ok(t) => t,
            Err(e) => {
                return Err(e);
            },
        };
        loop
            invariant
                self.follows(old(self), (self.cursor() - start) as nat),
                src == old(self).source(),
                start == old(self).cursor(),
                start < self.cursor(),
                binary(src, start, level) == binary_tail(src, self.cursor(), level, term@).after(
                    (self.cursor() - start) as nat,
                ),
            ensures
                binary(src, start, level) == ok(
                    term@,
                    (self.cursor() - start) as nat,
                ),
            decreases self.left(),
        {
            proof {
                use_type_invariant(&*self);
            }
            let op = match self.peek() {
                Some(token) => if level.takes(token) {
                    BinOp::from_token(token)
                } else {
                    None
                },
                None => None,
            };
            let op = match op {
                Some(op) => op,
                None => {
                    break ;
                },
            };
            self.drop(1);
            let next_term = match self.parse_operand(level) {
                Ok(t) => t,
                Err(e) => {
                    return Err(e);
                },
            };
            term = Expression::BinOp(op, Box::new(term), Box::new(next_term));
        }
        Ok(term)
    }

    /// A primary expression with its prefix and postfix operators.
    #[verifier::rlimit(80)]
    #[verifier::spinoff_prover]
    fn parse_factor(&mut self) -> (res: Result<Expression, ParseError>)
        ensures
            final(self).did_take(
                old(self),
                factor(old(self).source(), old(self).cursor()),
                outcome(res),
            ),
        decreases old(self).left(), 0nat,
    {
        let first = match self.next() {
            Some(t) => t,
            None => {
                return Err(ParseError::AbsentToken { expected: ParserDescriptor::AnyVariable });
            },
        };
        proof {
            use_type_invariant(&*self);
        }
        let line = first.linenum;
        match first.token {
            Token::Literal(value) => match value {
                Value::Char(text) => Ok(Expression::Char(text)),
                Value::MLStr(text) => Ok(Expression::MLStr(text)),
                Value::Int(n) => Ok(Expression::Int(n)),
            },
            Token::Keyword(Keyword::True) => Ok(Expression::Bool(true)),
            Token::Keyword(Keyword::False) => Ok(Expression::Bool(false)),
            Token::Identifier(name) => {
                let follow: u8 = match self.peek() {
                    Some(Token::Increment) => 1,
                    Some(Token::Decrement) => 2,
                    Some(Token::OpenParen) => 3,
                    _ => 0,
                };
                if follow == 1 {
                    self.parse_inc_op(BinOp::Addition, name, true)
                } else if follow == 2 {
                    self.parse_inc_op(BinOp::Subtraction, name, true)
                } else if follow == 3 {
                    match self.parse_function_arguments() {
                        Ok(args) => {
                            proof {
                                lemma_call_view(name, args);
                            }
                            Ok(Expression::FunctionCall(name, args))
                        },
                        Err(e) => Err(e),
                    }
                } else {
                    Ok(Expression::Variable(name))
                }
            },
            Token::Increment => {
                let name = match self.peek() {
                    Some(Token::Identifier(name)) => Some(name.clone()),
                    _ => None,
                };
                match name {
                    Some(name) => self.parse_inc_op(BinOp::Addition, name, false),
                    None => Err(self.unassigned(line)),
                }
            },
            Token::Decrement => {
                let name = match self.peek() {
                    Some(Token::Identifier(name)) => Some(name.clone()),
                    _ => None,
                };
                match name {
                    Some(name) => self.parse_inc_op(BinOp::Subtraction, name, false),
                    None => Err(self.unassigned(line)),
                }
            },
            Token::OpenParen => {
                let value = match self.parse_expression() {
                    Ok(v) => v,
                    Err(e) => {
                        return Err(e);
                    },
                };
                match self.match_token(Token::CloseParen) {
                    Ok(_) => Ok(value),
                    Err(e) => Err(e),
                }
            },
            Token::BitwiseAnd => match self.next() {
                None => Err(ParseError::AbsentToken { expected: ParserDescriptor::AnyVariable }),
                Some(t) => match t.token {
                    Token::Identifier(name) => Ok(Expression::VariableRef(name)),
                    other => Err(
                        self.unexpected(
                            ParserDescriptor::AnyVariable,
                            TokenType { token: other, val: t.val, linenum: t.linenum },
                        ),
                    ),
                },
            },
            other => match UnOp::from_token(&other) {
                Some(op) => match self.parse_factor() {
                    Ok(value) => Ok(Expression::UnOp(op, Box::new(value))),
                    Err(e) => Err(e),
                },
                None => Err(self.unassigned(line)),
            },
        }
    }

    /// The arguments of a call, whose `(` is under the cursor.
    #[verifier::rlimit(80)]
    #[verifier::spinoff_prover]
    fn parse_function_arguments(&mut self) -> (res: Result<Vec<Expression>, ParseError>)
        requires
            old(self).left() > 0,
        ensures
            final(self).did_take(
                old(self),
                call_arguments(old(self).source(), old(self).cursor() + 1, Seq::empty()).after(1),
                expressions_outcome(res),
            ),
        decreases old(self).left(), 54nat,
    {
        let ghost src = self.source();
        let ghost start = self.cursor() + 1;
        let mut arguments: Vec<Expression> = Vec::new();
        self.drop(1);
        assert(expression_views(arguments@) =~= Seq::empty());
        loop
            invariant_except_break
                call_arguments(src, start, Seq::empty()) == call_arguments(
                    src,
                    self.cursor(),
                    expression_views(arguments@),
                ).after((self.cursor() - start) as nat),
            invariant
                self.follows(old(self), (self.cursor() - old(self).cursor()) as nat),
                src == old(self).source(),
                start == old(self).cursor() + 1,
                start <= self.cursor(),
            ensures
                self.follows(old(self), (self.cursor() - old(self).cursor()) as nat),
                call_arguments(src, start, Seq::empty()) == ok(
                    expression_views(arguments@),
                    (self.cursor() - start) as nat,
                ),
            decreases self.left(),
        {
            proof {
                use_type_invariant(&*self);
            }
            let closed = match self.peek() {
                Some(Token::CloseParen) => true,
                _ => false,
            };
            if closed {
                self.drop(1);
                break ;
            }
            let ghost before = *self;
            let exp = match self.parse_assignment_expression() {
                Ok(v) => v,
                Err(e) => {
                    return Err(e);
                },
            };
            proof {
                use_type_invariant(&*self);
                lemma_expressions_push(arguments@, exp);
            }
            arguments.push(exp);
            let comma = match self.peek() {
                Some(Token::Comma) => true,
                _ => false,
            };
            if comma {
                self.drop(1);
            }
        }
        Ok(arguments)
    }
}

impl Parser {
    /// The rest of a declaration after its keyword.
    #[verifier::rlimit(80)]
    #[verifier::spinoff_prover]
    fn parse_declare(&mut self, size: Size, t: &str) -> (res: Result<Statement, ParseError>)
        ensures
            final(self).did_take(
                old(self),
                declaration(old(self).source(), old(self).cursor(), size, t@),
                outcome(res),
            ),
        decreases old(self).left(), 60nat,
    {
        let first = match self.next() {
            Some(t) => t,
            None => {
                return Err(ParseError::AbsentToken { expected: ParserDescriptor::AnyIdentifier });
            },
        };
        proof {
            use_type_invariant(&*self);
        }
        let assigned = match self.peek() {
            Some(Token::Assign) => true,
            _ => false,
        };
        match first.token {
            Token::Identifier(name) => {
                if assigned {
                    self.drop(1);
                    match self.parse_expression() {
                        Ok(value) => Ok(
                            Statement::Declare(
                                Variable { name, t: t.to_owned(), size },
                                Some(value),
                            ),
                        ),
                        Err(e) => Err(e),
                    }
                } else {
                    Err(self.unassigned(first.linenum))
                }
            },
            _ => Err(self.unassigned(first.linenum)),
        }
    }

    /// A statement.
    #[verifier::rlimit(80)]
    #[verifier::spinoff_prover]
    fn parse_statement(&mut self) -> (res: Result<Statement, ParseError>)
        ensures
            final(self).did_take(
                old(self),
                statement(old(self).source(), old(self).cursor()),
                outcome(res),
            ),
        decreases old(self).left(), 61nat,
    {
        proof {
            use_type_invariant(&*self);
        }
        let kind: u8 = match self.peek() {
            Some(Token::Keyword(Keyword::Int)) => 1,
            Some(Token::Keyword(Keyword::Let)) => 2,
            Some(Token::Keyword(Keyword::Bool)) => 3,
            Some(Token::Keyword(Keyword::Const)) => 4,
            Some(Token::Keyword(Keyword::String)) => 5,
            Some(Token::Keyword(Keyword::Return)) => 6,
            Some(Token::Keyword(Keyword::If)) => 7,
            Some(Token::Keyword(Keyword::While)) => 8,
            Some(Token::OpenBrace) => 9,
            _ => 0,
        };
        if kind == 0 {
            match self.parse_expression() {
                Ok(value) => Ok(Statement::Exp(value)),
                Err(e) => Err(e),
            }
        } else {
            self.drop(1);
            if kind == 1 {
                self.parse_declare(Size::Int, "int")
            } else if kind == 2 {
                self.parse_declare(Size::Byte, "")
            } else if kind == 3 {
                self.parse_declare(Size::Byte, "bool")
            } else if kind == 4 {
                self.parse_declare(Size::Byte, "")
            } else if kind == 5 {
                self.parse_declare(Size::Byte, "str")
            } else if kind == 6 {
                match self.parse_expression() {
                    Ok(value) => Ok(Statement::Return(value)),
                    Err(e) => Err(e),
                }
            } else if kind == 7 {
                self.parse_if_statement()
            } else if kind == 8 {
                self.parse_while_statement()
            } else {
                self.parse_compond_statement()
            }
        }
    }

    /// The statements of a block, after its `{`, up to the `}`, which is
    /// taken.
    #[verifier::rlimit(80)]
    #[verifier::spinoff_prover]
    fn parse_block(&mut self) -> (res: Result<Vec<Statement>, ParseError>)
        ensures
            final(self).did_take(
                old(self),
                block(old(self).source(), old(self).cursor(), Seq::empty()),
                statements_outcome(res),
            ),
        decreases old(self).left(), 62nat,
    {
        let ghost src = self.source();
        let ghost start = self.cursor();
        let mut statements: Vec<Statement> = Vec::new();
        assert(statement_views(statements@) =~= Seq::empty());
        loop
            invariant_except_break
                block(src, start, Seq::empty()) == block(
                    src,
                    self.cursor(),
                    statement_views(statements@),
                ).after((self.cursor() - start) as nat),
            invariant
                self.follows(old(self), (self.cursor() - start) as nat),
                src == old(self).source(),
                start == old(self).cursor(),
                start <= self.cursor(),
            ensures
                self.follows(old(self), (self.cursor() - start) as nat),
                self.cursor() > start,
                block(src, start, Seq::empty()) == ok(
                    statement_views(statements@),
                    (self.cursor() - start) as nat,
                ),
            decreases self.left(),
        {
            proof {
                use_type_invariant(&*self);
            }
            let closed = match self.peek_token(Token::CloseBrace) {
                Ok(_) => true,
                Err(_) => false,
            };
            if closed {
                self.drop(1);
                break ;
            }
            let statement = match self.parse_statement() {
                Ok(s) => s,
                Err(e) => {
                    return Err(e);
                },
            };
            proof {
                use_type_invariant(&*self);
                lemma_statements_push(statements@, statement);
            }
            statements.push(statement);
        }
        Ok(statements)
    }

    /// A block, after its `{`.
    fn parse_compond_statement(&mut self) -> (res: Result<Statement, ParseError>)
        ensures
            ({
                let body = block(old(self).source(), old(self).cursor(), Seq::empty());
                final(self).did_take(
                    old(self),
                    Parsed {
                        result: match body.result {
                            Ok(statements) => Ok(StatementView::Compound(statements)),
                            Err(e) => Err(e),
                        },
                        len: body.len,
                    },
                    outcome(res),
                )
            }),
        decreases old(self).left(), 63nat,
    {
        match self.parse_block() {
            Ok(statements) => {
                proof {
                    lemma_block_view(statements);
                }
                Ok(Statement::Compound(statements))
            },
            Err(e) => Err(e),
        }
    }

    /// The condition of an `if` or a `while` in parentheses, and the
    /// statement that it governs.
    #[verifier::rlimit(80)]
    #[verifier::spinoff_prover]
    fn parse_governed(&mut self) -> (res: Result<(Expression, Statement), ParseError>)
        ensures
            final(self).did_take(
                old(self),
                governed(old(self).source(), old(self).cursor()),
                match res {
                    Ok((cond, body)) => Ok((cond@, body@)),
                    Err(e) => Err(e@),
                },
            ),
        decreases old(self).left(), 58nat,
    {
        let first = match self.next() {
            Some(t) => t,
            None => {
                return Err(
                    ParseError::AbsentToken {
                        expected: ParserDescriptor::Token(Token::OpenParen),
                    },
                );
            },
        };
        proof {
            use_type_invariant(&*self);
        }
        match first.token {
            Token::OpenParen => {
                let cond = match self.parse_expression() {
                    Ok(v) => v,
                    Err(e) => {
                        return Err(e);
                    },
                };
                match self.match_token(Token::CloseParen) {
                    Ok(_) => {},
                    Err(e) => {
                        return Err(e);
                    },
                }
                match self.parse_statement() {
                    Ok(body) => Ok((cond, body)),
                    Err(e) => Err(e),
                }
            },
            other => Err(
                self.unexpected(
                    ParserDescriptor::Token(Token::OpenParen),
                    TokenType { token: other, val: first.val, linenum: first.linenum },
                ),
            ),
        }
    }

    /// The rest of an `if` statement after its keyword.
    #[verifier::rlimit(80)]
    #[verifier::spinoff_prover]
    fn parse_if_statement(&mut self) -> (res: Result<Statement, ParseError>)
        ensures
            final(self).did_take(
                old(self),
                if_statement(old(self).source(), old(self).cursor()),
                outcome(res),
            ),
        decreases old(self).left(), 59nat,
    {
        let (cond, then) = match self.parse_governed() {
            Ok(head) => head,
            Err(e) => {
                return Err(e);
            },
        };
        proof {
            use_type_invariant(&*self);
        }
        let has_else = match self.peek() {
            Some(Token::Keyword(Keyword::Else)) => true,
            _ => false,
        };
        if has_else {
            self.drop(1);
            match self.parse_statement() {
                Ok(else_body) => Ok(
                    Statement::If(cond, Box::new(then), Some(Box::new(else_body))),
                ),
                Err(e) => Err(e),
            }
        } else {
            Ok(Statement::If(cond, Box::new(then), None))
        }
    }

    /// The rest of a `while` statement after its keyword.
    fn parse_while_statement(&mut self) -> (res: Result<Statement, ParseError>)
        ensures
            final(self).did_take(
                old(self),
                while_statement(old(self).source(), old(self).cursor()),
                outcome(res),
            ),
        decreases old(self).left(), 59nat,
    {
        match self.parse_governed() {
            Ok((cond, body)) => Ok(Statement::While(cond, Box::new(body))),
            Err(e) => Err(e),
        }
    }

    /// The parameters of a function, up to the `)`, which stays.
    #[verifier::rlimit(80)]
    #[verifier::spinoff_prover]
    fn parse_arguments(&mut self) -> (res: Result<Vec<Variable>, ParseError>)
        ensures
            final(self).did(
                old(self),
                parameters(old(self).source(), old(self).cursor(), Seq::empty()),
                variables_outcome(res),
            ),
    {
        let ghost src = self.source();
        let ghost start = self.cursor();
        let mut arguments: Vec<Variable> = Vec::new();
        assert(variable_views(arguments@) =~= Seq::empty());
        loop
            invariant_except_break
                parameters(src, start, Seq::empty()) == parameters(
                    src,
                    self.cursor(),
                    variable_views(arguments@),
                ).after((self.cursor() - start) as nat),
            invariant
                self.follows(old(self), (self.cursor() - start) as nat),
                src == old(self).source(),
                start == old(self).cursor(),
                start <= self.cursor(),
            ensures
                self.follows(old(self), (self.cursor() - start) as nat),
                parameters(src, start, Seq::empty()) == ok(
                    variable_views(arguments@),
                    (self.cursor() - start) as nat,
                ),
            decreases self.left(),
        {
            proof {
                use_type_invariant(&*self);
            }
            let closed = match self.peek_token(Token::CloseParen) {
                Ok(_) => true,
                Err(_) => false,
            };
            if closed {
                break ;
            }
            let name = match self.match_identifier() {
                Ok(n) => n,
                Err(e) => {
                    return Err(e);
                },
            };
            match self.match_token(Token::Colon) {
                Ok(_) => {},
                Err(e) => {
                    return Err(e);
                },
            }
            let found = match self.next() {
                Some(t) => t,
                None => {
                    return Err(ParseError::AbsentToken { expected: ParserDescriptor::NoToken });
                },
            };
            let (t, size) = match found.token {
                Token::Keyword(Keyword::Int) => ("int", Size::Int),
                Token::Keyword(Keyword::String) => ("str", Size::Byte),
                Token::Keyword(Keyword::MLstr) => ("mlstr", Size::Byte),
                Token::Keyword(Keyword::Bool) => ("bool", Size::Byte),
                _ => {
                    return Err(
                        ParseError::UnexpectedType {
                            expected: Type::Int,
                            received: Type::Char,
                            linenum: found.linenum,
                            filename: self.file.clone(),
                        },
                    );
                },
            };
            let variable = Variable { name, t: t.to_owned(), size };
            proof {
                use_type_invariant(&*self);
                lemma_variables_push(arguments@, variable);
            }
            arguments.push(variable);
            let comma = match self.peek() {
                Some(Token::Comma) => true,
                _ => false,
            };
            if comma {
                self.drop(1);
            }
        }
        Ok(arguments)
    }

    /// The return type of the function `fnname`, after the `:`.
    fn parse_return(&mut self, fnname: &str) -> (res: Result<Type, ParseError>)
        ensures
            final(self).did(
                old(self),
                return_type(old(self).source(), old(self).cursor(), fnname@),
                type_outcome(res),
            ),
    {
        let found: Option<(Option<Type>, u32)> = match self.peek_tt() {
            None => None,
            Some(t) => Some(
                (
                    match &t.token {
                        Token::Keyword(Keyword::Bool) => Some(Type::Bool),
                        Token::Keyword(Keyword::MLstr) => Some(Type::Mlstr),
                        Token::Keyword(Keyword::Int) => Some(Type::Int),
                        Token::Keyword(Keyword::String) => Some(Type::Str),
                        Token::Keyword(Keyword::Void) => Some(Type::Void),
                        _ => None,
                    },
                    t.linenum,
                ),
            ),
        };
        match found {
            None => Err(ParseError::AbsentToken { expected: ParserDescriptor::NoToken }),
            Some((Some(ty), _)) => {
                self.drop(1);
                Ok(ty)
            },
            Some((None, linenum)) => Err(
                ParseError::AbsentReturnType {
                    fnname: fnname.to_owned(),
                    linenum,
                    filename: self.file.clone(),
                },
            ),
        }
    }

    /// The parameters in parentheses and the return type of the function
    /// `fnname`.
    #[verifier::rlimit(80)]
    #[verifier::spinoff_prover]
    fn parse_signature(&mut self, fnname: &str) -> (res: Result<(Vec<Variable>, Type), ParseError>)
        ensures
            final(self).did(
                old(self),
                signature(old(self).source(), old(self).cursor(), fnname@),
                match res {
                    Ok((arguments, t)) => Ok((variable_views(arguments@), t)),
                    Err(e) => Err(e@),
                },
            ),
    {
        match self.match_token(Token::OpenParen) {
            Ok(_) => {},
            Err(e) => {
                return Err(e);
            },
        }
        let arguments = match self.parse_arguments() {
            Ok(a) => a,
            Err(e) => {
                return Err(e);
            },
        };
        match self.match_token(Token::CloseParen) {
            Ok(_) => {},
            Err(e) => {
                return Err(e);
            },
        }
        let typed = match self.peek() {
            Some(Token::Colon) => true,
            _ => false,
        };
        if typed {
            self.drop(1);
            match self.parse_return(fnname) {
                Ok(t) => Ok((arguments, t)),
                Err(e) => Err(e),
            }
        } else {
            Ok((arguments, Type::Void))
        }
    }

    /// A function.
    #[verifier::rlimit(80)]
    #[verifier::spinoff_prover]
    fn parse_function(&mut self) -> (res: Result<Function, ParseError>)
        ensures
            final(self).did_take(
                old(self),
                function(old(self).source(), old(self).cursor()),
                outcome(res),
            ),
    {
        reveal(function);
        match self.match_keyword(&Keyword::Func) {
            Ok(_) => {},
            Err(e) => {
                return Err(e);
            },
        }
        let is_async = match self.peek() {
            Some(Token::Keyword(Keyword::Async)) => true,
            _ => false,
        };
        if is_async {
            self.drop(1);
        }
        let name = match self.match_identifier() {
            Ok(n) => n,
            Err(e) => {
                return Err(e);
            },
        };
        let (arguments, return_type) = match self.parse_signature(name.as_str()) {
            Ok(sig) => sig,
            Err(e) => {
                return Err(e);
            },
        };
        match self.match_token(Token::OpenBrace) {
            Ok(_) => {},
            Err(e) => {
                return Err(e);
            },
        }
        match self.parse_block() {
            Ok(statements) => Ok(Function { is_async, name, return_type, arguments, statements }),
            Err(e) => Err(e),
        }
    }

    /// An import: `use` and a path.
    #[verifier::rlimit(80)]
    #[verifier::spinoff_prover]
    fn parse_import_statement(&mut self) -> (res: Result<Import, ParseError>)
        ensures
            final(self).did(
                old(self),
                import(old(self).source(), old(self).cursor()),
                outcome(res),
            ),
            old(self).source().token(old(self).cursor()) == Some(
                TokenView::Keyword(Keyword::Use),
            ) && res is Ok ==> final(self).cursor() > old(self).cursor(),
    {
        reveal(import);
        let ghost src = self.source();
        let keyword = match self.peek() {
            Some(Token::Keyword(Keyword::Use)) => true,
            _ => false,
        };
        if keyword {
            self.drop(1);
        }
        let ghost start = self.cursor();
        let mut imports: Vec<String> = Vec::new();
        let mut done = false;
        assert(string_views(imports@) =~= Seq::empty());
        while !done
            invariant
                self.follows(old(self), (self.cursor() - old(self).cursor()) as nat),
                src == old(self).source(),
                old(self).cursor() <= start <= self.cursor(),
                start == old(self).cursor() + if src.token(old(self).cursor()) == Some(
                    TokenView::Keyword(Keyword::Use),
                ) {
                    1nat
                } else {
                    0nat
                },
                done ==> self.cursor() > start,
                done ==> import_path(src, start, Seq::empty()) == ok(
                    string_views(imports@),
                    (self.cursor() - start) as nat,
                ),
                !done ==> import_path(src, start, Seq::empty()) == import_path(
                    src,
                    self.cursor(),
                    string_views(imports@),
                ).after((self.cursor() - start) as nat),
            decreases self.left() + if done { 0nat } else { 1nat },
        {
            reveal(import);
            proof {
                use_type_invariant(&*self);
            }
            let found = match self.next() {
                Some(t) => t,
                None => {
                    return Err(
                        ParseError::AbsentToken { expected: ParserDescriptor::AnyIdentifier },
                    );
                },
            };
            proof {
                use_type_invariant(&*self);
            }
            match found.token {
                Token::Identifier(name) => {
                    proof {
                        lemma_strings_push(imports@, name);
                    }
                    imports.push(name);
                    let follow: u8 = match self.peek() {
                        Some(Token::Keyword(Keyword::Func)) => 1,
                        Some(Token::Keyword(Keyword::Const)) => 1,
                        Some(Token::Keyword(Keyword::Use)) => 1,
                        Some(Token::DoubleColon) => 2,
                        _ => 0,
                    };
                    if follow == 1 {
                        done = true;
                    } else if follow == 2 {
                        self.drop(1);
                    }
                },
                _ => {
                    done = true;
                },
            }
        }
        Ok(Import { name: imports })
    }

    /// A top-level statement: a constant declaration or an expression.
    fn parse_global_vars(&mut self) -> (res: Result<Statement, ParseError>)
        ensures
            final(self).did_take(
                old(self),
                global(old(self).source(), old(self).cursor()),
                outcome(res),
            ),
    {
        reveal(global);
        proof {
            use_type_invariant(&*self);
        }
        let constant = match self.peek() {
            Some(Token::Keyword(Keyword::Const)) => true,
            _ => false,
        };
        if constant {
            self.drop(1);
            self.parse_declare(Size::Byte, "&str")
        } else {
            match self.parse_expression() {
                Ok(value) => Ok(Statement::Exp(value)),
                Err(e) => Err(e),
            }
        }
    }

    /// A program: imports, functions and top-level statements up to the end
    /// of the tokens.
    #[verifier::rlimit(80)]
    #[verifier::spinoff_prover]
    fn main_parser(&mut self) -> (res: Result<(Program, Vec<TokenType>), ParseError>)
        ensures
            ({
                let expected = program(old(self).source(), old(self).cursor(), empty_program());
                &&& final(self).follows(old(self), expected.len)
                &&& parse_outcome(res) == match expected.result {
                    Ok(p) => Ok((p, old(self).source().tokens)),
                    Err(e) => Err(e),
                }
                &&& res is Ok ==> final(self).cursor() == old(self).source().tokens.len()
                &&& !(res matches Err(ParseError::Unknown))
            }),
    {
        let ghost src = self.source();
        let ghost start = self.cursor();
        let mut functions: Vec<Function> = Vec::new();
        let mut imports: Vec<Import> = Vec::new();
        let mut globals: Vec<Statement> = Vec::new();
        assert(function_views(functions@) =~= Seq::empty());
        assert(import_views(imports@) =~= Seq::empty());
        assert(statement_views(globals@) =~= Seq::empty());
        while self.has_more()
            invariant
                self.follows(old(self), (self.cursor() - start) as nat),
                src == old(self).source(),
                start == old(self).cursor(),
                start <= self.cursor(),
                program(src, start, empty_program()) == program(
                    src,
                    self.cursor(),
                    ProgramView {
                        imports: import_views(imports@),
                        func: function_views(functions@),
                        globals: statement_views(globals@),
                    },
                ).after((self.cursor() - start) as nat),
            decreases self.left(),
        {
            proof {
                use_type_invariant(&*self);
            }
            let kind: u8 = match self.peek() {
                Some(Token::Keyword(Keyword::Use)) => 1,
                Some(Token::Keyword(Keyword::Func)) => 2,
                _ => 0,
            };
            if kind == 1 {
                let item = match self.parse_import_statement() {
                    Ok(i) => i,
                    Err(e) => {
                        return Err(e);
                    },
                };
                proof {
                    use_type_invariant(&*self);
                    lemma_imports_push(imports@, item);
                }
                imports.push(item);
            } else if kind == 2 {
                let item = match self.parse_function() {
                    Ok(f) => f,
                    Err(e) => {
                        return Err(e);
                    },
                };
                proof {
                    use_type_invariant(&*self);
                    lemma_functions_push(functions@, item);
                }
                functions.push(item);
            } else {
                let item = match self.parse_global_vars() {
                    Ok(s) => s,
                    Err(e) => {
                        return Err(e);
                    },
                };
                proof {
                    use_type_invariant(&*self);
                    lemma_statements_push(globals@, item);
                }
                globals.push(item);
            }
        }
        proof {
            use_type_invariant(&*self);
        }
        let raw = self.tokens.clone();
        assert(token_views(raw@) =~= token_views(self.tokens@));
        Ok((Program { imports, func: functions, globals }, raw))
    }

    /// A program.
    fn parse_program(&mut self) -> (res: Result<(Program, Vec<TokenType>), ParseError>)
        ensures
            ({
                let expected = program(old(self).source(), old(self).cursor(), empty_program());
                &&& final(self).follows(old(self), expected.len)
                &&& parse_outcome(res) == match expected.result {
                    Ok(p) => Ok((p, old(self).source().tokens)),
                    Err(e) => Err(e),
                }
                &&& res is Ok ==> final(self).cursor() == old(self).source().tokens.len()
                &&& !(res matches Err(ParseError::Unknown))
            }),
    {
        self.main_parser()
    }
}

} // verus!
