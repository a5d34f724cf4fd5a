use vstd::prelude::*;
use crate::types::{Token, TokenView};

verus! {

/// The storage width of a declared variable.
#[derive(Debug, Clone, Copy, PartialEq, Eq, Structural)]
pub enum Size {
    Int,
    Byte,
}

/// The return type of a function.
#[derive(Debug, Clone, Copy, PartialEq, Eq, Structural)]
pub enum Type {
    Bool,
    Str,
    Void,
    Int,
    Mlstr,
    Char,
}

/// The operators with one operand.
#[derive(Debug, Clone, Copy, PartialEq, Eq, Structural)]
pub enum UnOp {
    Negation,
    BitComp,
    LogicalNeg,
}

/// The operators with two operands.
#[derive(Debug, Clone, Copy, PartialEq, Eq, Structural)]
pub enum BinOp {
    Addition,
    Subtraction,
    Multiplication,
    Division,
    Modulus,
    LessThan,
    LessThanOrEqual,
    GreaterThan,
    GreaterThanOrEqual,
    Equal,
    NotEqual,
    And,
    Or,
    BitwiseLeft,
    BitwiseRight,
    BitwiseAnd,
    BitwiseXor,
    BitwiseOr,
    Comma,
}

/// A declared variable or a parameter: its name, the name of its type as
/// written (`"int"`, `"str"`, `"bool"`, `"mlstr"`, or empty), and its
/// storage width.
#[derive(Debug, PartialEq, Eq)]
pub struct Variable {
    pub name: String,
    pub t: String,
    pub size: Size,
}

/// The mathematical value of a [`Variable`].
pub struct VariableView {
    pub name: Seq<char>,
    pub t: Seq<char>,
    pub size: Size,
}

impl View for Variable {
    type V = VariableView;

    open spec fn view(&self) -> VariableView {
        VariableView { name: self.name@, t: self.t@, size: self.size }
    }
}

impl Clone for Variable {
    fn clone(&self) -> (res: Self)
        ensures
            res@ == self@,
    {
        Variable { name: self.name.clone(), t: self.t.clone(), size: self.size }
    }
}

/// An import: the segments of its path, in order.
#[derive(Debug, PartialEq, Eq)]
pub struct Import {
    pub name: Vec<String>,
}

/// The mathematical value of an [`Import`].
pub struct ImportView {
    pub name: Seq<Seq<char>>,
}

/// The texts of a sequence of strings, in order.
pub open spec fn string_views(strings: Seq<String>) -> Seq<Seq<char>> {
    strings.map_values(|s: String| s@)
}

impl View for Import {
    type V = ImportView;

    open spec fn view(&self) -> ImportView {
        ImportView { name: string_views(self.name@) }
    }
}

impl Clone for Import {
    fn clone(&self) -> (res: Self)
        ensures
            res@ == self@,
    {
        let name = self.name.clone();
        assert(string_views(name@) =~= string_views(self.name@));
        Import { name }
    }
}

/// An expression.
#[derive(Debug, PartialEq, Eq)]
pub enum Expression {
    BinOp(BinOp, Box<Expression>, Box<Expression>),
    UnOp(UnOp, Box<Expression>),
    Int(u64),
    Char(String),
    MLStr(String),
    FunctionCall(String, Vec<Expression>),
    Bool(bool),
    Variable(String),
    VariableRef(String),
    Assign(String, Box<Expression>),
    AssignPostfix(String, Box<Expression>),
    Ternary(Box<Expression>, Box<Expression>, Box<Expression>),
}

/// The mathematical value of an [`Expression`].
pub enum ExpressionView {
    BinOp(BinOp, Box<ExpressionView>, Box<ExpressionView>),
    UnOp(UnOp, Box<ExpressionView>),
    Int(u64),
    Char(Seq<char>),
    MLStr(Seq<char>),
    FunctionCall(Seq<char>, Seq<ExpressionView>),
    Bool(bool),
    Variable(Seq<char>),
    VariableRef(Seq<char>),
    Assign(Seq<char>, Box<ExpressionView>),
    AssignPostfix(Seq<char>, Box<ExpressionView>),
    Ternary(Box<ExpressionView>, Box<ExpressionView>, Box<ExpressionView>),
}

impl Expression {
    /// The mathematical value of the expression: its view.
    pub open spec fn model(&self) -> ExpressionView
        decreases self,
    {
        match self {
            Expression::BinOp(op, lhs, rhs) => ExpressionView::BinOp(
                *op,
                Box::new(lhs.model()),
                Box::new(rhs.model()),
            ),
            Expression::UnOp(op, operand) => ExpressionView::UnOp(*op, Box::new(operand.model())),
            Expression::Int(n) => ExpressionView::Int(*n),
            Expression::Char(s) => ExpressionView::Char(s@),
            Expression::MLStr(s) => ExpressionView::MLStr(s@),
            Expression::FunctionCall(name, args) => ExpressionView::FunctionCall(
                name@,
                Seq::new(
                    args@.len(),
                    |i: int|
                        if 0 <= i < args@.len() {
                            args@[i].model()
                        } else {
                            ExpressionView::Bool(false)
                        },
                ),
            ),
            Expression::Bool(b) => ExpressionView::Bool(*b),
            Expression::Variable(name) => ExpressionView::Variable(name@),
            Expression::VariableRef(name) => ExpressionView::VariableRef(name@),
            Expression::Assign(name, value) => ExpressionView::Assign(
                name@,
                Box::new(value.model()),
            ),
            Expression::AssignPostfix(name, value) => ExpressionView::AssignPostfix(
                name@,
                Box::new(value.model()),
            ),
            Expression::Ternary(cond, then, otherwise) => ExpressionView::Ternary(
                Box::new(cond.model()),
                Box::new(then.model()),
                Box::new(otherwise.model()),
            ),
        }
    }
}

impl Clone for Expression {
    fn clone(&self) -> (res: Self)
        ensures
            res@ == self@,
        decreases self,
    {
        match self {
            Expression::BinOp(op, lhs, rhs) => Expression::BinOp(
                *op,
                Box::new((&**lhs).clone()),
                Box::new((&**rhs).clone()),
            ),
            Expression::UnOp(op, operand) => Expression::UnOp(*op, Box::new((&**operand).clone())),
            Expression::Int(n) => Expression::Int(*n),
            Expression::Char(s) => Expression::Char(s.clone()),
            Expression::MLStr(s) => Expression::MLStr(s.clone()),
            Expression::FunctionCall(name, args) => {
                let mut copies: Vec<Expression> = Vec::new();
                let mut i: usize = 0;
                while i < args.len()
                    invariant
                        *self == Expression::FunctionCall(*name, *args),
                        i <= args@.len(),
                        copies@.len() == i,
                        forall|k: int| 0 <= k < i ==> (#[trigger] copies@[k]).model() == args@[k].model(),
                    decreases args@.len() - i,
                {
                    assert(decreases_to!(self => self->FunctionCall_1));
                    assert(decreases_to!(*args => args[i as int]));
                    assert(decreases_to!(self => args[i as int]));
                    let copy = args[i].clone();
                    copies.push(copy);
                    i = i + 1;
                }
                let res = Expression::FunctionCall(name.clone(), copies);
                assert(res.model()->FunctionCall_1 =~= self.model()->FunctionCall_1);
                res
            },
            Expression::Bool(b) => Expression::Bool(*b),
            Expression::Variable(name) => Expression::Variable(name.clone()),
            Expression::VariableRef(name) => Expression::VariableRef(name.clone()),
            Expression::Assign(name, value) => Expression::Assign(
                name.clone(),
                Box::new((&**value).clone()),
            ),
            Expression::AssignPostfix(name, value) => Expression::AssignPostfix(
                name.clone(),
                Box::new((&**value).clone()),
            ),
            Expression::Ternary(cond, then, otherwise) => Expression::Ternary(
                Box::new((&**cond).clone()),
                Box::new((&**then).clone()),
                Box::new((&**otherwise).clone()),
            ),
        }
    }
}

impl View for Expression {
    type V = ExpressionView;

    open spec fn view(&self) -> ExpressionView {
        self.model()
    }
}

/// The views of a sequence of expressions, in order.
pub open spec fn expression_views(expressions: Seq<Expression>) -> Seq<ExpressionView> {
    expressions.map_values(|e: Expression| e@)
}

/// The view of a call holds the views of its arguments.
pub proof fn lemma_call_view(name: String, args: Vec<Expression>)
    ensures
        Expression::FunctionCall(name, args)@ == ExpressionView::FunctionCall(
            name@,
            expression_views(args@),
        ),
{
    assert(Expression::FunctionCall(name, args).model()->FunctionCall_1 =~= expression_views(
        args@,
    ));
}

/// A statement.
#[derive(Debug, PartialEq, Eq)]
pub enum Statement {
    Declare(Variable, Option<Expression>),
    Return(Expression),
    If(Expression, Box<Statement>, Option<Box<Statement>>),
    While(Expression, Box<Statement>),
    Exp(Expression),
    Compound(Vec<Statement>),
}

/// The mathematical value of a [`Statement`].
pub enum StatementView {
    Declare(VariableView, Option<ExpressionView>),
    Return(ExpressionView),
    If(ExpressionView, Box<StatementView>, Option<Box<StatementView>>),
    While(ExpressionView, Box<StatementView>),
    Exp(ExpressionView),
    Compound(Seq<StatementView>),
}

impl Statement {
    /// The mathematical value of the statement: its view.
    pub open spec fn model(&self) -> StatementView
        decreases self,
    {
        match self {
            Statement::Declare(variable, value) => StatementView::Declare(
                variable@,
                match value {
                    Some(e) => Some(e@),
                    None => None,
                },
            ),
            Statement::Return(e) => StatementView::Return(e@),
            Statement::If(cond, then, otherwise) => StatementView::If(
                cond@,
                Box::new(then.model()),
                match otherwise {
                    Some(s) => Some(Box::new(s.model())),
                    None => None,
                },
            ),
            Statement::While(cond, body) => StatementView::While(cond@, Box::new(body.model())),
            Statement::Exp(e) => StatementView::Exp(e@),
            Statement::Compound(statements) => StatementView::Compound(
                Seq::new(
                    statements@.len(),
                    |i: int|
                        if 0 <= i < statements@.len() {
                            statements@[i].model()
                        } else {
                            StatementView::Compound(Seq::empty())
                        },
                ),
            ),
        }
    }
}

impl Clone for Statement {
    fn clone(&self) -> (res: Self)
        ensures
            res@ == self@,
        decreases self,
    {
        match self {
            Statement::Declare(variable, value) => Statement::Declare(
                variable.clone(),
                match value {
                    Some(e) => Some(e.clone()),
                    None => None,
                },
            ),
            Statement::Return(e) => Statement::Return(e.clone()),
            Statement::If(cond, then, otherwise) => Statement::If(
                cond.clone(),
                Box::new((&**then).clone()),
                match otherwise {
                    Some(s) => Some(Box::new((&**s).clone())),
                    None => None,
                },
            ),
            Statement::While(cond, body) => Statement::While(
                cond.clone(),
                Box::new((&**body).clone()),
            ),
            Statement::Exp(e) => Statement::Exp(e.clone()),
            Statement::Compound(statements) => {
                let mut copies: Vec<Statement> = Vec::new();
                let mut i: usize = 0;
                while i < statements.len()
                    invariant
                        *self == Statement::Compound(*statements),
                        i <= statements@.len(),
                        copies@.len() == i,
                        forall|k: int|
                            0 <= k < i ==> (#[trigger] copies@[k]).model() == statements@[k].model(),
                    decreases statements@.len() - i,
                {
                    assert(decreases_to!(self => self->Compound_0));
                    assert(decreases_to!(*statements => statements[i as int]));
                    assert(decreases_to!(self => statements[i as int]));
                    let copy = statements[i].clone();
                    copies.push(copy);
                    i = i + 1;
                }
                let res = Statement::Compound(copies);
                assert(res.model()->Compound_0 =~= self.model()->Compound_0);
                res
            },
        }
    }
}

impl View for Statement {
    type V = StatementView;

    open spec fn view(&self) -> StatementView {
        self.model()
    }
}

/// The views of a sequence of statements, in order.
pub open spec fn statement_views(statements: Seq<Statement>) -> Seq<StatementView> {
    statements.map_values(|s: Statement| s@)
}

/// The view of a block holds the views of its statements.
pub proof fn lemma_block_view(statements: Vec<Statement>)
    ensures
        Statement::Compound(statements)@ == StatementView::Compound(statement_views(statements@)),
{
    assert(Statement::Compound(statements).model()->Compound_0 =~= statement_views(statements@));
}

/// A function: whether it is asynchronous, its name, its return type, its
/// parameters and the statements of its body.
#[derive(Debug, PartialEq, Eq)]
pub struct Function {
    pub is_async: bool,
    pub name: String,
    pub return_type: Type,
    pub arguments: Vec<Variable>,
    pub statements: Vec<Statement>,
}

/// The mathematical value of a [`Function`].
pub struct FunctionView {
    pub is_async: bool,
    pub name: Seq<char>,
    pub return_type: Type,
    pub arguments: Seq<VariableView>,
    pub statements: Seq<StatementView>,
}

/// The views of a sequence of variables, in order.
pub open spec fn variable_views(variables: Seq<Variable>) -> Seq<VariableView> {
    variables.map_values(|v: Variable| v@)
}

impl View for Function {
    type V = FunctionView;

    open spec fn view(&self) -> FunctionView {
        FunctionView {
            is_async: self.is_async,
            name: self.name@,
            return_type: self.return_type,
            arguments: variable_views(self.arguments@),
            statements: statement_views(self.statements@),
        }
    }
}

impl Clone for Function {
    fn clone(&self) -> (res: Self)
        ensures
            res@ == self@,
    {
        let arguments = self.arguments.clone();
        let statements = self.statements.clone();
        assert(variable_views(arguments@) =~= variable_views(self.arguments@));
        assert(statement_views(statements@) =~= statement_views(self.statements@));
        Function {
            is_async: self.is_async,
            name: self.name.clone(),
            return_type: self.return_type,
            arguments,
            statements,
        }
    }
}

/// A compilation unit: its imports, its functions and its top-level
/// statements, each in source order.
#[derive(Debug, PartialEq, Eq)]
pub struct Program {
    pub imports: Vec<Import>,
    pub func: Vec<Function>,
    pub globals: Vec<Statement>,
}

/// The mathematical value of a [`Program`].
pub struct ProgramView {
    pub imports: Seq<ImportView>,
    pub func: Seq<FunctionView>,
    pub globals: Seq<StatementView>,
}

/// The views of a sequence of imports, in order.
pub open spec fn import_views(imports: Seq<Import>) -> Seq<ImportView> {
    imports.map_values(|i: Import| i@)
}

/// The views of a sequence of functions, in order.
pub open spec fn function_views(functions: Seq<Function>) -> Seq<FunctionView> {
    functions.map_values(|f: Function| f@)
}

impl View for Program {
    type V = ProgramView;

    open spec fn view(&self) -> ProgramView {
        ProgramView {
            imports: import_views(self.imports@),
            func: function_views(self.func@),
            globals: statement_views(self.globals@),
        }
    }
}

impl Clone for Program {
    fn clone(&self) -> (res: Self)
        ensures
            res@ == self@,
    {
        let imports = self.imports.clone();
        let func = self.func.clone();
        let globals = self.globals.clone();
        assert(import_views(imports@) =~= import_views(self.imports@));
        assert(function_views(func@) =~= function_views(self.func@));
        assert(statement_views(globals@) =~= statement_views(self.globals@));
        Program { imports, func, globals }
    }
}

/// The binary operator that a token writes, if it writes one.
pub open spec fn binop_of(token: TokenView) -> Option<BinOp> {
    match token {
        TokenView::Multiplication => Some(BinOp::Multiplication),
        TokenView::Division => Some(BinOp::Division),
        TokenView::Modulus => Some(BinOp::Modulus),
        TokenView::Addition => Some(BinOp::Addition),
        TokenView::Negation => Some(BinOp::Subtraction),
        TokenView::LessThan => Some(BinOp::LessThan),
        TokenView::LessThanOrEqual => Some(BinOp::LessThanOrEqual),
        TokenView::GreaterThan => Some(BinOp::GreaterThan),
        TokenView::GreaterThanOrEqual => Some(BinOp::GreaterThanOrEqual),
        TokenView::Equal => Some(BinOp::Equal),
        TokenView::NotEqual => Some(BinOp::NotEqual),
        TokenView::And => Some(BinOp::And),
        TokenView::Or => Some(BinOp::Or),
        TokenView::BitwiseLeft => Some(BinOp::BitwiseLeft),
        TokenView::BitwiseRight => Some(BinOp::BitwiseRight),
        TokenView::BitwiseAnd => Some(BinOp::BitwiseAnd),
        TokenView::BitwiseXor => Some(BinOp::BitwiseXor),
        TokenView::BitwiseOr => Some(BinOp::BitwiseOr),
        TokenView::Comma => Some(BinOp::Comma),
        _ => None,
    }
}

/// The unary operator that a token writes, if it writes one.
pub open spec fn unop_of(token: TokenView) -> Option<UnOp> {
    match token {
        TokenView::Negation => Some(UnOp::Negation),
        TokenView::LogicalNeg => Some(UnOp::LogicalNeg),
        TokenView::BitComp => Some(UnOp::BitComp),
        _ => None,
    }
}

/// The operator of a compound assignment such as `+=`, if the token is one.
pub open spec fn compound_op_of(token: TokenView) -> Option<BinOp> {
    match token {
        TokenView::AssignAdd => Some(BinOp::Addition),
        TokenView::AssignSub => Some(BinOp::Subtraction),
        TokenView::AssignMul => Some(BinOp::Multiplication),
        TokenView::AssignDiv => Some(BinOp::Division),
        TokenView::AssignMod => Some(BinOp::Modulus),
        TokenView::AssignBitLeft => Some(BinOp::BitwiseLeft),
        TokenView::AssignBitRight => Some(BinOp::BitwiseRight),
        TokenView::AssignAnd => Some(BinOp::BitwiseAnd),
        TokenView::AssignOr => Some(BinOp::BitwiseOr),
        TokenView::AssignXor => Some(BinOp::BitwiseXor),
        _ => None,
    }
}

impl BinOp {
    /// The binary operator that `token` writes, if it writes one.
    pub fn from_token(token: &Token) -> (op: Option<BinOp>)
        ensures
            op == binop_of(token@),
    {
        match token {
            Token::Multiplication => Some(BinOp::Multiplication),
            Token::Division => Some(BinOp::Division),
            Token::Modulus => Some(BinOp::Modulus),
            Token::Addition => Some(BinOp::Addition),
            Token::Negation => Some(BinOp::Subtraction),
            Token::LessThan => Some(BinOp::LessThan),
            Token::LessThanOrEqual => Some(BinOp::LessThanOrEqual),
            Token::GreaterThan => Some(BinOp::GreaterThan),
            Token::GreaterThanOrEqual => Some(BinOp::GreaterThanOrEqual),
            Token::Equal => Some(BinOp::Equal),
            Token::NotEqual => Some(BinOp::NotEqual),
            Token::And => Some(BinOp::And),
            Token::Or => Some(BinOp::Or),
            Token::BitwiseLeft => Some(BinOp::BitwiseLeft),
            Token::BitwiseRight => Some(BinOp::BitwiseRight),
            Token::BitwiseAnd => Some(BinOp::BitwiseAnd),
            Token::BitwiseXor => Some(BinOp::BitwiseXor),
            Token::BitwiseOr => Some(BinOp::BitwiseOr),
            Token::Comma => Some(BinOp::Comma),
            _ => None,
        }
    }

    /// The operator of a compound assignment such as `+=`, if `token` is one.
    pub fn from_compound_assignment(token: &Token) -> (op: Option<BinOp>)
        ensures
            op == compound_op_of(token@),
    {
        match token {
            Token::AssignAdd => Some(BinOp::Addition),
            Token::AssignSub => Some(BinOp::Subtraction),
            Token::AssignMul => Some(BinOp::Multiplication),
            Token::AssignDiv => Some(BinOp::Division),
            Token::AssignMod => Some(BinOp::Modulus),
            Token::AssignBitLeft => Some(BinOp::BitwiseLeft),
            Token::AssignBitRight => Some(BinOp::BitwiseRight),
            Token::AssignAnd => Some(BinOp::BitwiseAnd),
            Token::AssignOr => Some(BinOp::BitwiseOr),
            Token::AssignXor => Some(BinOp::BitwiseXor),
            _ => None,
        }
    }
}

impl UnOp {
    /// The unary operator that `token` writes, if it writes one.
    pub fn from_token(token: &Token) -> (op: Option<UnOp>)
        ensures
            op == unop_of(token@),
    {
        match token {
            Token::Negation => Some(UnOp::Negation),
            Token::LogicalNeg => Some(UnOp::LogicalNeg),
            Token::BitComp => Some(UnOp::BitComp),
            _ => None,
        }
    }
}

} // verus!
