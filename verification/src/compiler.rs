use vstd::prelude::*;
use vstd::string::StringExecFns;
use codegen::{Function as CodegenFunc, Scope};
use crate::ops::{
    expression_views, function_views, lemma_call_view, statement_views, variable_views,
    Expression, ExpressionView, Function, FunctionView, Program, ProgramView, Statement,
    StatementView, Type, Variable, VariableView,
};
use crate::text::{debug_quote, debug_text, decimal, decimal_text, same_text};

verus! {

/// A scope of the `codegen` crate: the items of a source file under
/// construction.
#[verifier::external_type_specification]
#[verifier::external_body]
pub struct ExScope(Scope);

/// A function definition of the `codegen` crate under construction.
#[verifier::external_type_specification]
#[verifier::external_body]
pub struct ExCodegenFunc(CodegenFunc);

/// What a function definition under construction holds.
pub struct FunctionText {
    pub name: Seq<char>,
    pub ret: Option<Seq<char>>,
    pub args: Seq<(Seq<char>, Seq<char>)>,
    pub lines: Seq<Seq<char>>,
    pub is_async: bool,
}

/// An item of a scope: text that is taken as it is, or a function.
pub enum ScopeItem {
    Raw(Seq<char>),
    Function(FunctionText),
}

/// The items that were put into `scope`, in order.
pub uninterp spec fn scope_items(scope: Scope) -> Seq<ScopeItem>;

/// Whether `scope` holds nothing but its items: no documentation and no
/// import.
pub uninterp spec fn scope_is_plain(scope: Scope) -> bool;

/// The name, return type, arguments, body lines and asynchrony that were
/// given to `function`.
pub uninterp spec fn function_text(function: CodegenFunc) -> FunctionText;

/// Whether `function` holds nothing but what `function_text` tells: its body
/// is made of lines, and every other part is as `Function::new` leaves it.
pub uninterp spec fn function_is_plain(function: CodegenFunc) -> bool;

/// The source text that `Scope::to_string` writes for a plain scope with the
/// given items.
pub uninterp spec fn rendered(items: Seq<ScopeItem>) -> Seq<char>;

/// Calls `Scope::new`.
///
/// Trusted: the new scope has no item, no documentation and no import.
#[verifier::external_body]
fn scope_new() -> (scope: Scope)
    ensures
        scope_items(scope) == Seq::<ScopeItem>::empty(),
        scope_is_plain(scope),
{
    Scope::new()
}

/// Calls `Scope::raw`.
///
/// Trusted: the text becomes the last item of the scope; nothing else
/// changes.
#[verifier::external_body]
fn scope_raw(scope: &mut Scope, text: &str)
    ensures
        scope_items(*final(scope)) == scope_items(*old(scope)).push(ScopeItem::Raw(text@)),
        scope_is_plain(*final(scope)) == scope_is_plain(*old(scope)),
{
    scope.raw(text);
}

/// Calls `Scope::push_fn`.
///
/// Trusted: the function becomes the last item of the scope; nothing else
/// changes.
#[verifier::external_body]
fn scope_push_fn(scope: &mut Scope, function: CodegenFunc)
    requires
        function_is_plain(function),
    ensures
        scope_items(*final(scope)) == scope_items(*old(scope)).push(
            ScopeItem::Function(function_text(function)),
        ),
        scope_is_plain(*final(scope)) == scope_is_plain(*old(scope)),
{
    scope.push_fn(function);
}

/// Calls `Scope::to_string`.
///
/// Trusted: the text depends on nothing but the items of a plain scope.
#[verifier::external_body]
fn scope_to_string(scope: &Scope) -> (text: String)
    requires
        scope_is_plain(*scope),
    ensures
        text@ == rendered(scope_items(*scope)),
{
    scope.to_string()
}

/// Calls `Function::new`.
///
/// Trusted: the new function has the given name, no return type, no
/// argument and an empty body, and is not asynchronous.
#[verifier::external_body]
fn function_new(name: &str) -> (function: CodegenFunc)
    ensures
        function_is_plain(function),
        function_text(function) == (FunctionText {
            name: name@,
            ret: None,
            args: Seq::empty(),
            lines: Seq::empty(),
            is_async: false,
        }),
{
    CodegenFunc::new(name)
}

/// Calls `Function::ret`.
///
/// Trusted: the return type becomes the one named; nothing else changes.
#[verifier::external_body]
fn function_ret(function: &mut CodegenFunc, ty: &str)
    ensures
        function_is_plain(*final(function)) == function_is_plain(*old(function)),
        function_text(*final(function)) == (FunctionText {
            ret: Some(ty@),
            ..function_text(*old(function))
        }),
{
    function.ret(ty);
}

/// Calls `Function::arg`.
///
/// Trusted: an argument of the given name and type is added behind the
/// others; nothing else changes.
#[verifier::external_body]
fn function_arg(function: &mut CodegenFunc, name: &str, ty: &str)
    ensures
        function_is_plain(*final(function)) == function_is_plain(*old(function)),
        function_text(*final(function)) == (FunctionText {
            args: function_text(*old(function)).args.push((name@, ty@)),
            ..function_text(*old(function))
        }),
{
    function.arg(name, ty);
}

/// Calls `Function::line`.
///
/// Trusted: the line is added at the end of the body of a plain function,
/// which stays plain; nothing else changes.
#[verifier::external_body]
fn function_line(function: &mut CodegenFunc, line: &str)
    requires
        function_is_plain(*old(function)),
    ensures
        function_is_plain(*final(function)),
        function_text(*final(function)) == (FunctionText {
            lines: function_text(*old(function)).lines.push(line@),
            ..function_text(*old(function))
        }),
{
    function.line(line);
}

/// Calls `Function::set_async`.
///
/// Trusted: the function is asynchronous or not as told; nothing else
/// changes.
#[verifier::external_body]
fn function_set_async(function: &mut CodegenFunc, is_async: bool)
    ensures
        function_is_plain(*final(function)) == function_is_plain(*old(function)),
        function_text(*final(function)) == (FunctionText {
            is_async,
            ..function_text(*old(function))
        }),
{
    function.set_async(is_async);
}

/// Whether `compile_expr` can write the expression: a number, a variable,
/// or a call whose arguments are all variables.
pub open spec fn expression_accepted(e: ExpressionView) -> bool {
    match e {
        ExpressionView::FunctionCall(_, args) => forall|i: int|
            0 <= i < args.len() ==> #[trigger] args[i] is Variable,
        ExpressionView::Variable(_) => true,
        ExpressionView::Int(_) => true,
        _ => false,
    }
}

/// The names of the variables `args`, with a comma between two of them.
pub open spec fn joined_names(args: Seq<ExpressionView>) -> Seq<char>
    decreases args.len(),
{
    if args.len() == 0 {
        Seq::empty()
    } else if args.len() == 1 {
        args[0]->Variable_0
    } else {
        joined_names(args.drop_last()) + ","@ + args.last()->Variable_0
    }
}

/// The Rust text of an accepted expression that initializes a variable of
/// the type named `var_type`: a variable of type `str` stands for its own
/// name as a string literal.
pub open spec fn expression_text(e: ExpressionView, var_type: Seq<char>) -> Seq<char> {
    match e {
        ExpressionView::FunctionCall(name, args) => name + "("@ + joined_names(args) + ")"@,
        ExpressionView::Variable(name) => if var_type == "str"@ {
            "\""@ + name + "\""@
        } else {
            name
        },
        ExpressionView::Int(n) => decimal(n as nat),
        _ => Seq::empty(),
    }
}

/// Whether `compile_statement` can write the statement: a declaration with
/// an accepted value.
pub open spec fn statement_accepted(s: StatementView) -> bool {
    s matches StatementView::Declare(_, Some(e)) && expression_accepted(e)
}

/// The Rust text of an accepted statement: a `let` binding.
pub open spec fn statement_text(s: StatementView) -> Seq<char> {
    match s {
        StatementView::Declare(variable, Some(e)) => "let "@ + variable.name + " = "@
            + expression_text(e, variable.t) + ";"@,
        _ => Seq::empty(),
    }
}

/// Whether `compile` can write the top-level statement: any but a
/// declaration whose value is no variable.
pub open spec fn global_accepted(s: StatementView) -> bool {
    s matches StatementView::Declare(_, Some(e)) ==> e is Variable
}

/// The item that a top-level statement gives: a constant for a declaration,
/// whose value is the name of the variable as a string literal; nothing for
/// another statement.
pub open spec fn global_item(s: StatementView) -> Option<ScopeItem> {
    match s {
        StatementView::Declare(variable, Some(ExpressionView::Variable(value))) => Some(
            ScopeItem::Raw("const "@ + variable.name + ": &str = "@ + debug_text(value) + ";"@),
        ),
        _ => None,
    }
}

/// The items that top-level statements give, in order.
pub open spec fn global_items(globals: Seq<StatementView>) -> Seq<ScopeItem>
    decreases globals.len(),
{
    if globals.len() == 0 {
        Seq::empty()
    } else {
        let before = global_items(globals.drop_last());
        match global_item(globals.last()) {
            Some(item) => before.push(item),
            None => before,
        }
    }
}

/// The Rust name of a return type; none for `void`.
pub open spec fn return_text(t: Type) -> Option<Seq<char>> {
    match t {
        Type::Bool => Some("bool"@),
        Type::Char => Some("str"@),
        Type::Int => Some("int"@),
        Type::Mlstr => Some("str"@),
        Type::Str => Some("str"@),
        Type::Void => None,
    }
}

/// The name and the Rust type of a parameter: `str` is taken by reference.
pub open spec fn argument_text(v: VariableView) -> (Seq<char>, Seq<char>) {
    (
        v.name,
        if v.t == "str"@ {
            "&"@ + v.t
        } else {
            v.t
        },
    )
}

/// The names and types of parameters, in order.
pub open spec fn argument_texts(arguments: Seq<VariableView>) -> Seq<(Seq<char>, Seq<char>)> {
    arguments.map_values(|v: VariableView| argument_text(v))
}

/// The Rust texts of statements, in order.
pub open spec fn statement_texts(statements: Seq<StatementView>) -> Seq<Seq<char>> {
    statements.map_values(|s: StatementView| statement_text(s))
}

/// What the Rust definition of a function holds.
pub open spec fn function_plan(f: FunctionView) -> FunctionText {
    FunctionText {
        name: f.name,
        ret: return_text(f.return_type),
        args: argument_texts(f.arguments),
        lines: statement_texts(f.statements),
        is_async: f.is_async,
    }
}

/// The items that functions give, in order.
pub open spec fn function_items(functions: Seq<FunctionView>) -> Seq<ScopeItem> {
    functions.map_values(|f: FunctionView| ScopeItem::Function(function_plan(f)))
}

/// Whether `compile` can write the function: all its statements are
/// accepted.
pub open spec fn function_accepted(f: FunctionView) -> bool {
    forall|i: int| 0 <= i < f.statements.len() ==> statement_accepted(#[trigger] f.statements[i])
}

/// Whether `compile` can write the program.
pub open spec fn program_accepted(p: ProgramView) -> bool {
    &&& forall|i: int| 0 <= i < p.globals.len() ==> global_accepted(#[trigger] p.globals[i])
    &&& forall|i: int| 0 <= i < p.func.len() ==> function_accepted(#[trigger] p.func[i])
}

/// The items of the Rust source of a program: the constants of its
/// top-level declarations, then its functions.
pub open spec fn program_items(p: ProgramView) -> Seq<ScopeItem> {
    global_items(p.globals) + function_items(p.func)
}

/// A back end that writes programs as the source text of another language.
pub trait Compiler: Sized {
    /// The program that the compiler holds.
    spec fn program(&self) -> ProgramView;

    /// Whether the compiler can write its program.
    spec fn accepts(&self) -> bool;

    /// A compiler for `program`.
    fn new(program: Program) -> (compiler: Self)
        ensures
            compiler.program() == program@,
    ;

    /// The text of the program in the other language.
    fn compile(&self) -> (text: String)
        requires
            self.accepts(),
    ;
}

/// A back end that writes programs as Rust source text.
pub struct RustCompiler {
    program: Program,
}

/// The texts of parameters with one more are the texts with one more.
proof fn lemma_arguments_push(arguments: Seq<VariableView>, v: VariableView)
    ensures
        argument_texts(arguments.push(v)) == argument_texts(arguments).push(argument_text(v)),
{
    assert(argument_texts(arguments.push(v)) =~= argument_texts(arguments).push(argument_text(v)));
}

/// The texts of statements with one more are the texts with one more.
proof fn lemma_lines_push(statements: Seq<StatementView>, s: StatementView)
    ensures
        statement_texts(statements.push(s)) == statement_texts(statements).push(statement_text(s)),
{
    assert(statement_texts(statements.push(s)) =~= statement_texts(statements).push(
        statement_text(s),
    ));
}

/// The items of functions with one more are the items with one more.
proof fn lemma_functions_push(functions: Seq<FunctionView>, f: FunctionView)
    ensures
        function_items(functions.push(f)) == function_items(functions).push(
            ScopeItem::Function(function_plan(f)),
        ),
{
    assert(function_items(functions.push(f)) =~= function_items(functions).push(
        ScopeItem::Function(function_plan(f)),
    ));
}

impl RustCompiler {
    /// The view of the program that the compiler holds.
    pub closed spec fn held(&self) -> ProgramView {
        self.program@
    }

    /// The names of the variables `args`, with a comma between two of them.
    fn compile_names(args: &Vec<Expression>) -> (text: String)
        requires
            forall|i: int| 0 <= i < args@.len() ==> #[trigger] args@[i]@ is Variable,
        ensures
            text@ == joined_names(expression_views(args@)),
    {
        let ghost views = expression_views(args@);
        let mut text = String::new();
        let mut i: usize = 0;
        assert(views.take(0) =~= Seq::empty());
        while i < args.len()
            invariant
                i <= args@.len(),
                views == expression_views(args@),
                forall|k: int| 0 <= k < args@.len() ==> #[trigger] args@[k]@ is Variable,
                text@ == joined_names(views.take(i as int)),
            decreases args@.len() - i,
        {
            proof {
                assert(views.take(i + 1).drop_last() =~= views.take(i as int));
                assert(views.take(i + 1).last() == args@[i as int]@);
                if i == 0 {
                    assert(text@ + views[0]->Variable_0 =~= views[0]->Variable_0);
                }
            }
            match &args[i] {
                Expression::Variable(name) => {
                    if i != 0 {
                        text.append(",");
                    }
                    text.append(name.as_str());
                },
                _ => {},
            }
            i = i + 1;
        }
        assert(views.take(i as int) =~= views);
        text
    }

    /// The Rust text of an expression that initializes a variable of the
    /// type named `var_type`.
    pub fn compile_expr(&self, exp: &Expression, var_type: &str) -> (text: String)
        requires
            expression_accepted(exp@),
        ensures
            text@ == expression_text(exp@, var_type@),
    {
        match exp {
            Expression::FunctionCall(name, args) => {
                proof {
                    lemma_call_view(*name, *args);
                    assert forall|i: int| 0 <= i < args@.len() implies #[trigger] args@[i]@
                        is Variable by {
                        assert(expression_views(args@)[i] == args@[i]@);
                    }
                }
                let names = Self::compile_names(args);
                let mut text = name.clone();
                text.append("(");
                text.append(names.as_str());
                text.append(")");
                text
            },
            Expression::Variable(name) => {
                if same_text(var_type, "str") {
                    let mut text = String::from_str("\"");
                    text.append(name.as_str());
                    text.append("\"");
                    text
                } else {
                    name.clone()
                }
            },
            Expression::Int(n) => decimal_text(*n),
            _ => String::new(),
        }
    }

    /// The Rust text of a statement: a `let` binding for a declaration.
    pub fn compile_statement(&self, statement: &Statement) -> (text: String)
        requires
            statement_accepted(statement@),
        ensures
            text@ == statement_text(statement@),
    {
        match statement {
            Statement::Declare(variable, Some(exp)) => {
                let value = self.compile_expr(exp, variable.t.as_str());
                let mut text = String::from_str("let ");
                text.append(variable.name.as_str());
                text.append(" = ");
                text.append(value.as_str());
                text.append(";");
                text
            },
            _ => String::new(),
        }
    }

    /// The Rust definition of a function.
    fn compile_function(&self, function: &Function) -> (definition: CodegenFunc)
        requires
            function_accepted(function@),
        ensures
            function_is_plain(definition),
            function_text(definition) == function_plan(function@),
    {
        let mut definition = function_new(function.name.as_str());
        match function.return_type {
            Type::Bool => function_ret(&mut definition, "bool"),
            Type::Char => function_ret(&mut definition, "str"),
            Type::Int => function_ret(&mut definition, "int"),
            Type::Mlstr => function_ret(&mut definition, "str"),
            Type::Str => function_ret(&mut definition, "str"),
            Type::Void => {},
        }
        let ghost arguments = variable_views(function.arguments@);
        let ghost statements = statement_views(function.statements@);
        let mut i: usize = 0;
        assert(argument_texts(arguments.take(0)) =~= Seq::empty());
        while i < function.arguments.len()
            invariant
                i <= function.arguments@.len(),
                arguments == variable_views(function.arguments@),
                function_is_plain(definition),
                function_text(definition) == (FunctionText {
                    name: function.name@,
                    ret: return_text(function.return_type),
                    args: argument_texts(arguments.take(i as int)),
                    lines: Seq::empty(),
                    is_async: false,
                }),
            decreases function.arguments@.len() - i,
        {
            let argument = &function.arguments[i];
            proof {
                lemma_arguments_push(arguments.take(i as int), argument@);
                assert(arguments.take(i + 1) =~= arguments.take(i as int).push(argument@));
            }
            if same_text(argument.t.as_str(), "str") {
                let mut ty = String::from_str("&");
                ty.append(argument.t.as_str());
                function_arg(&mut definition, argument.name.as_str(), ty.as_str());
            } else {
                function_arg(&mut definition, argument.name.as_str(), argument.t.as_str());
            }
            i = i + 1;
        }
        assert(arguments.take(i as int) =~= arguments);
        let mut j: usize = 0;
        assert(statement_texts(statements.take(0)) =~= Seq::empty());
        while j < function.statements.len()
            invariant
                j <= function.statements@.len(),
                statements == statement_views(function.statements@),
                function_accepted(function@),
                function_is_plain(definition),
                function_text(definition) == (FunctionText {
                    name: function.name@,
                    ret: return_text(function.return_type),
                    args: argument_texts(variable_views(function.arguments@)),
                    lines: statement_texts(statements.take(j as int)),
                    is_async: false,
                }),
            decreases function.statements@.len() - j,
        {
            let statement = &function.statements[j];
            proof {
                assert(function@.statements[j as int] == statement@);
                lemma_lines_push(statements.take(j as int), statement@);
                assert(statements.take(j + 1) =~= statements.take(j as int).push(statement@));
            }
            let line = self.compile_statement(statement);
            function_line(&mut definition, line.as_str());
            j = j + 1;
        }
        assert(statements.take(j as int) =~= statements);
        function_set_async(&mut definition, function.is_async);
        definition
    }
}

impl RustCompiler {
    /// Whether `compile_expr` can write the expression.
    pub fn accepts_expression(exp: &Expression) -> (r: bool)
        ensures
            r == expression_accepted(exp@),
    {
        match exp {
            Expression::FunctionCall(name, args) => {
                proof {
                    lemma_call_view(*name, *args);
                }
                let ghost views = expression_views(args@);
                let mut i: usize = 0;
                while i < args.len()
                    invariant
                        i <= args@.len(),
                        views == expression_views(args@),
                        exp@ == ExpressionView::FunctionCall(name@, views),
                        forall|k: int| 0 <= k < i ==> #[trigger] views[k] is Variable,
                    decreases args@.len() - i,
                {
                    let variable = match &args[i] {
                        Expression::Variable(_) => true,
                        _ => false,
                    };
                    assert(views[i as int] == args@[i as int]@);
                    if !variable {
                        return false;
                    }
                    i = i + 1;
                }
                true
            },
            Expression::Variable(_) => true,
            Expression::Int(_) => true,
            _ => false,
        }
    }

    /// Whether `compile_statement` can write the statement.
    pub fn accepts_statement(statement: &Statement) -> (r: bool)
        ensures
            r == statement_accepted(statement@),
    {
        match statement {
            Statement::Declare(_, Some(exp)) => Self::accepts_expression(exp),
            _ => false,
        }
    }

    /// Whether `compile` can write the function.
    fn accepts_function(function: &Function) -> (r: bool)
        ensures
            r == function_accepted(function@),
    {
        let ghost statements = statement_views(function.statements@);
        let mut i: usize = 0;
        while i < function.statements.len()
            invariant
                i <= function.statements@.len(),
                statements == statement_views(function.statements@),
                function@.statements == statements,
                forall|k: int| 0 <= k < i ==> statement_accepted(#[trigger] statements[k]),
            decreases function.statements@.len() - i,
        {
            assert(statements[i as int] == function.statements@[i as int]@);
            if !Self::accepts_statement(&function.statements[i]) {
                return false;
            }
            i = i + 1;
        }
        true
    }

    /// Whether `compile` can write the program that the compiler holds.
    pub fn can_compile(&self) -> (r: bool)
        ensures
            r == self.accepts(),
    {
        let ghost globals = statement_views(self.program.globals@);
        let ghost functions = function_views(self.program.func@);
        let mut i: usize = 0;
        while i < self.program.globals.len()
            invariant
                i <= self.program.globals@.len(),
                globals == statement_views(self.program.globals@),
                self.held().globals == globals,
                forall|k: int| 0 <= k < i ==> global_accepted(#[trigger] globals[k]),
            decreases self.program.globals@.len() - i,
        {
            let statement = &self.program.globals[i];
            assert(globals[i as int] == statement@);
            let accepted = match statement {
                Statement::Declare(_, Some(value)) => match value {
                    Expression::Variable(_) => true,
                    _ => false,
                },
                _ => true,
            };
            if !accepted {
                return false;
            }
            i = i + 1;
        }
        let mut j: usize = 0;
        while j < self.program.func.len()
            invariant
                j <= self.program.func@.len(),
                globals == statement_views(self.program.globals@),
                functions == function_views(self.program.func@),
                self.held().globals == globals,
                self.held().func == functions,
                forall|k: int| 0 <= k < globals.len() ==> global_accepted(#[trigger] globals[k]),
                forall|k: int| 0 <= k < j ==> function_accepted(#[trigger] functions[k]),
            decreases self.program.func@.len() - j,
        {
            assert(functions[j as int] == self.program.func@[j as int]@);
            if !Self::accepts_function(&self.program.func[j]) {
                return false;
            }
            j = j + 1;
        }
        true
    }
}

impl Compiler for RustCompiler {
    open spec fn program(&self) -> ProgramView {
        self.held()
    }

    open spec fn accepts(&self) -> bool {
        program_accepted(self.held())
    }

    fn new(program: Program) -> (compiler: Self) {
        RustCompiler { program }
    }

    /// The Rust source of the program: a constant for each top-level
    /// declaration, then the functions.
    fn compile(&self) -> (text: String)
        ensures
            text@ == rendered(program_items(self.program())),
    {
        let mut scope = scope_new();
        let ghost globals = statement_views(self.program.globals@);
        let ghost functions = function_views(self.program.func@);
        let mut i: usize = 0;
        assert(globals.take(0) =~= Seq::empty());
        while i < self.program.globals.len()
            invariant
                i <= self.program.globals@.len(),
                globals == statement_views(self.program.globals@),
                program_accepted(self.program@),
                scope_is_plain(scope),
                scope_items(scope) == global_items(globals.take(i as int)),
            decreases self.program.globals@.len() - i,
        {
            let statement = &self.program.globals[i];
            proof {
                assert(self.program@.globals[i as int] == statement@);
                assert(globals.take(i + 1).drop_last() =~= globals.take(i as int));
                assert(globals.take(i + 1).last() == statement@);
            }
            match statement {
                Statement::Declare(variable, Some(value)) => {
                    match value {
                        Expression::Variable(name) => {
                            let mut text = String::from_str("const ");
                            text.append(variable.name.as_str());
                            text.append(": &str = ");
                            text.append(debug_quote(name.as_str()).as_str());
                            text.append(";");
                            scope_raw(&mut scope, text.as_str());
                        },
                        _ => {},
                    }
                },
                _ => {},
            }
            i = i + 1;
        }
        assert(globals.take(i as int) =~= globals);
        let mut j: usize = 0;
        assert(function_items(functions.take(0)) =~= Seq::empty());
        while j < self.program.func.len()
            invariant
                j <= self.program.func@.len(),
                functions == function_views(self.program.func@),
                program_accepted(self.program@),
                scope_is_plain(scope),
                scope_items(scope) == global_items(statement_views(self.program.globals@))
                    + function_items(functions.take(j as int)),
            decreases self.program.func@.len() - j,
        {
            let function = &self.program.func[j];
            proof {
                assert(self.program@.func[j as int] == function@);
                lemma_functions_push(functions.take(j as int), function@);
                assert(functions.take(j + 1) =~= functions.take(j as int).push(function@));
            }
            let definition = self.compile_function(function);
            scope_push_fn(&mut scope, definition);
            proof {
                let before = global_items(statement_views(self.program.globals@));
                assert((before + function_items(functions.take(j as int))).push(
                    ScopeItem::Function(function_plan(function@)),
                ) =~= before + function_items(functions.take(j + 1)));
            }
            j = j + 1;
        }
        assert(functions.take(j as int) =~= functions);
        scope_to_string(&scope)
    }
}

} // verus!
