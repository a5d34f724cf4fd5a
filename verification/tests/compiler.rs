use lexer::{tokenize, Compiler, Expression, Parser, Program, RustCompiler, Size, Statement, Variable};

fn program(source: &str) -> Program {
    let tokens = tokenize(source, "unit.zt").unwrap();
    Parser::new(tokens, "unit.zt".into()).parse().unwrap().0
}

fn empty() -> RustCompiler {
    RustCompiler::new(Program { imports: vec![], func: vec![], globals: vec![] })
}

fn variable(name: &str, t: &str) -> Variable {
    Variable { name: String::from(name), t: String::from(t), size: Size::Byte }
}

#[test]
fn an_empty_program_is_an_empty_text() {
    assert_eq!(empty().compile(), "");
}

#[test]
fn a_constant_names_its_value_as_a_string() {
    assert_eq!(RustCompiler::new(program("const x = y")).compile(), "const x: &str = \"y\";");
}

#[test]
fn other_top_level_statements_give_nothing() {
    assert_eq!(RustCompiler::new(program("x = 1\nf()")).compile(), "");
}

#[test]
fn a_function_with_arguments_and_a_body() {
    let source = "fn async get(a: str, b: int, c: bool): int {\n let x = a\n str y = a\n int z = 42\n let w = get(a, b, c)\n let v = g()\n}";
    assert_eq!(
        RustCompiler::new(program(source)).compile(),
        "async fn get(a: &str, b: int, c: bool) -> int {\n    let x = a;\n    let y = \"a\";\n    let z = 42;\n    let w = get(a,b,c);\n    let v = g();\n}"
    );
}

#[test]
fn return_types() {
    let cases = vec![
        ("bool", " -> bool"),
        ("int", " -> int"),
        ("str", " -> str"),
        ("mlstr", " -> str"),
        ("void", ""),
    ];
    for (written, expected) in cases {
        assert_eq!(
            RustCompiler::new(program(&format!("fn f(): {} {{ }}", written))).compile(),
            format!("fn f(){} {{\n}}", expected)
        );
    }
    assert_eq!(RustCompiler::new(program("fn f() { }")).compile(), "fn f() {\n}");
}

#[test]
fn constants_come_before_functions() {
    assert_eq!(
        RustCompiler::new(program("fn f() { }\nconst a = b\nfn g() { }\nconst c = d")).compile(),
        "const a: &str = \"b\";\n\nconst c: &str = \"d\";\n\nfn f() {\n}\n\nfn g() {\n}"
    );
}

#[test]
fn expressions() {
    let compiler = empty();
    assert_eq!(compiler.compile_expr(&Expression::Int(0), ""), "0");
    assert_eq!(compiler.compile_expr(&Expression::Int(7), "int"), "7");
    assert_eq!(compiler.compile_expr(&Expression::Int(1234567890), "str"), "1234567890");
    assert_eq!(
        compiler.compile_expr(&Expression::Int(u64::MAX), ""),
        "18446744073709551615"
    );
    assert_eq!(compiler.compile_expr(&Expression::Variable(String::from("v")), "int"), "v");
    assert_eq!(compiler.compile_expr(&Expression::Variable(String::from("v")), "str"), "\"v\"");
    assert_eq!(
        compiler.compile_expr(&Expression::FunctionCall(String::from("f"), vec![]), "str"),
        "f()"
    );
    assert_eq!(
        compiler.compile_expr(
            &Expression::FunctionCall(
                String::from("f"),
                vec![Expression::Variable(String::from("a"))]
            ),
            ""
        ),
        "f(a)"
    );
    assert_eq!(
        compiler.compile_expr(
            &Expression::FunctionCall(
                String::from("max"),
                vec![
                    Expression::Variable(String::from("a")),
                    Expression::Variable(String::from("b")),
                    Expression::Variable(String::from("c")),
                ]
            ),
            "str"
        ),
        "max(a,b,c)"
    );
}

#[test]
fn a_declaration_is_a_let_binding() {
    let compiler = empty();
    assert_eq!(
        compiler.compile_statement(&Statement::Declare(
            variable("n", "int"),
            Some(Expression::Int(5))
        )),
        "let n = 5;"
    );
    assert_eq!(
        compiler.compile_statement(&Statement::Declare(
            variable("s", "str"),
            Some(Expression::Variable(String::from("t")))
        )),
        "let s = \"t\";"
    );
}

#[test]
fn a_quote_in_a_constant_is_escaped() {
    let globals = vec![Statement::Declare(
        variable("q", "&str"),
        Some(Expression::Variable(String::from("a\"b\\c\n"))),
    )];
    let compiler = RustCompiler::new(Program { imports: vec![], func: vec![], globals });
    assert_eq!(compiler.compile(), "const q: &str = \"a\\\"b\\\\c\\n\";");
}

#[test]
fn what_the_compiler_accepts() {
    assert!(empty().can_compile());
    assert!(RustCompiler::new(program("const x = y\nfn f(a: int) { let b = a let c = f(a, b) }")).can_compile());
    assert!(RustCompiler::new(program("x = 1\nf(2)")).can_compile());
    assert!(!RustCompiler::new(program("const x = 23")).can_compile());
    assert!(!RustCompiler::new(program("fn f() { return 1 }")).can_compile());
    assert!(!RustCompiler::new(program("fn f() { let a = 1 + 2 }")).can_compile());
    assert!(!RustCompiler::new(program("fn f() { let a = g(1) }")).can_compile());
    assert!(!RustCompiler::new(program("fn f() { } fn g() { let a = \"s\" }")).can_compile());
    assert!(RustCompiler::accepts_expression(&Expression::Int(1)));
    assert!(!RustCompiler::accepts_expression(&Expression::Bool(true)));
    assert!(!RustCompiler::accepts_statement(&Statement::Exp(Expression::Int(1))));
    assert!(RustCompiler::accepts_statement(&Statement::Declare(
        variable("a", ""),
        Some(Expression::Int(1))
    )));
}
