use lexer::{
    tokenize, BinOp, Expression, Function, Import, Keyword, ParseError, Parser, ParserDescriptor,
    Program, Size, Statement, Token, TokenType, Type, UnOp, Variable,
};

fn parse(source: &str) -> Result<Program, ParseError> {
    let tokens = tokenize(source, "unit.zt").unwrap();
    let mut parser = Parser::new(tokens, "unit.zt".into());
    parser.parse().map(|(program, _)| program)
}

fn expression(source: &str) -> Expression {
    let program = parse(source).unwrap();
    assert!(program.imports.is_empty());
    assert!(program.func.is_empty());
    let mut globals = program.globals;
    assert_eq!(globals.len(), 1, "{:?}", globals);
    match globals.remove(0) {
        Statement::Exp(e) => e,
        other => panic!("{:?}", other),
    }
}

fn body(source: &str) -> Vec<Statement> {
    let program = parse(&format!("fn f() {{ {} }}", source)).unwrap();
    assert_eq!(program.func.len(), 1);
    let mut functions = program.func;
    functions.remove(0).statements
}

fn num(n: u64) -> Box<Expression> {
    Box::new(Expression::Int(n))
}

fn var(name: &str) -> Box<Expression> {
    Box::new(Expression::Variable(String::from(name)))
}

fn binop(op: BinOp, lhs: Box<Expression>, rhs: Box<Expression>) -> Box<Expression> {
    Box::new(Expression::BinOp(op, lhs, rhs))
}

fn variable(name: &str, t: &str, size: Size) -> Variable {
    Variable { name: String::from(name), t: String::from(t), size }
}

#[test]
fn an_empty_token_sequence_is_an_empty_program() {
    let mut parser = Parser::new(vec![], "".into());
    let (program, tokens) = parser.parse().unwrap();
    assert_eq!(program, Program { imports: vec![], func: vec![], globals: vec![] });
    assert_eq!(tokens, vec![]);
}

#[test]
fn parse_hands_back_the_tokens() {
    let tokens = tokenize("const x = 23\nfn f() { }", "a").unwrap();
    let mut parser = Parser::new(tokens, "a".into());
    let (_, raw) = parser.parse().unwrap();
    assert_eq!(raw, tokenize("const x = 23\nfn f() { }", "a").unwrap());
}

#[test]
fn a_second_parse_finds_nothing_left() {
    let tokens = tokenize("x = 1", "a").unwrap();
    let mut parser = Parser::new(tokens, "a".into());
    let (first, _) = parser.parse().unwrap();
    assert_eq!(first.globals.len(), 1);
    let (second, raw) = parser.parse().unwrap();
    assert_eq!(second, Program { imports: vec![], func: vec![], globals: vec![] });
    assert_eq!(raw.len(), 3);
}

#[test]
fn multiplication_binds_tighter_than_addition() {
    assert_eq!(
        expression("1 + 2 * 3"),
        *binop(BinOp::Addition, num(1), binop(BinOp::Multiplication, num(2), num(3)))
    );
    assert_eq!(
        expression("1 * 2 + 3"),
        *binop(BinOp::Addition, binop(BinOp::Multiplication, num(1), num(2)), num(3))
    );
}

#[test]
fn binary_operators_associate_to_the_left() {
    assert_eq!(
        expression("1 - 2 - 3"),
        *binop(BinOp::Subtraction, binop(BinOp::Subtraction, num(1), num(2)), num(3))
    );
    assert_eq!(
        expression("8 / 4 % 3 * 2"),
        *binop(
            BinOp::Multiplication,
            binop(BinOp::Modulus, binop(BinOp::Division, num(8), num(4)), num(3)),
            num(2)
        )
    );
}

#[test]
fn each_level_binds_tighter_than_the_one_before() {
    // a , b || c && d | e ^ f & g == h < i << j + k * l
    let expected = binop(
        BinOp::Comma,
        var("a"),
        binop(
            BinOp::Or,
            var("b"),
            binop(
                BinOp::And,
                var("c"),
                binop(
                    BinOp::BitwiseOr,
                    var("d"),
                    binop(
                        BinOp::BitwiseXor,
                        var("e"),
                        binop(
                            BinOp::BitwiseAnd,
                            var("f"),
                            binop(
                                BinOp::Equal,
                                var("g"),
                                binop(
                                    BinOp::LessThan,
                                    var("h"),
                                    binop(
                                        BinOp::BitwiseLeft,
                                        var("i"),
                                        binop(
                                            BinOp::Addition,
                                            var("j"),
                                            binop(BinOp::Multiplication, var("k"), var("l")),
                                        ),
                                    ),
                                ),
                            ),
                        ),
                    ),
                ),
            ),
        ),
    );
    assert_eq!(expression("a , b || c && d | e ^ f & g == h < i << j + k * l"), *expected);
}

#[test]
fn every_binary_operator() {
    let cases = vec![
        ("*", BinOp::Multiplication),
        ("/", BinOp::Division),
        ("%", BinOp::Modulus),
        ("+", BinOp::Addition),
        ("-", BinOp::Subtraction),
        ("<", BinOp::LessThan),
        ("<=", BinOp::LessThanOrEqual),
        (">", BinOp::GreaterThan),
        (">=", BinOp::GreaterThanOrEqual),
        ("==", BinOp::Equal),
        ("!=", BinOp::NotEqual),
        ("&&", BinOp::And),
        ("||", BinOp::Or),
        ("<<", BinOp::BitwiseLeft),
        (">>", BinOp::BitwiseRight),
        ("&", BinOp::BitwiseAnd),
        ("^", BinOp::BitwiseXor),
        ("|", BinOp::BitwiseOr),
        (",", BinOp::Comma),
    ];
    for (text, op) in cases {
        assert_eq!(expression(&format!("a {} b", text)), *binop(op, var("a"), var("b")));
    }
}

#[test]
fn a_ternary_chain_nests_to_the_right() {
    let inner = Expression::Ternary(var("c"), var("d"), var("e"));
    assert_eq!(
        expression("a ? b : c ? d : e"),
        Expression::Ternary(var("a"), var("b"), Box::new(inner))
    );
    assert_eq!(
        expression("a || b ? 1 : 2"),
        Expression::Ternary(binop(BinOp::Or, var("a"), var("b")), num(1), num(2))
    );
}

#[test]
fn a_ternary_without_colon_is_an_error() {
    match parse("a ? b c") {
        Err(ParseError::UnexpectedToken { expected, received, linenum, filename }) => {
            assert_eq!(expected, ParserDescriptor::Token(Token::Colon));
            assert_eq!(received, Token::Identifier(String::from("c")));
            assert_eq!(linenum, 1);
            assert_eq!(filename, "unit.zt");
        }
        other => panic!("{:?}", other),
    }
    match parse("a ? b") {
        Err(ParseError::AbsentToken { expected }) => {
            assert_eq!(expected, ParserDescriptor::Token(Token::Colon));
        }
        other => panic!("{:?}", other),
    }
}

#[test]
fn a_compound_assignment_stands_for_an_assignment() {
    assert_eq!(
        expression("x += 1"),
        Expression::Assign(String::from("x"), binop(BinOp::Addition, var("x"), num(1)))
    );
    let cases = vec![
        ("+=", BinOp::Addition),
        ("-=", BinOp::Subtraction),
        ("*=", BinOp::Multiplication),
        ("/=", BinOp::Division),
        ("%=", BinOp::Modulus),
        ("<<=", BinOp::BitwiseLeft),
        (">>=", BinOp::BitwiseRight),
        ("&=", BinOp::BitwiseAnd),
        ("|=", BinOp::BitwiseOr),
        ("^=", BinOp::BitwiseXor),
    ];
    for (text, op) in cases {
        assert_eq!(
            expression(&format!("v {} a + 2", text)),
            Expression::Assign(
                String::from("v"),
                binop(op, var("v"), binop(BinOp::Addition, var("a"), num(2)))
            )
        );
    }
}

#[test]
fn an_assignment_takes_a_full_expression() {
    assert_eq!(expression("x = 5"), Expression::Assign(String::from("x"), num(5)));
    assert_eq!(
        expression("x = y = 2"),
        Expression::Assign(
            String::from("x"),
            Box::new(Expression::Assign(String::from("y"), num(2)))
        )
    );
    assert_eq!(
        expression("x = 1, 2"),
        Expression::Assign(String::from("x"), binop(BinOp::Comma, num(1), num(2)))
    );
}

#[test]
fn literals_and_variables() {
    assert_eq!(expression("42"), Expression::Int(42));
    assert_eq!(expression("0x2A"), Expression::Int(42));
    assert_eq!(expression("\"hi there\""), Expression::Char(String::from("hi there")));
    assert_eq!(expression("'c'"), Expression::Char(String::from("c")));
    assert_eq!(expression("`a\nb`"), Expression::MLStr(String::from("a\nb")));
    assert_eq!(expression("true"), Expression::Bool(true));
    assert_eq!(expression("false"), Expression::Bool(false));
    assert_eq!(expression("name"), Expression::Variable(String::from("name")));
    assert_eq!(expression("&name"), Expression::VariableRef(String::from("name")));
}

#[test]
fn increments_and_decrements() {
    assert_eq!(
        expression("i++"),
        Expression::AssignPostfix(String::from("i"), binop(BinOp::Addition, var("i"), num(1)))
    );
    assert_eq!(
        expression("i--"),
        Expression::AssignPostfix(String::from("i"), binop(BinOp::Subtraction, var("i"), num(1)))
    );
    assert_eq!(
        expression("++i"),
        Expression::Assign(String::from("i"), binop(BinOp::Addition, var("i"), num(1)))
    );
    assert_eq!(
        expression("--i"),
        Expression::Assign(String::from("i"), binop(BinOp::Subtraction, var("i"), num(1)))
    );
    assert_eq!(
        expression("i++ * 2"),
        *binop(
            BinOp::Multiplication,
            Box::new(Expression::AssignPostfix(
                String::from("i"),
                binop(BinOp::Addition, var("i"), num(1))
            )),
            num(2)
        )
    );
}

#[test]
fn unary_operators() {
    assert_eq!(expression("-a"), Expression::UnOp(UnOp::Negation, var("a")));
    assert_eq!(expression("!a"), Expression::UnOp(UnOp::LogicalNeg, var("a")));
    assert_eq!(expression("~a"), Expression::UnOp(UnOp::BitComp, var("a")));
    assert_eq!(
        expression("-!~1"),
        Expression::UnOp(
            UnOp::Negation,
            Box::new(Expression::UnOp(
                UnOp::LogicalNeg,
                Box::new(Expression::UnOp(UnOp::BitComp, num(1)))
            ))
        )
    );
    assert_eq!(
        expression("-a * b"),
        *binop(
            BinOp::Multiplication,
            Box::new(Expression::UnOp(UnOp::Negation, var("a"))),
            var("b")
        )
    );
    assert_eq!(
        expression("a - -b"),
        *binop(BinOp::Subtraction, var("a"), Box::new(Expression::UnOp(UnOp::Negation, var("b"))))
    );
}

#[test]
fn parentheses_group() {
    assert_eq!(
        expression("(1 + 2) * 3"),
        *binop(BinOp::Multiplication, binop(BinOp::Addition, num(1), num(2)), num(3))
    );
    assert_eq!(expression("((x))"), Expression::Variable(String::from("x")));
    match parse("(1 + 2") {
        Err(ParseError::AbsentToken { expected }) => {
            assert_eq!(expected, ParserDescriptor::Token(Token::CloseParen));
        }
        other => panic!("{:?}", other),
    }
    match parse("(1 + 2 }") {
        Err(ParseError::UnexpectedToken { expected, received, .. }) => {
            assert_eq!(expected, ParserDescriptor::Token(Token::CloseParen));
            assert_eq!(received, Token::CloseBrace);
        }
        other => panic!("{:?}", other),
    }
}

#[test]
fn calls() {
    assert_eq!(expression("f()"), Expression::FunctionCall(String::from("f"), vec![]));
    assert_eq!(
        expression("f(1, x, g(2))"),
        Expression::FunctionCall(
            String::from("f"),
            vec![
                Expression::Int(1),
                Expression::Variable(String::from("x")),
                Expression::FunctionCall(String::from("g"), vec![Expression::Int(2)]),
            ]
        )
    );
    assert_eq!(
        expression("f(b + 2, a = 1)"),
        Expression::FunctionCall(
            String::from("f"),
            vec![
                *binop(BinOp::Addition, var("b"), num(2)),
                Expression::Assign(String::from("a"), num(1)),
            ]
        )
    );
    assert_eq!(
        expression("f(a = 1, b + 2)"),
        Expression::FunctionCall(
            String::from("f"),
            vec![Expression::Assign(
                String::from("a"),
                binop(BinOp::Comma, num(1), binop(BinOp::Addition, var("b"), num(2)))
            )]
        )
    );
    assert_eq!(
        expression("f(1 2)"),
        Expression::FunctionCall(String::from("f"), vec![Expression::Int(1), Expression::Int(2)])
    );
    match parse("f(1, 2") {
        Err(ParseError::AbsentToken { expected }) => {
            assert_eq!(expected, ParserDescriptor::AnyVariable);
        }
        other => panic!("{:?}", other),
    }
}

#[test]
fn a_token_that_starts_no_expression() {
    match parse("x = \n )") {
        Err(ParseError::UnassignedVariable { linenum, filename }) => {
            assert_eq!(linenum, 2);
            assert_eq!(filename, "unit.zt");
        }
        other => panic!("{:?}", other),
    }
    match parse("1 +") {
        Err(ParseError::AbsentToken { expected }) => {
            assert_eq!(expected, ParserDescriptor::AnyVariable);
        }
        other => panic!("{:?}", other),
    }
    match parse("++ 1") {
        Err(ParseError::UnassignedVariable { linenum, .. }) => assert_eq!(linenum, 1),
        other => panic!("{:?}", other),
    }
    match parse("let") {
        Err(ParseError::UnassignedVariable { linenum, .. }) => assert_eq!(linenum, 1),
        other => panic!("{:?}", other),
    }
}

#[test]
fn a_reference_needs_a_name() {
    match parse("& 1") {
        Err(ParseError::UnexpectedToken { expected, received, linenum, .. }) => {
            assert_eq!(expected, ParserDescriptor::AnyVariable);
            assert_eq!(received, Token::Literal(lexer::Value::Int(1)));
            assert_eq!(linenum, 1);
        }
        other => panic!("{:?}", other),
    }
    match parse("&") {
        Err(ParseError::AbsentToken { expected }) => {
            assert_eq!(expected, ParserDescriptor::AnyVariable);
        }
        other => panic!("{:?}", other),
    }
}

#[test]
fn a_constant_at_top_level() {
    let tokens = tokenize("const x = 23", "").unwrap();
    assert_eq!(
        tokens.iter().map(|t| t.token.clone()).collect::<Vec<Token>>(),
        vec![
            Token::Keyword(Keyword::Const),
            Token::Identifier(String::from("x")),
            Token::Assign,
            Token::Literal(lexer::Value::Int(23)),
        ]
    );
    let mut parser = Parser::new(tokens, "".into());
    let (program, _) = parser.parse().unwrap();
    assert_eq!(
        program,
        Program {
            imports: vec![],
            func: vec![],
            globals: vec![Statement::Declare(
                variable("x", "&str", Size::Byte),
                Some(Expression::Int(23))
            )],
        }
    );
}

#[test]
fn declarations_in_a_body() {
    assert_eq!(
        body("int a = 1 let b = 2 bool c = true const d = 4 str e = \"s\""),
        vec![
            Statement::Declare(variable("a", "int", Size::Int), Some(Expression::Int(1))),
            Statement::Declare(variable("b", "", Size::Byte), Some(Expression::Int(2))),
            Statement::Declare(variable("c", "bool", Size::Byte), Some(Expression::Bool(true))),
            Statement::Declare(variable("d", "", Size::Byte), Some(Expression::Int(4))),
            Statement::Declare(
                variable("e", "str", Size::Byte),
                Some(Expression::Char(String::from("s")))
            ),
        ]
    );
}

#[test]
fn a_declaration_without_value_is_unassigned() {
    match parse("fn f() {\n int a\n}") {
        Err(ParseError::UnassignedVariable { linenum, filename }) => {
            assert_eq!(linenum, 2);
            assert_eq!(filename, "unit.zt");
        }
        other => panic!("{:?}", other),
    }
    match parse("const 5 = 1") {
        Err(ParseError::UnassignedVariable { linenum, .. }) => assert_eq!(linenum, 1),
        other => panic!("{:?}", other),
    }
    match parse("const") {
        Err(ParseError::AbsentToken { expected }) => {
            assert_eq!(expected, ParserDescriptor::AnyIdentifier);
        }
        other => panic!("{:?}", other),
    }
    match parse("const x") {
        Err(ParseError::UnassignedVariable { linenum, .. }) => assert_eq!(linenum, 1),
        other => panic!("{:?}", other),
    }
}

#[test]
fn statements() {
    assert_eq!(
        body("return a + 1"),
        vec![Statement::Return(*binop(BinOp::Addition, var("a"), num(1)))]
    );
    assert_eq!(
        body("if (a) b = 1"),
        vec![Statement::If(
            *var("a"),
            Box::new(Statement::Exp(Expression::Assign(String::from("b"), num(1)))),
            None
        )]
    );
    assert_eq!(
        body("if (a) { b } else { c }"),
        vec![Statement::If(
            *var("a"),
            Box::new(Statement::Compound(vec![Statement::Exp(*var("b"))])),
            Some(Box::new(Statement::Compound(vec![Statement::Exp(*var("c"))])))
        )]
    );
    assert_eq!(
        body("while (i < 3) { i++ }"),
        vec![Statement::While(
            *binop(BinOp::LessThan, var("i"), num(3)),
            Box::new(Statement::Compound(vec![Statement::Exp(Expression::AssignPostfix(
                String::from("i"),
                binop(BinOp::Addition, var("i"), num(1))
            ))]))
        )]
    );
    assert_eq!(
        body("{ } { { x } }"),
        vec![
            Statement::Compound(vec![]),
            Statement::Compound(vec![Statement::Compound(vec![Statement::Exp(*var("x"))])]),
        ]
    );
}

#[test]
fn an_else_belongs_to_the_nearest_if() {
    assert_eq!(
        body("if (a) if (b) c else d"),
        vec![Statement::If(
            *var("a"),
            Box::new(Statement::If(
                *var("b"),
                Box::new(Statement::Exp(*var("c"))),
                Some(Box::new(Statement::Exp(*var("d"))))
            )),
            None
        )]
    );
}

#[test]
fn if_and_while_need_a_parenthesis() {
    match parse("fn f() { if a }") {
        Err(ParseError::UnexpectedToken { expected, received, .. }) => {
            assert_eq!(expected, ParserDescriptor::Token(Token::OpenParen));
            assert_eq!(received, Token::Identifier(String::from("a")));
        }
        other => panic!("{:?}", other),
    }
    match parse("fn f() { while") {
        Err(ParseError::AbsentToken { expected }) => {
            assert_eq!(expected, ParserDescriptor::Token(Token::OpenParen));
        }
        other => panic!("{:?}", other),
    }
    match parse("fn f() { while (a }") {
        Err(ParseError::UnexpectedToken { expected, received, .. }) => {
            assert_eq!(expected, ParserDescriptor::Token(Token::CloseParen));
            assert_eq!(received, Token::CloseBrace);
        }
        other => panic!("{:?}", other),
    }
}

#[test]
fn an_open_block_is_an_error() {
    match parse("fn f() { a = 1") {
        Err(ParseError::AbsentToken { expected }) => {
            assert_eq!(expected, ParserDescriptor::AnyVariable);
        }
        other => panic!("{:?}", other),
    }
}

#[test]
fn functions() {
    assert_eq!(
        parse("fn main() { }").unwrap(),
        Program {
            imports: vec![],
            func: vec![Function {
                is_async: false,
                name: String::from("main"),
                return_type: Type::Void,
                arguments: vec![],
                statements: vec![],
            }],
            globals: vec![],
        }
    );
    assert_eq!(
        parse("fn async get(a: int, b: str, c: mlstr, d: bool): bool { return d }").unwrap().func,
        vec![Function {
            is_async: true,
            name: String::from("get"),
            return_type: Type::Bool,
            arguments: vec![
                variable("a", "int", Size::Int),
                variable("b", "str", Size::Byte),
                variable("c", "mlstr", Size::Byte),
                variable("d", "bool", Size::Byte),
            ],
            statements: vec![Statement::Return(*var("d"))],
        }]
    );
    let types = vec![
        ("bool", Type::Bool),
        ("mlstr", Type::Mlstr),
        ("int", Type::Int),
        ("str", Type::Str),
        ("void", Type::Void),
    ];
    for (text, t) in types {
        let program = parse(&format!("fn f(): {} {{ }}", text)).unwrap();
        assert_eq!(program.func[0].return_type, t);
    }
    assert_eq!(
        parse("fn f(a: int b: int) { }").unwrap().func[0].arguments,
        vec![variable("a", "int", Size::Int), variable("b", "int", Size::Int)]
    );
}

#[test]
fn a_missing_return_type() {
    match parse("fn f(): { }") {
        Err(ParseError::AbsentReturnType { fnname, linenum, filename }) => {
            assert_eq!(fnname, "f");
            assert_eq!(linenum, 1);
            assert_eq!(filename, "unit.zt");
        }
        other => panic!("{:?}", other),
    }
    match parse("fn g()\n:\nx { }") {
        Err(ParseError::AbsentReturnType { fnname, linenum, .. }) => {
            assert_eq!(fnname, "g");
            assert_eq!(linenum, 3);
        }
        other => panic!("{:?}", other),
    }
    match parse("fn f():") {
        Err(ParseError::AbsentToken { expected }) => {
            assert_eq!(expected, ParserDescriptor::NoToken);
        }
        other => panic!("{:?}", other),
    }
}

#[test]
fn a_parameter_of_another_type() {
    match parse("fn f(a: void) { }") {
        Err(ParseError::UnexpectedType { expected, received, linenum, filename }) => {
            assert_eq!(expected, Type::Int);
            assert_eq!(received, Type::Char);
            assert_eq!(linenum, 1);
            assert_eq!(filename, "unit.zt");
        }
        other => panic!("{:?}", other),
    }
    match parse("fn f(a:\n\nb) { }") {
        Err(ParseError::UnexpectedType { linenum, .. }) => assert_eq!(linenum, 3),
        other => panic!("{:?}", other),
    }
    match parse("fn f(a:") {
        Err(ParseError::AbsentToken { expected }) => {
            assert_eq!(expected, ParserDescriptor::NoToken);
        }
        other => panic!("{:?}", other),
    }
}

#[test]
fn malformed_function_heads() {
    match parse("fn 1() { }") {
        Err(ParseError::UnexpectedToken { expected, received, .. }) => {
            assert_eq!(expected, ParserDescriptor::AnyIdentifier);
            assert_eq!(received, Token::Literal(lexer::Value::Int(1)));
        }
        other => panic!("{:?}", other),
    }
    match parse("fn") {
        Err(ParseError::AbsentToken { expected }) => {
            assert_eq!(expected, ParserDescriptor::AnyIdentifier);
        }
        other => panic!("{:?}", other),
    }
    match parse("fn f { }") {
        Err(ParseError::UnexpectedToken { expected, received, .. }) => {
            assert_eq!(expected, ParserDescriptor::Token(Token::OpenParen));
            assert_eq!(received, Token::OpenBrace);
        }
        other => panic!("{:?}", other),
    }
    match parse("fn f(a b) { }") {
        Err(ParseError::UnexpectedToken { expected, received, .. }) => {
            assert_eq!(expected, ParserDescriptor::Token(Token::Colon));
            assert_eq!(received, Token::Identifier(String::from("b")));
        }
        other => panic!("{:?}", other),
    }
    match parse("fn f()") {
        Err(ParseError::AbsentToken { expected }) => {
            assert_eq!(expected, ParserDescriptor::Token(Token::OpenBrace));
        }
        other => panic!("{:?}", other),
    }
    match parse("fn f() x") {
        Err(ParseError::UnexpectedToken { expected, received, .. }) => {
            assert_eq!(expected, ParserDescriptor::Token(Token::OpenBrace));
            assert_eq!(received, Token::Identifier(String::from("x")));
        }
        other => panic!("{:?}", other),
    }
}

#[test]
fn imports() {
    let program = parse("use a::b::c\nuse d\nfn f() { }").unwrap();
    assert_eq!(
        program.imports,
        vec![
            Import { name: vec![String::from("a"), String::from("b"), String::from("c")] },
            Import { name: vec![String::from("d")] },
        ]
    );
    assert_eq!(program.func.len(), 1);
    let program = parse("use std::io const x = 1").unwrap();
    assert_eq!(
        program.imports,
        vec![Import { name: vec![String::from("std"), String::from("io")] }]
    );
    assert_eq!(program.globals.len(), 1);
}

#[test]
fn an_import_at_the_end_lacks_a_token() {
    match parse("use a::b") {
        Err(ParseError::AbsentToken { expected }) => {
            assert_eq!(expected, ParserDescriptor::AnyIdentifier);
        }
        other => panic!("{:?}", other),
    }
}

#[test]
fn a_token_that_is_no_identifier_ends_an_import() {
    let program = parse("use a b = 1").unwrap();
    assert_eq!(
        program.imports,
        vec![Import { name: vec![String::from("a"), String::from("b")] }]
    );
    assert_eq!(program.globals, vec![Statement::Exp(Expression::Int(1))]);
}

#[test]
fn items_in_any_order() {
    let program = parse("x = 1\nfn f() { }\nuse a fn g() { }\ny").unwrap();
    assert_eq!(program.imports.len(), 1);
    assert_eq!(program.func.len(), 2);
    assert_eq!(program.func[0].name, "f");
    assert_eq!(program.func[1].name, "g");
    assert_eq!(
        program.globals,
        vec![
            Statement::Exp(Expression::Assign(String::from("x"), num(1))),
            Statement::Exp(*var("y")),
        ]
    );
}

#[test]
fn tokens_built_by_hand() {
    let token = |t: Token, line: u32| TokenType { token: t, val: String::new(), linenum: line };
    let tokens = vec![
        token(Token::Identifier(String::from("a")), 7),
        token(Token::Multiplication, 7),
        token(Token::CloseSquareParen, 9),
    ];
    let mut parser = Parser::new(tokens, String::from("hand.zt"));
    match parser.parse() {
        Err(ParseError::UnassignedVariable { linenum, filename }) => {
            assert_eq!(linenum, 9);
            assert_eq!(filename, "hand.zt");
        }
        other => panic!("{:?}", other),
    }
}

#[test]
fn a_clone_of_a_program_is_equal_to_it() {
    let program = parse(
        "use a::b\nconst c = d\nfn f(x: int): int { if (x) { return g(x, 1) } else while (x) x-- }",
    )
    .unwrap();
    assert_eq!(program.clone(), program);
    assert_eq!(program.func[0].clone(), program.func[0]);
    assert_eq!(program.imports[0].clone(), program.imports[0]);
    assert_eq!(program.globals[0].clone(), program.globals[0]);
}
