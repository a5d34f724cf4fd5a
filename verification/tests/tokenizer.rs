use lexer::{tokenize, IntegerFault, Keyword, Token, TokenType, TokenizeError, Value};

fn tokens_only(source: &str) -> Vec<Token> {
    tokenize(source, "test.zt").unwrap().into_iter().map(|t| t.token).collect()
}

fn positioned(token: Token, val: &str, linenum: u32) -> TokenType {
    TokenType { token, val: String::from(val), linenum }
}

#[test]
fn single_char_ops() {
    assert_eq!(
        tokenize("{}$", "").unwrap(),
        vec![
            TokenType {
                token: Token::OpenBrace,
                val: String::from("{"),
                linenum: 1
            },
            TokenType {
                token: Token::CloseBrace,
                val: String::from("}"),
                linenum: 1
            },
            TokenType {
                token: Token::Dollar,
                val: String::from("$"),
                linenum: 1
            }
        ]
    );
}

#[test]
fn multi_char_ops() {
    assert_eq!(
        tokenize("&&||>>", "").unwrap(),
        vec![
            TokenType {
                token: Token::And,
                val: "&&".to_string(),
                linenum: 1
            },
            TokenType {
                token: Token::Or,
                val: String::from("||"),
                linenum: 1
            },
            TokenType {
                token: Token::BitwiseRight,
                val: String::from(">>"),
                linenum: 1
            }
        ]
    );
}

#[test]
fn empty_source_has_no_tokens() {
    assert_eq!(tokenize("", "").unwrap(), vec![]);
    assert_eq!(tokenize(" \t\r\n", "").unwrap(), vec![]);
}

#[test]
fn tokenizing_twice_gives_the_same_tokens() {
    let source = "fn main() {\n  let x = 0x1F + `a\nb`\n}\n";
    assert_eq!(tokenize(source, "a").unwrap(), tokenize(source, "a").unwrap());
}

#[test]
fn lines_never_decrease() {
    let source = "use a::b\nfn f(x: int): int {\n  return x +\n 1 // done\n}\n`x\ny` z";
    let tokens = tokenize(source, "a").unwrap();
    assert!(tokens.len() > 10);
    for pair in tokens.windows(2) {
        assert!(pair[0].linenum <= pair[1].linenum);
    }
}

#[test]
fn hexadecimal_and_decimal_literals() {
    assert_eq!(tokens_only("0x1A"), vec![Token::Literal(Value::Int(26))]);
    assert_eq!(tokens_only("26"), vec![Token::Literal(Value::Int(26))]);
    assert_eq!(tokens_only("0"), vec![Token::Literal(Value::Int(0))]);
    assert_eq!(tokens_only("0xff"), vec![Token::Literal(Value::Int(255))]);
    assert_eq!(tokens_only("0xFF"), vec![Token::Literal(Value::Int(255))]);
    assert_eq!(
        tokens_only("18446744073709551615"),
        vec![Token::Literal(Value::Int(u64::MAX))]
    );
    assert_eq!(
        tokens_only("0xffffffffffffffff"),
        vec![Token::Literal(Value::Int(u64::MAX))]
    );
    assert_eq!(tokens_only("007"), vec![Token::Literal(Value::Int(7))]);
}

#[test]
fn a_number_keeps_the_text_it_was_written_with() {
    assert_eq!(
        tokenize("0x1A 26", "").unwrap(),
        vec![
            positioned(Token::Literal(Value::Int(26)), "0x1A", 1),
            positioned(Token::Literal(Value::Int(26)), "26", 1),
        ]
    );
}

#[test]
fn malformed_numbers_are_invalid_integers() {
    for source in ["12ab", "0x", "0x1x", "1x2", "18446744073709551616", "0x10000000000000000", "9f"] {
        match tokenize(source, "f") {
            Err(TokenizeError::InvalidInteger(_)) => {}
            other => panic!("{:?} gave {:?}", source, other),
        }
    }
}

#[test]
fn an_upper_case_x_ends_the_number() {
    assert_eq!(
        tokens_only("0X1"),
        vec![Token::Literal(Value::Int(0)), Token::Identifier(String::from("X1"))]
    );
}

#[test]
fn shift_operators_take_the_longest_spelling() {
    assert_eq!(tokens_only("<<="), vec![Token::AssignBitLeft]);
    assert_eq!(tokens_only("<<"), vec![Token::BitwiseLeft]);
    assert_eq!(tokens_only("< <"), vec![Token::LessThan, Token::LessThan]);
    assert_eq!(tokens_only(">>="), vec![Token::AssignBitRight]);
    assert_eq!(tokens_only(">>"), vec![Token::BitwiseRight]);
    assert_eq!(tokens_only("> >"), vec![Token::GreaterThan, Token::GreaterThan]);
    assert_eq!(tokens_only("<<<"), vec![Token::BitwiseLeft, Token::LessThan]);
    assert_eq!(tokens_only("<=<"), vec![Token::LessThanOrEqual, Token::LessThan]);
    assert_eq!(
        tokenize("a<<=b", "").unwrap(),
        vec![
            positioned(Token::Identifier(String::from("a")), "a", 1),
            positioned(Token::AssignBitLeft, "<<=", 1),
            positioned(Token::Identifier(String::from("b")), "b", 1),
        ]
    );
}

#[test]
fn every_operator_and_punctuation_mark() {
    let cases: Vec<(&str, Token)> = vec![
        ("{", Token::OpenBrace),
        ("}", Token::CloseBrace),
        ("(", Token::OpenParen),
        (")", Token::CloseParen),
        ("[", Token::OpenSquareParen),
        ("]", Token::CloseSquareParen),
        ("~", Token::BitComp),
        ("!", Token::LogicalNeg),
        ("-", Token::Negation),
        ("+", Token::Addition),
        ("*", Token::Multiplication),
        ("/", Token::Division),
        ("%", Token::Modulus),
        (".", Token::Dot),
        ("&&", Token::And),
        ("||", Token::Or),
        ("==", Token::Equal),
        ("!=", Token::NotEqual),
        ("<", Token::LessThan),
        ("<=", Token::LessThanOrEqual),
        (">", Token::GreaterThan),
        (">=", Token::GreaterThanOrEqual),
        ("<<", Token::BitwiseLeft),
        (">>", Token::BitwiseRight),
        ("&", Token::BitwiseAnd),
        ("^", Token::BitwiseXor),
        ("|", Token::BitwiseOr),
        ("=", Token::Assign),
        (",", Token::Comma),
        ("=>", Token::AsignFunc),
        ("+=", Token::AssignAdd),
        ("-=", Token::AssignSub),
        ("/=", Token::AssignDiv),
        ("*=", Token::AssignMul),
        ("%=", Token::AssignMod),
        ("<<=", Token::AssignBitLeft),
        (">>=", Token::AssignBitRight),
        ("&=", Token::AssignAnd),
        ("|=", Token::AssignOr),
        ("^=", Token::AssignXor),
        ("#", Token::HashTag),
        ("++", Token::Increment),
        ("--", Token::Decrement),
        (":", Token::Colon),
        ("::", Token::DoubleColon),
        ("$", Token::Dollar),
        ("?", Token::Question),
    ];
    for (source, token) in cases {
        assert_eq!(
            tokenize(source, "").unwrap(),
            vec![TokenType { token: token.clone(), val: String::from(source), linenum: 1 }],
            "source {:?}",
            source
        );
        let padded = format!(" {} x", source);
        assert_eq!(
            tokens_only(&padded),
            vec![token, Token::Identifier(String::from("x"))],
            "source {:?}",
            padded
        );
    }
}

#[test]
fn an_arrow_takes_two_characters() {
    assert_eq!(
        tokens_only("a=>b"),
        vec![
            Token::Identifier(String::from("a")),
            Token::AsignFunc,
            Token::Identifier(String::from("b")),
        ]
    );
}

#[test]
fn keywords_and_identifiers() {
    assert_eq!(
        tokens_only("fn x() { }"),
        vec![
            Token::Keyword(Keyword::Func),
            Token::Identifier(String::from("x")),
            Token::OpenParen,
            Token::CloseParen,
            Token::OpenBrace,
            Token::CloseBrace,
        ]
    );
    let keywords: Vec<(&str, Keyword)> = vec![
        ("int", Keyword::Int),
        ("async", Keyword::Async),
        ("str", Keyword::String),
        ("void", Keyword::Void),
        ("true", Keyword::True),
        ("false", Keyword::False),
        ("mlstr", Keyword::MLstr),
        ("let", Keyword::Let),
        ("fn", Keyword::Func),
        ("bool", Keyword::Bool),
        ("return", Keyword::Return),
        ("if", Keyword::If),
        ("else", Keyword::Else),
        ("while", Keyword::While),
        ("use", Keyword::Use),
        ("pub", Keyword::Pub),
        ("const", Keyword::Const),
        ("for", Keyword::For),
    ];
    for (word, keyword) in keywords {
        assert_eq!(
            tokenize(word, "").unwrap(),
            vec![positioned(Token::Keyword(keyword), word, 1)]
        );
    }
}

#[test]
fn keywords_are_case_sensitive_and_whole_words() {
    assert_eq!(tokens_only("Fn"), vec![Token::Identifier(String::from("Fn"))]);
    assert_eq!(tokens_only("fnx"), vec![Token::Identifier(String::from("fnx"))]);
    assert_eq!(tokens_only("if2"), vec![Token::Identifier(String::from("if2"))]);
    assert_eq!(tokens_only("TRUE"), vec![Token::Identifier(String::from("TRUE"))]);
    assert_eq!(
        tokens_only("x1y2 abc"),
        vec![Token::Identifier(String::from("x1y2")), Token::Identifier(String::from("abc"))]
    );
}

#[test]
fn an_underscore_starts_no_token() {
    match tokenize("a_b", "f") {
        Err(TokenizeError::UnknownToken { c, linenum, filename }) => {
            assert_eq!(c, '_');
            assert_eq!(linenum, 1);
            assert_eq!(filename, "f");
        }
        other => panic!("{:?}", other),
    }
}

#[test]
fn quoted_literals() {
    assert_eq!(
        tokenize("\"hello world\"", "").unwrap(),
        vec![positioned(
            Token::Literal(Value::Char(String::from("hello world"))),
            "\"hello world\"",
            1
        )]
    );
    assert_eq!(
        tokenize("'c'", "").unwrap(),
        vec![positioned(Token::Literal(Value::Char(String::from("c"))), "'c'", 1)]
    );
    assert_eq!(
        tokenize("`a b`", "").unwrap(),
        vec![positioned(Token::Literal(Value::MLStr(String::from("a b"))), "`a b`", 1)]
    );
    assert_eq!(tokens_only("\"\""), vec![Token::Literal(Value::Char(String::new()))]);
    assert_eq!(
        tokens_only("\"it's\" 'say \"hi\"'"),
        vec![
            Token::Literal(Value::Char(String::from("it's"))),
            Token::Literal(Value::Char(String::from("say \"hi\""))),
        ]
    );
}

#[test]
fn the_closing_quote_is_taken_with_the_literal() {
    assert_eq!(
        tokens_only("\"a\"+\"b\""),
        vec![
            Token::Literal(Value::Char(String::from("a"))),
            Token::Addition,
            Token::Literal(Value::Char(String::from("b"))),
        ]
    );
    assert_eq!(
        tokens_only("`a`=`b`"),
        vec![
            Token::Literal(Value::MLStr(String::from("a"))),
            Token::Assign,
            Token::Literal(Value::MLStr(String::from("b"))),
        ]
    );
}

#[test]
fn an_open_literal_runs_to_the_end() {
    assert_eq!(
        tokenize("\"abc", "").unwrap(),
        vec![positioned(Token::Literal(Value::Char(String::from("abc"))), "\"abc", 1)]
    );
    assert_eq!(
        tokenize("`", "").unwrap(),
        vec![positioned(Token::Literal(Value::MLStr(String::new())), "`", 1)]
    );
}

#[test]
fn a_line_feed_inside_a_literal_starts_a_line() {
    assert_eq!(
        tokenize("`a\nb\nc` x\ny", "").unwrap(),
        vec![
            positioned(Token::Literal(Value::MLStr(String::from("a\nb\nc"))), "`a\nb\nc`", 1),
            positioned(Token::Identifier(String::from("x")), "x", 3),
            positioned(Token::Identifier(String::from("y")), "y", 4),
        ]
    );
}

#[test]
fn line_numbers_count_line_feeds() {
    assert_eq!(
        tokenize("a\nb\r\n\n  c d", "").unwrap(),
        vec![
            positioned(Token::Identifier(String::from("a")), "a", 1),
            positioned(Token::Identifier(String::from("b")), "b", 2),
            positioned(Token::Identifier(String::from("c")), "c", 4),
            positioned(Token::Identifier(String::from("d")), "d", 4),
        ]
    );
}

#[test]
fn a_comment_runs_to_the_end_of_the_line() {
    assert_eq!(
        tokenize("a // b c $ \u{1F600}\nd", "").unwrap(),
        vec![
            positioned(Token::Identifier(String::from("a")), "a", 1),
            positioned(Token::Identifier(String::from("d")), "d", 2),
        ]
    );
    assert_eq!(tokens_only("// only a comment"), vec![]);
    assert_eq!(tokens_only("//"), vec![]);
    assert_eq!(
        tokens_only("a / b"),
        vec![
            Token::Identifier(String::from("a")),
            Token::Division,
            Token::Identifier(String::from("b")),
        ]
    );
    assert_eq!(tokens_only("/"), vec![Token::Division]);
    assert_eq!(tokens_only("/=/"), vec![Token::AssignDiv, Token::Division]);
}

#[test]
fn an_unsupported_symbol_is_an_unknown_token() {
    match tokenize("let a = 1\nlet b = \u{1F46B}\n", "main.zt") {
        Err(TokenizeError::UnknownToken { c, linenum, filename }) => {
            assert_eq!(c, '\u{1F46B}');
            assert_eq!(linenum, 2);
            assert_eq!(filename, "main.zt");
        }
        other => panic!("{:?}", other),
    }
    match tokenize("\n\n\n;", "x") {
        Err(TokenizeError::UnknownToken { c, linenum, .. }) => {
            assert_eq!(c, ';');
            assert_eq!(linenum, 4);
        }
        other => panic!("{:?}", other),
    }
    match tokenize("`a\nb` @", "x") {
        Err(TokenizeError::UnknownToken { c, linenum, .. }) => {
            assert_eq!(c, '@');
            assert_eq!(linenum, 2);
        }
        other => panic!("{:?}", other),
    }
}

#[test]
fn a_constant_declaration() {
    assert_eq!(
        tokens_only("const x = 23"),
        vec![
            Token::Keyword(Keyword::Const),
            Token::Identifier(String::from("x")),
            Token::Assign,
            Token::Literal(Value::Int(23)),
        ]
    );
}

#[test]
fn the_fault_of_a_malformed_number() {
    let fault = |source: &str| match tokenize(source, "f") {
        Err(TokenizeError::InvalidInteger(fault)) => fault,
        other => panic!("{:?} gave {:?}", source, other),
    };
    assert_eq!(fault("0x"), IntegerFault::Empty);
    assert_eq!(fault("0x "), IntegerFault::Empty);
    assert_eq!(fault("18446744073709551616"), IntegerFault::PosOverflow);
    assert_eq!(fault("0x10000000000000000"), IntegerFault::PosOverflow);
    assert_eq!(fault("99999999999999999999999999"), IntegerFault::PosOverflow);
    assert_eq!(fault("12ab"), IntegerFault::InvalidDigit);
    assert_eq!(fault("1x"), IntegerFault::InvalidDigit);
    assert_eq!(fault("0xx"), IntegerFault::InvalidDigit);
    assert_eq!(fault("9f + 1"), IntegerFault::InvalidDigit);
}
