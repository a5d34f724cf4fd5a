use lexer::{
    parse_source, tokenize, Keyword, ParseError, ParserDescriptor, Token, TokenizeError, Type,
    Value,
};

fn all_tokens() -> Vec<Token> {
    vec![
        Token::OpenBrace,
        Token::CloseBrace,
        Token::OpenParen,
        Token::CloseParen,
        Token::OpenSquareParen,
        Token::CloseSquareParen,
        Token::Keyword(Keyword::Int),
        Token::Keyword(Keyword::Async),
        Token::Keyword(Keyword::String),
        Token::Keyword(Keyword::Void),
        Token::Keyword(Keyword::True),
        Token::Keyword(Keyword::False),
        Token::Keyword(Keyword::MLstr),
        Token::Keyword(Keyword::Let),
        Token::Keyword(Keyword::Func),
        Token::Keyword(Keyword::Bool),
        Token::Keyword(Keyword::Return),
        Token::Keyword(Keyword::If),
        Token::Keyword(Keyword::Else),
        Token::Keyword(Keyword::While),
        Token::Keyword(Keyword::Use),
        Token::Keyword(Keyword::Pub),
        Token::Keyword(Keyword::Const),
        Token::Keyword(Keyword::For),
        Token::Identifier(String::from("name")),
        Token::Identifier(String::from("a\"b")),
        Token::Literal(Value::Int(0)),
        Token::Literal(Value::Int(u64::MAX)),
        Token::Literal(Value::Char(String::from("text\n"))),
        Token::Literal(Value::MLStr(String::from("a\\b 'c'"))),
        Token::BitComp,
        Token::LogicalNeg,
        Token::Negation,
        Token::Addition,
        Token::Multiplication,
        Token::Division,
        Token::Modulus,
        Token::Dot,
        Token::And,
        Token::Or,
        Token::Equal,
        Token::NotEqual,
        Token::LessThan,
        Token::LessThanOrEqual,
        Token::GreaterThan,
        Token::GreaterThanOrEqual,
        Token::BitwiseLeft,
        Token::BitwiseRight,
        Token::BitwiseAnd,
        Token::BitwiseXor,
        Token::BitwiseOr,
        Token::Assign,
        Token::Comma,
        Token::AsignFunc,
        Token::AssignAdd,
        Token::AssignSub,
        Token::AssignDiv,
        Token::AssignMul,
        Token::AssignMod,
        Token::AssignBitLeft,
        Token::AssignBitRight,
        Token::AssignAnd,
        Token::AssignOr,
        Token::AssignXor,
        Token::HashTag,
        Token::Increment,
        Token::Decrement,
        Token::Colon,
        Token::DoubleColon,
        Token::Dollar,
        Token::Question,
    ]
}

#[test]
fn a_token_is_written_as_its_debug_form() {
    for token in all_tokens() {
        assert_eq!(token.to_text(), format!("{:?}", token));
    }
    assert_eq!(Token::Identifier(String::from("x")).to_text(), "Identifier(\"x\")");
    assert_eq!(Token::Literal(Value::Int(26)).to_text(), "Literal(Int(26))");
    assert_eq!(Token::Keyword(Keyword::Func).to_text(), "Keyword(Func)");
}

#[test]
fn a_descriptor_is_written_as_its_debug_form() {
    let mut descriptors = vec![
        ParserDescriptor::AnyIdentifier,
        ParserDescriptor::AnyVariable,
        ParserDescriptor::Newline,
        ParserDescriptor::NoToken,
    ];
    for token in all_tokens() {
        descriptors.push(ParserDescriptor::Token(token));
    }
    for descriptor in descriptors {
        assert_eq!(descriptor.to_text(), format!("{:?}", descriptor));
    }
}

#[test]
fn keywords_and_types_are_written_by_name() {
    assert_eq!(lexer::render::keyword_to_string(Keyword::MLstr), "MLstr");
    for t in [Type::Bool, Type::Str, Type::Void, Type::Int, Type::Mlstr, Type::Char] {
        assert_eq!(lexer::render::type_to_string(t), format!("{:?}", t));
    }
}

#[test]
fn messages_of_the_tokenizer() {
    let unknown = tokenize("a\n\n;", "main.zt").unwrap_err();
    assert_eq!(unknown.message(), "invalid token ';', in line 3");
    let quote = TokenizeError::UnknownToken { c: '\'', linenum: 7, filename: String::new() };
    assert_eq!(quote.message(), "invalid token '\\'', in line 7");
    let integer = tokenize("1x", "main.zt").unwrap_err();
    assert_eq!(integer.message(), "invalid integer ");
}

#[test]
fn messages_of_the_parser() {
    let message = |source: &str| parse_source(source, "main.zt").unwrap_err().message();
    assert_eq!(message("\nconst x"), "unassigned variable, in main.zt:2");
    assert_eq!(
        message("fn f(a b) { }"),
        "expected Token(Colon) got Identifier(\"b\"): in main.zt:1"
    );
    assert_eq!(message("fn 7"), "expected AnyIdentifier got Literal(Int(7)): in main.zt:1");
    assert_eq!(message("fn f(a: void) { }"), "expected Int got Char main.zt:1");
    assert_eq!(message("(1"), "expected Token(CloseParen) to be present");
    assert_eq!(message("1 +"), "expected AnyVariable to be present");
    assert_eq!(
        message("fn f(): { }"),
        "expected return type to be present in function: \"f\", File: main.zt:1"
    );
    assert_eq!(message("`a` @"), "error tokenizing");
    assert_eq!(ParseError::Unknown.message(), "unknown error");
}

#[test]
fn an_error_of_the_tokenizer_becomes_an_error_of_the_parser() {
    let e = tokenize("#\n?\n\\", "f").unwrap_err();
    match ParseError::from(e) {
        ParseError::TokenizeError(TokenizeError::UnknownToken { c, linenum, filename }) => {
            assert_eq!(c, '\\');
            assert_eq!(linenum, 3);
            assert_eq!(filename, "f");
        }
        other => panic!("{:?}", other),
    }
}
