use lexer::{
    front_end, has_stray_close, parse_source, Expression, ParseError, Program, Size, Statement, TokenizeError,
    Variable,
};

#[test]
fn a_source_is_tokenized_and_parsed() {
    let (program, tokens) = parse_source("const x = 23", "main.zt").unwrap();
    assert_eq!(tokens.len(), 4);
    assert_eq!(
        program,
        Program {
            imports: vec![],
            func: vec![],
            globals: vec![Statement::Declare(
                Variable { name: String::from("x"), t: String::from("&str"), size: Size::Byte },
                Some(Expression::Int(23))
            )],
        }
    );
}

#[test]
fn an_error_of_the_tokenizer_is_passed_on() {
    match parse_source("a\n\u{1F52B}", "main.zt") {
        Err(ParseError::TokenizeError(TokenizeError::UnknownToken { c, linenum, filename })) => {
            assert_eq!(c, '\u{1F52B}');
            assert_eq!(linenum, 2);
            assert_eq!(filename, "main.zt");
        }
        other => panic!("{:?}", other),
    }
    match parse_source("12ab", "main.zt") {
        Err(ParseError::TokenizeError(TokenizeError::InvalidInteger(_))) => {}
        other => panic!("{:?}", other),
    }
}

#[test]
fn an_error_of_the_parser_names_the_file() {
    match parse_source("fn f(): { }", "lib.zt") {
        Err(ParseError::AbsentReturnType { fnname, linenum, filename }) => {
            assert_eq!(fnname, "f");
            assert_eq!(linenum, 1);
            assert_eq!(filename, "lib.zt");
        }
        other => panic!("{:?}", other),
    }
}

#[test]
fn comments_are_taken_out_first() {
    let (program, tokens) =
        front_end("/* a ; comment */ x /* nested /* one */ */ = 1 // tail ;\n", "a").unwrap().unwrap();
    assert_eq!(tokens.len(), 3);
    assert_eq!(
        program.globals,
        vec![Statement::Exp(Expression::Assign(String::from("x"), Box::new(Expression::Int(1))))]
    );
    assert!(parse_source("/* a */ x", "a").is_err());
}

#[test]
fn a_close_without_an_open_is_found() {
    let stray = ["*/", "a */ b", "/* a */ */", "/* /* */ */ */", "// x\n*/", "/**/*/", "x*//"];
    for source in stray {
        assert!(has_stray_close(source), "{:?}", source);
        assert!(front_end(source, "f").is_none(), "{:?}", source);
    }
    let sound = [
        "",
        "*",
        "/",
        "* /",
        "/* */",
        "/* /* */ */",
        "// */",
        "// */\n",
        "/* // */",
        "/* */ // */",
        "/* open",
        "/* /* */ still open",
        "/*/",
        "a /*/ b */ c",
        "//\n/* */",
        "/* \n */",
    ];
    for source in sound {
        assert!(!has_stray_close(source), "{:?}", source);
        assert!(front_end(source, "f").is_some(), "{:?}", source);
    }
}

#[test]
fn every_short_text_without_a_stray_close_is_taken() {
    let alphabet = ['/', '*', '\n', 'a'];
    let mut texts: Vec<String> = vec![String::new()];
    let mut taken = 0;
    let mut refused = 0;
    for _ in 0..8 {
        let mut longer = Vec::new();
        for text in &texts {
            for c in alphabet {
                let mut next = text.clone();
                next.push(c);
                longer.push(next);
            }
        }
        for text in &longer {
            if has_stray_close(text) {
                refused += 1;
                assert!(front_end(text, "f").is_none());
            } else {
                taken += 1;
                assert!(front_end(text, "f").is_some());
            }
        }
        texts = longer;
    }
    assert_eq!(taken + refused, 87380);
    assert!(taken > 1000 && refused > 1000);
}

#[test]
fn what_is_left_without_comments() {
    let tokens = |source: &str| front_end(source, "f").unwrap().unwrap().1.len();
    assert_eq!(tokens("a /* b c */ d"), 2);
    assert_eq!(tokens("a /* b /* c */ d */ e"), 2);
    assert_eq!(tokens("a // b c\nd"), 2);
    assert_eq!(tokens("a /* // */ b"), 2);
    assert_eq!(tokens("a // /* \n b"), 2);
    assert_eq!(tokens("/* never closed a b c"), 0);
}
