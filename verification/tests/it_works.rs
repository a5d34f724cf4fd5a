use lexer::{tokenize, Compiler, Parser, RustCompiler};

#[test]
fn lib_it_works() {
    let tokens = tokenize("const x = 23", "").unwrap();
    let mut parser = Parser::new(tokens, "".into());
    let token = parser.parse().unwrap();
    let _compiler = RustCompiler::new(token.0);
}

#[test]
fn rustcompiler_it_works() {
    let tokens = tokenize("const x = 23", "").unwrap();
    let mut parser = Parser::new(tokens, "".into());
    let _compiler = RustCompiler::new(parser.parse().unwrap().0);
}
