use lexer::{Token, TokenParser, TokenType};

fn token(t: Token) -> TokenType {
    TokenType { token: t, val: String::new(), linenum: 1 }
}

#[test]
fn peek_leaves_the_character() {
    let scanner = TokenParser::new("ab");
    assert_eq!(scanner.peek(), Some(&'a'));
    assert_eq!(scanner.peek(), Some(&'a'));
    assert_eq!(TokenParser::new("").peek(), None);
}

#[test]
fn p_next_walks_through_the_text() {
    let mut scanner = TokenParser::new("a\u{e9}b");
    assert_eq!(scanner.p_next(), Some('a'));
    assert_eq!(scanner.p_next(), Some('\u{e9}'));
    assert_eq!(scanner.peek(), Some(&'b'));
    assert_eq!(scanner.p_next(), Some('b'));
    assert_eq!(scanner.p_next(), None);
    assert_eq!(scanner.p_next(), None);
    assert_eq!(scanner.peek(), None);
}

#[test]
fn drop_takes_one_character() {
    let mut scanner = TokenParser::new("xy");
    scanner.drop();
    assert_eq!(scanner.peek(), Some(&'y'));
    scanner.drop();
    assert_eq!(scanner.peek(), None);
    scanner.drop();
    assert_eq!(scanner.peek(), None);
}

#[test]
fn get_string_takes_the_longest_run() {
    let mut scanner = TokenParser::new("abc123 def");
    let run = scanner.get_string(|c| c.is_ascii_alphabetic());
    assert_eq!(run, "abc");
    assert_eq!(scanner.peek(), Some(&'1'));
    let none = scanner.get_string(|c| c.is_ascii_alphabetic());
    assert_eq!(none, "");
    assert_eq!(scanner.peek(), Some(&'1'));
    let rest = scanner.get_string(|_| true);
    assert_eq!(rest, "123 def");
    assert_eq!(scanner.peek(), None);
    assert_eq!(scanner.get_string(|_| true), "");
}

#[test]
fn get_string_starts_at_the_cursor() {
    let mut scanner = TokenParser::new("aXbbY");
    scanner.drop();
    scanner.drop();
    assert_eq!(scanner.get_string(|c| *c == 'b'), "bb");
    assert_eq!(scanner.p_next(), Some('Y'));
}

#[test]
fn push_emits_and_takes_a_character() {
    let mut scanner = TokenParser::new("{}");
    scanner.push(token(Token::OpenBrace));
    assert_eq!(scanner.peek(), Some(&'}'));
    scanner.push(token(Token::CloseBrace));
    assert_eq!(scanner.peek(), None);
    scanner.push(token(Token::Comma));
    assert_eq!(
        scanner.tokens,
        vec![token(Token::OpenBrace), token(Token::CloseBrace), token(Token::Comma)]
    );
}

#[test]
fn push_back_emits_and_takes_nothing() {
    let mut scanner = TokenParser::new("ab");
    scanner.push_back(token(Token::Dot));
    scanner.push_back(token(Token::Dollar));
    assert_eq!(scanner.peek(), Some(&'a'));
    assert_eq!(scanner.into_tokens(), vec![token(Token::Dot), token(Token::Dollar)]);
}
