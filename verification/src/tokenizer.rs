use vstd::prelude::*;
use crate::errors::{TokenizeError, TokenizeErrorView};
use crate::scanner::TokenParser;
use crate::text::{
    count_newlines, is_decimal_digit, is_letter, lemma_newlines_concat, lemma_no_newlines,
    lemma_run_len, lemma_run_len_bound, newlines, numeral_value, parse_u64, push_char, radix_fault, run_len,
    same_text, CharClass, IntegerFault,
};
use crate::types::{
    token_views, Keyword, Token, TokenType, TokenTypeView, TokenView, Value, ValueView,
};

verus! {

/// What stands at the start of a text: how many characters it takes, and
/// what they are.
pub enum Scan {
    /// White space or a comment: `len` characters that yield no token.
    Skip { len: nat },
    /// A token written with `len` characters.
    Emit { token: TokenView, len: nat },
    /// A character that starts no token.
    Unknown,
    /// A numeric literal that is no number, or too large for 64 bits.
    BadInteger(IntegerFault),
}

/// The keyword that `word` spells, if any. The match is exact and
/// case-sensitive.
pub open spec fn keyword_of(word: Seq<char>) -> Option<Keyword> {
    if word == "async"@ {
        Some(Keyword::Async)
    } else if word == "true"@ {
        Some(Keyword::True)
    } else if word == "false"@ {
        Some(Keyword::False)
    } else if word == "int"@ {
        Some(Keyword::Int)
    } else if word == "str"@ {
        Some(Keyword::String)
    } else if word == "fn"@ {
        Some(Keyword::Func)
    } else if word == "let"@ {
        Some(Keyword::Let)
    } else if word == "mlstr"@ {
        Some(Keyword::MLstr)
    } else if word == "return"@ {
        Some(Keyword::Return)
    } else if word == "void"@ {
        Some(Keyword::Void)
    } else if word == "bool"@ {
        Some(Keyword::Bool)
    } else if word == "if"@ {
        Some(Keyword::If)
    } else if word == "else"@ {
        Some(Keyword::Else)
    } else if word == "while"@ {
        Some(Keyword::While)
    } else if word == "const"@ {
        Some(Keyword::Const)
    } else if word == "use"@ {
        Some(Keyword::Use)
    } else if word == "for"@ {
        Some(Keyword::For)
    } else if word == "pub"@ {
        Some(Keyword::Pub)
    } else {
        None
    }
}

/// The token of a run of letters and digits: a keyword, or else an
/// identifier.
pub open spec fn word_token(word: Seq<char>) -> TokenView {
    match keyword_of(word) {
        Some(k) => TokenView::Keyword(k),
        None => TokenView::Identifier(word),
    }
}

/// The value of a run of hexadecimal digits and `x`: base 16 after a leading
/// `0x`, base 10 otherwise; or the kind of the fault where the run is no
/// number in that base or does not fit in 64 bits.
pub open spec fn number_value(run: Seq<char>) -> Result<u64, IntegerFault> {
    let hex = run.len() >= 2 && run[0] == '0' && run[1] == 'x';
    let digits = if hex {
        run.skip(2)
    } else {
        run
    };
    let radix: nat = if hex {
        16
    } else {
        10
    };
    match numeral_value(digits, radix) {
        Some(v) if v <= u64::MAX => Ok(v as u64),
        _ => Err(radix_fault(digits, radix)),
    }
}

/// The character at `i` of `s`, if there is one.
pub open spec fn char_at(s: Seq<char>, i: int) -> Option<char> {
    if 0 <= i < s.len() {
        Some(s[i])
    } else {
        None
    }
}

/// The operator or punctuation mark that `c` writes alone or together with
/// the character `c1` after it, with its length: two characters where they
/// spell an operator, one otherwise.
pub open spec fn pair_operator(c: char, c1: Option<char>) -> Option<(TokenView, nat)> {
    if c == '&' {
        if c1 == Some('&') {
            Some((TokenView::And, 2))
        } else if c1 == Some('=') {
            Some((TokenView::AssignAnd, 2))
        } else {
            Some((TokenView::BitwiseAnd, 1))
        }
    } else if c == '|' {
        if c1 == Some('|') {
            Some((TokenView::Or, 2))
        } else if c1 == Some('=') {
            Some((TokenView::AssignOr, 2))
        } else {
            Some((TokenView::BitwiseOr, 1))
        }
    } else if c == '=' {
        if c1 == Some('>') {
            Some((TokenView::AsignFunc, 2))
        } else if c1 == Some('=') {
            Some((TokenView::Equal, 2))
        } else {
            Some((TokenView::Assign, 1))
        }
    } else if c == '<' {
        if c1 == Some('=') {
            Some((TokenView::LessThanOrEqual, 2))
        } else if c1 == Some('<') {
            Some((TokenView::BitwiseLeft, 2))
        } else {
            Some((TokenView::LessThan, 1))
        }
    } else if c == '>' {
        if c1 == Some('=') {
            Some((TokenView::GreaterThanOrEqual, 2))
        } else if c1 == Some('>') {
            Some((TokenView::BitwiseRight, 2))
        } else {
            Some((TokenView::GreaterThan, 1))
        }
    } else if c == '!' {
        if c1 == Some('=') {
            Some((TokenView::NotEqual, 2))
        } else {
            Some((TokenView::LogicalNeg, 1))
        }
    } else if c == '+' {
        if c1 == Some('=') {
            Some((TokenView::AssignAdd, 2))
        } else if c1 == Some('+') {
            Some((TokenView::Increment, 2))
        } else {
            Some((TokenView::Addition, 1))
        }
    } else if c == '-' {
        if c1 == Some('=') {
            Some((TokenView::AssignSub, 2))
        } else if c1 == Some('-') {
            Some((TokenView::Decrement, 2))
        } else {
            Some((TokenView::Negation, 1))
        }
    } else if c == '*' {
        if c1 == Some('=') {
            Some((TokenView::AssignMul, 2))
        } else {
            Some((TokenView::Multiplication, 1))
        }
    } else if c == '/' {
        if c1 == Some('=') {
            Some((TokenView::AssignDiv, 2))
        } else {
            Some((TokenView::Division, 1))
        }
    } else if c == '%' {
        if c1 == Some('=') {
            Some((TokenView::AssignMod, 2))
        } else {
            Some((TokenView::Modulus, 1))
        }
    } else if c == '^' {
        if c1 == Some('=') {
            Some((TokenView::AssignXor, 2))
        } else {
            Some((TokenView::BitwiseXor, 1))
        }
    } else if c == ':' {
        if c1 == Some(':') {
            Some((TokenView::DoubleColon, 2))
        } else {
            Some((TokenView::Colon, 1))
        }
    } else if c == '.' {
        Some((TokenView::Dot, 1))
    } else if c == '$' {
        Some((TokenView::Dollar, 1))
    } else if c == '#' {
        Some((TokenView::HashTag, 1))
    } else if c == '?' {
        Some((TokenView::Question, 1))
    } else {
        None
    }
}

/// The operator or punctuation mark at the start of `rest`, with its length.
/// The longest spelling wins: `<<=` before `<<` before `<`.
pub open spec fn operator_at(rest: Seq<char>) -> Option<(TokenView, nat)>
    recommends
        rest.len() > 0,
{
    match pair_operator(rest[0], char_at(rest, 1)) {
        Some((TokenView::BitwiseLeft, _)) if char_at(rest, 2) == Some('=') => Some(
            (TokenView::AssignBitLeft, 3),
        ),
        Some((TokenView::BitwiseRight, _)) if char_at(rest, 2) == Some('=') => Some(
            (TokenView::AssignBitRight, 3),
        ),
        other => other,
    }
}

/// The token that a bracket, `~` or `,` stands for.
pub open spec fn single_char_token(c: char) -> Option<TokenView> {
    if c == '{' {
        Some(TokenView::OpenBrace)
    } else if c == '}' {
        Some(TokenView::CloseBrace)
    } else if c == '(' {
        Some(TokenView::OpenParen)
    } else if c == ')' {
        Some(TokenView::CloseParen)
    } else if c == '[' {
        Some(TokenView::OpenSquareParen)
    } else if c == ']' {
        Some(TokenView::CloseSquareParen)
    } else if c == '~' {
        Some(TokenView::BitComp)
    } else if c == ',' {
        Some(TokenView::Comma)
    } else {
        None
    }
}

/// Whether `c` opens a quoted literal.
pub open spec fn is_quote(c: char) -> bool {
    c == '`' || c == '"' || c == '\''
}

/// The literal that opens at the start of `rest` with the quote `rest[0]`:
/// its text runs up to the next occurrence of the same quote, which is taken
/// too, or up to the end of the text where there is none.
pub open spec fn quoted_at(rest: Seq<char>) -> Scan
    recommends
        rest.len() > 0,
        is_quote(rest[0]),
{
    let quote = rest[0];
    let n = run_len(rest.skip(1), CharClass::Until(quote));
    let text = rest.subrange(1, 1 + n as int);
    let len = if 1 + n < rest.len() {
        n + 2
    } else {
        n + 1
    };
    let value = if quote == '`' {
        ValueView::MLStr(text)
    } else {
        ValueView::Char(text)
    };
    Scan::Emit { token: TokenView::Literal(value), len }
}

/// What stands at the start of the non-empty text `rest`.
pub open spec fn scan(rest: Seq<char>) -> Scan
    recommends
        rest.len() > 0,
{
    let c = rest[0];
    if c == '\n' || c == ' ' || c == '\t' || c == '\r' {
        Scan::Skip { len: 1 }
    } else if single_char_token(c) is Some {
        Scan::Emit { token: single_char_token(c)->0, len: 1 }
    } else if is_letter(c) {
        let n = run_len(rest, CharClass::Word);
        Scan::Emit { token: word_token(rest.take(n as int)), len: n }
    } else if is_quote(c) {
        quoted_at(rest)
    } else if is_decimal_digit(c) {
        let n = run_len(rest, CharClass::Number);
        match number_value(rest.take(n as int)) {
            Ok(v) => Scan::Emit { token: TokenView::Literal(ValueView::Int(v)), len: n },
            Err(fault) => Scan::BadInteger(fault),
        }
    } else if c == '/' && char_at(rest, 1) == Some('/') {
        Scan::Skip { len: run_len(rest, CharClass::Until('\n')) }
    } else {
        match operator_at(rest) {
            Some((token, len)) => Scan::Emit { token, len },
            None => Scan::Unknown,
        }
    }
}

/// The number of characters that `scan` takes from `rest`.
pub open spec fn scan_len(rest: Seq<char>) -> nat {
    match scan(rest) {
        Scan::Skip { len } => len,
        Scan::Emit { len, .. } => len,
        _ => 0,
    }
}

/// Whatever `scan` takes from a non-empty text is at least one character and
/// lies within the text.
pub proof fn lemma_scan_advances(rest: Seq<char>)
    requires
        rest.len() > 0,
    ensures
        scan(rest) is Skip || scan(rest) is Emit ==> 1 <= scan_len(rest) <= rest.len(),
{
    let c = rest[0];
    lemma_run_len_bound(rest, CharClass::Word);
    lemma_run_len_bound(rest, CharClass::Number);
    lemma_run_len_bound(rest, CharClass::Until('\n'));
    lemma_run_len_bound(rest.skip(1), CharClass::Until(c));
}

/// The tokens of `rest`, which starts on line `line`, after the tokens `acc`
/// that the text before it gave; or the first error.
///
/// A token lies on the line on which it starts; each line feed taken, inside
/// a literal too, starts a new line.
pub open spec fn lex_from(rest: Seq<char>, line: int, file: Seq<char>, acc: Seq<TokenTypeView>)
    -> Result<Seq<TokenTypeView>, TokenizeErrorView>
    decreases rest.len(),
{
    if rest.len() == 0 {
        Ok(acc)
    } else {
        match scan(rest) {
            Scan::Skip { len } => {
                proof {
                    lemma_scan_advances(rest);
                }
                lex_from(rest.skip(len as int), line + newlines(rest.take(len as int)), file, acc)
            },
            Scan::Emit { token, len } => {
                proof {
                    lemma_scan_advances(rest);
                }
                lex_from(
                    rest.skip(len as int),
                    line + newlines(rest.take(len as int)),
                    file,
                    acc.push(
                        TokenTypeView { token, val: rest.take(len as int), linenum: line as u32 },
                    ),
                )
            },
            Scan::Unknown => Err(
                TokenizeErrorView::UnknownToken { c: rest[0], linenum: line as u32, filename: file },
            ),
            Scan::BadInteger(fault) => Err(TokenizeErrorView::InvalidInteger(fault)),
        }
    }
}

/// The tokens of the source text `source`, in order, or the first error. The
/// first line is line 1; `file` is the name that an error carries.
pub open spec fn tokens_of(source: Seq<char>, file: Seq<char>) -> Result<
    Seq<TokenTypeView>,
    TokenizeErrorView,
> {
    lex_from(source, 1, file, Seq::empty())
}

/// The views of what `tokenize` returns.
pub open spec fn tokenized(res: Result<Vec<TokenType>, TokenizeError>) -> Result<
    Seq<TokenTypeView>,
    TokenizeErrorView,
> {
    match res {
        Ok(tokens) => Ok(token_views(tokens@)),
        Err(e) => Err(e@),
    }
}

/// One step of the scanner `after` from the text `rest`, the tokens
/// `emitted` and the line `line` took what `scan` says and led to the line
/// `next_line`.
pub open spec fn step_taken(
    rest: Seq<char>,
    emitted: Seq<TokenType>,
    line: u32,
    after: TokenParser,
    next_line: u32,
) -> bool {
    let len = scan_len(rest) as int;
    &&& after.remaining() == rest.skip(len)
    &&& next_line == line + newlines(rest.take(len))
    &&& match scan(rest) {
        Scan::Skip { .. } => after.emitted() == emitted,
        Scan::Emit { token, .. } => token_views(after.emitted()) == token_views(emitted).push(
            TokenTypeView { token, val: rest.take(len), linenum: line },
        ),
        _ => false,
    }
}

/// The error `e` is the one that `scan` finds at the start of `rest` on line
/// `line` of the file `file`.
pub open spec fn step_failed(rest: Seq<char>, line: u32, file: Seq<char>, e: TokenizeErrorView)
    -> bool {
    match scan(rest) {
        Scan::Unknown => e == (TokenizeErrorView::UnknownToken {
            c: rest[0],
            linenum: line,
            filename: file,
        }),
        Scan::BadInteger(fault) => e == TokenizeErrorView::InvalidInteger(fault),
        _ => false,
    }
}

/// The views of tokens with one more are the views with one more.
proof fn lemma_views_push(tokens: Seq<TokenType>, t: TokenType)
    ensures
        token_views(tokens.push(t)) == token_views(tokens).push(t@),
{
    assert(token_views(tokens.push(t)) =~= token_views(tokens).push(t@));
}

/// The keyword that `word` spells, if any.
fn lookup_keyword(word: &str) -> (k: Option<Keyword>)
    ensures
        k == keyword_of(word@),
{
    if same_text(word, "async") {
        Some(Keyword::Async)
    } else if same_text(word, "true") {
        Some(Keyword::True)
    } else if same_text(word, "false") {
        Some(Keyword::False)
    } else if same_text(word, "int") {
        Some(Keyword::Int)
    } else if same_text(word, "str") {
        Some(Keyword::String)
    } else if same_text(word, "fn") {
        Some(Keyword::Func)
    } else if same_text(word, "let") {
        Some(Keyword::Let)
    } else if same_text(word, "mlstr") {
        Some(Keyword::MLstr)
    } else if same_text(word, "return") {
        Some(Keyword::Return)
    } else if same_text(word, "void") {
        Some(Keyword::Void)
    } else if same_text(word, "bool") {
        Some(Keyword::Bool)
    } else if same_text(word, "if") {
        Some(Keyword::If)
    } else if same_text(word, "else") {
        Some(Keyword::Else)
    } else if same_text(word, "while") {
        Some(Keyword::While)
    } else if same_text(word, "const") {
        Some(Keyword::Const)
    } else if same_text(word, "use") {
        Some(Keyword::Use)
    } else if same_text(word, "for") {
        Some(Keyword::For)
    } else if same_text(word, "pub") {
        Some(Keyword::Pub)
    } else {
        None
    }
}

/// The token that a bracket, `~` or `,` stands for.
fn single_char(c: char) -> (t: Option<Token>)
    ensures
        match t {
            Some(t) => single_char_token(c) == Some(t@),
            None => single_char_token(c) is None,
        },
{
    if c == '{' {
        Some(Token::OpenBrace)
    } else if c == '}' {
        Some(Token::CloseBrace)
    } else if c == '(' {
        Some(Token::OpenParen)
    } else if c == ')' {
        Some(Token::CloseParen)
    } else if c == '[' {
        Some(Token::OpenSquareParen)
    } else if c == ']' {
        Some(Token::CloseSquareParen)
    } else if c == '~' {
        Some(Token::BitComp)
    } else if c == ',' {
        Some(Token::Comma)
    } else {
        None
    }
}

/// Whether `c` is the character `expected`.
fn is_char(c: Option<char>, expected: char) -> (r: bool)
    ensures
        r == (c == Some(expected)),
{
    match c {
        Some(x) => x == expected,
        None => false,
    }
}

/// The operator that `c` writes alone (`false`) or together with `c1`
/// (`true`).
fn pair_operator_of(c: char, c1: Option<char>) -> (r: Option<(Token, bool)>)
    ensures
        match r {
            Some((token, true)) => pair_operator(c, c1) == Some((token@, 2nat)) && c1 is Some,
            Some((token, false)) => pair_operator(c, c1) == Some((token@, 1nat)),
            None => pair_operator(c, c1) is None,
        },
{
    if c == '&' {
        if is_char(c1, '&') {
            Some((Token::And, true))
        } else if is_char(c1, '=') {
            Some((Token::AssignAnd, true))
        } else {
            Some((Token::BitwiseAnd, false))
        }
    } else if c == '|' {
        if is_char(c1, '|') {
            Some((Token::Or, true))
        } else if is_char(c1, '=') {
            Some((Token::AssignOr, true))
        } else {
            Some((Token::BitwiseOr, false))
        }
    } else if c == '=' {
        if is_char(c1, '>') {
            Some((Token::AsignFunc, true))
        } else if is_char(c1, '=') {
            Some((Token::Equal, true))
        } else {
            Some((Token::Assign, false))
        }
    } else if c == '<' {
        if is_char(c1, '=') {
            Some((Token::LessThanOrEqual, true))
        } else if is_char(c1, '<') {
            Some((Token::BitwiseLeft, true))
        } else {
            Some((Token::LessThan, false))
        }
    } else if c == '>' {
        if is_char(c1, '=') {
            Some((Token::GreaterThanOrEqual, true))
        } else if is_char(c1, '>') {
            Some((Token::BitwiseRight, true))
        } else {
            Some((Token::GreaterThan, false))
        }
    } else if c == '!' {
        if is_char(c1, '=') {
            Some((Token::NotEqual, true))
        } else {
            Some((Token::LogicalNeg, false))
        }
    } else if c == '+' {
        if is_char(c1, '=') {
            Some((Token::AssignAdd, true))
        } else if is_char(c1, '+') {
            Some((Token::Increment, true))
        } else {
            Some((Token::Addition, false))
        }
    } else if c == '-' {
        if is_char(c1, '=') {
            Some((Token::AssignSub, true))
        } else if is_char(c1, '-') {
            Some((Token::Decrement, true))
        } else {
            Some((Token::Negation, false))
        }
    } else if c == '*' {
        if is_char(c1, '=') {
            Some((Token::AssignMul, true))
        } else {
            Some((Token::Multiplication, false))
        }
    } else if c == '/' {
        if is_char(c1, '=') {
            Some((Token::AssignDiv, true))
        } else {
            Some((Token::Division, false))
        }
    } else if c == '%' {
        if is_char(c1, '=') {
            Some((Token::AssignMod, true))
        } else {
            Some((Token::Modulus, false))
        }
    } else if c == '^' {
        if is_char(c1, '=') {
            Some((Token::AssignXor, true))
        } else {
            Some((Token::BitwiseXor, false))
        }
    } else if c == ':' {
        if is_char(c1, ':') {
            Some((Token::DoubleColon, true))
        } else {
            Some((Token::Colon, false))
        }
    } else if c == '.' {
        Some((Token::Dot, false))
    } else if c == '$' {
        Some((Token::Dollar, false))
    } else if c == '#' {
        Some((Token::HashTag, false))
    } else if c == '?' {
        Some((Token::Question, false))
    } else {
        None
    }
}

/// Takes a keyword or an identifier.
fn scan_word(tokens: &mut TokenParser, linenum: u32) -> (next_line: u32)
    requires
        old(tokens).remaining().len() > 0,
        is_letter(old(tokens).remaining()[0]),
    ensures
        step_taken(
            old(tokens).remaining(),
            old(tokens).emitted(),
            linenum,
            *final(tokens),
            next_line,
        ),
{
    let ghost rest = tokens.remaining();
    let ghost emitted = tokens.emitted();
    let accept = |c: &char| -> (r: bool)
        ensures
            r == CharClass::Word.accepts(*c),
        { CharClass::Word.contains(*c) };
    let word = tokens.get_string(accept);
    proof {
        lemma_run_len(rest, word@, tokens.remaining(), CharClass::Word);
        assert(rest.take(word@.len() as int) =~= word@);
        assert(rest.skip(word@.len() as int) =~= tokens.remaining());
        lemma_no_newlines(word@);
    }
    let token = match lookup_keyword(word.as_str()) {
        Some(k) => Token::Keyword(k),
        None => Token::Identifier(word.clone()),
    };
    let positioned = TokenType { token, val: word, linenum };
    proof {
        lemma_views_push(emitted, positioned);
    }
    tokens.push_back(positioned);
    linenum
}

/// Takes a numeric literal.
fn scan_number(tokens: &mut TokenParser, linenum: u32) -> (r: Result<u32, TokenizeError>)
    requires
        old(tokens).remaining().len() > 0,
        is_decimal_digit(old(tokens).remaining()[0]),
        !is_letter(old(tokens).remaining()[0]),
    ensures
        match r {
            Ok(next_line) => step_taken(
                old(tokens).remaining(),
                old(tokens).emitted(),
                linenum,
                *final(tokens),
                next_line,
            ),
            Err(e) => step_failed(old(tokens).remaining(), linenum, Seq::empty(), e@),
        },
{
    let ghost rest = tokens.remaining();
    let ghost emitted = tokens.emitted();
    let accept = |c: &char| -> (r: bool)
        ensures
            r == CharClass::Number.accepts(*c),
        { CharClass::Number.contains(*c) };
    let word = tokens.get_string(accept);
    proof {
        lemma_run_len(rest, word@, tokens.remaining(), CharClass::Number);
        assert(rest.take(word@.len() as int) =~= word@);
        assert(rest.skip(word@.len() as int) =~= tokens.remaining());
        lemma_no_newlines(word@);
    }
    let text = word.as_str();
    let n = text.unicode_len();
    let parsed = if n >= 2 && text.get_char(0) == '0' && text.get_char(1) == 'x' {
        assert(n > 2 ==> CharClass::Number.accepts(word@[2]));
        assert(word@.skip(2) =~= word@.subrange(2, n as int));
        parse_u64(text.substring_char(2, n), 16)
    } else {
        assert(CharClass::Number.accepts(word@[0]));
        parse_u64(text, 10)
    };
    match parsed {
        Ok(value) => {
            let positioned = TokenType { token: Token::Literal(Value::Int(value)), val: word, linenum };
            proof {
                lemma_views_push(emitted, positioned);
            }
            tokens.push_back(positioned);
            Ok(linenum)
        },
        Err(fault) => Err(TokenizeError::InvalidInteger(fault)),
    }
}

/// Takes a quoted literal, whose opening quote is under the cursor.
fn scan_quoted(tokens: &mut TokenParser, linenum: u32) -> (next_line: u32)
    requires
        old(tokens).remaining().len() > 0,
        is_quote(old(tokens).remaining()[0]),
        linenum + old(tokens).remaining().len() <= u32::MAX,
    ensures
        scan(old(tokens).remaining()) == quoted_at(old(tokens).remaining()) ==> step_taken(
            old(tokens).remaining(),
            old(tokens).emitted(),
            linenum,
            *final(tokens),
            next_line,
        ),
{
    let ghost rest = tokens.remaining();
    let ghost emitted = tokens.emitted();
    let quote = match tokens.p_next() {
        Some(c) => c,
        None => '`',
    };
    let accept = |c: &char| -> (r: bool)
        ensures
            r == CharClass::Until(quote).accepts(*c),
        { CharClass::Until(quote).contains(*c) };
    let text = tokens.get_string(accept);
    let closed = tokens.peek().is_some();
    let ghost n = text@.len() as int;
    proof {
        lemma_run_len(rest.skip(1), text@, tokens.remaining(), CharClass::Until(quote));
        assert(rest.skip(1).take(n) =~= text@);
        assert(rest.skip(1).skip(n) =~= tokens.remaining());
        assert(rest.subrange(1, 1 + n) =~= rest.skip(1).take(n));
        assert(rest.skip(1 + n) =~= rest.skip(1).skip(n));
    }
    let lines = count_newlines(text.as_str());
    let mut val = String::new();
    push_char(&mut val, quote);
    val.append(text.as_str());
    if closed {
        push_char(&mut val, quote);
    }
    proof {
        let len = if closed {
            n + 2
        } else {
            n + 1
        };
        assert(val@ =~= rest.take(len));
        assert(seq![quote] + text@ =~= rest.take(1 + n));
        lemma_newlines_concat(seq![quote], text@);
        lemma_no_newlines(seq![quote]);
        if closed {
            assert(rest.take(len) =~= rest.take(1 + n) + seq![quote]);
            lemma_newlines_concat(rest.take(1 + n), seq![quote]);
        }
        lemma_newlines_concat(rest.take(len), rest.skip(len));
        assert(rest.take(len) + rest.skip(len) =~= rest);
        assert(rest.skip(1).skip(n) =~= rest.skip(1 + n));
        if closed {
            assert(tokens.remaining().skip(1) =~= rest.skip(len));
        }
    }
    let value = if quote == '`' {
        Value::MLStr(text)
    } else {
        Value::Char(text)
    };
    let positioned = TokenType { token: Token::Literal(value), val, linenum };
    proof {
        lemma_views_push(emitted, positioned);
    }
    tokens.push(positioned);
    linenum + lines
}

/// Takes a comment, an operator or a punctuation mark, or fails on a
/// character that starts no token.
fn scan_operator(tokens: &mut TokenParser, linenum: u32, fname: &str) -> (r: Result<
    u32,
    TokenizeError,
>)
    requires
        old(tokens).remaining().len() > 0,
        old(tokens).remaining()[0] != '\n',
    ensures
        ({
            let rest = old(tokens).remaining();
            let expected = if rest[0] == '/' && char_at(rest, 1) == Some('/') {
                Scan::Skip { len: run_len(rest, CharClass::Until('\n')) }
            } else {
                match operator_at(rest) {
                    Some((token, len)) => Scan::Emit { token, len },
                    None => Scan::Unknown,
                }
            };
            scan(rest) == expected ==> match r {
                Ok(next_line) => step_taken(rest, old(tokens).emitted(), linenum, *final(tokens), next_line),
                Err(e) => step_failed(rest, linenum, fname@, e@),
            }
        }),
{
    let ghost rest = tokens.remaining();
    let ghost emitted = tokens.emitted();
    let c = match tokens.p_next() {
        Some(c) => c,
        None => ' ',
    };
    let c1 = match tokens.peek() {
        Some(c) => Some(*c),
        None => None,
    };
    assert(c1 == char_at(rest, 1));
    if c == '/' && is_char(c1, '/') {
        let accept = |c: &char| -> (r: bool)
            ensures
                r == CharClass::Until('\n').accepts(*c),
            { CharClass::Until('\n').contains(*c) };
        let comment = tokens.get_string(accept);
        proof {
            let n = comment@.len() as int;
            lemma_run_len(rest.skip(1), comment@, tokens.remaining(), CharClass::Until('\n'));
            assert(rest.skip(1).take(n) =~= comment@);
            assert(rest.skip(1).skip(n) =~= tokens.remaining());
            assert(rest.skip(1).skip(n) =~= rest.skip(1 + n));
            assert forall|i: int| 0 <= i < 1 + n implies #[trigger] rest.take(1 + n)[i] != '\n' by {
                if i > 0 {
                    assert(rest.take(1 + n)[i] == comment@[i - 1]);
                }
            }
            lemma_no_newlines(rest.take(1 + n));
        }
        return Ok(linenum);
    }
    let mut val = String::new();
    push_char(&mut val, c);
    match pair_operator_of(c, c1) {
        None => Err(TokenizeError::UnknownToken { c, linenum, filename: fname.to_owned() }),
        Some((token, false)) => {
            let positioned = TokenType { token, val, linenum };
            proof {
                lemma_views_push(emitted, positioned);
                assert(val@ =~= rest.take(1));
                lemma_no_newlines(rest.take(1));
            }
            tokens.push_back(positioned);
            Ok(linenum)
        },
        Some((token, true)) => {
            let second = match c1 {
                Some(c) => c,
                None => ' ',
            };
            push_char(&mut val, second);
            let shift_left = c == '<' && second == '<';
            let shift_right = c == '>' && second == '>';
            if shift_left || shift_right {
                tokens.p_next();
                let c2 = match tokens.peek() {
                    Some(c) => Some(*c),
                    None => None,
                };
                assert(rest.skip(1).skip(1) =~= rest.skip(2));
                assert(c2 == char_at(rest, 2));
                if is_char(c2, '=') {
                    push_char(&mut val, '=');
                    let positioned = TokenType {
                        token: if shift_left {
                            Token::AssignBitLeft
                        } else {
                            Token::AssignBitRight
                        },
                        val,
                        linenum,
                    };
                    proof {
                        lemma_views_push(emitted, positioned);
                        assert(val@ =~= rest.take(3));
                        lemma_no_newlines(rest.take(3));
                        assert(rest.skip(2).skip(1) =~= rest.skip(3));
                    }
                    tokens.push(positioned);
                    Ok(linenum)
                } else {
                    let positioned = TokenType { token, val, linenum };
                    proof {
                        lemma_views_push(emitted, positioned);
                        assert(val@ =~= rest.take(2));
                        lemma_no_newlines(rest.take(2));
                    }
                    tokens.push_back(positioned);
                    Ok(linenum)
                }
            } else {
                let positioned = TokenType { token, val, linenum };
                proof {
                    lemma_views_push(emitted, positioned);
                    assert(val@ =~= rest.take(2));
                    lemma_no_newlines(rest.take(2));
                    assert(rest.skip(1).skip(1) =~= rest.skip(2));
                }
                tokens.push(positioned);
                Ok(linenum)
            }
        },
    }
}

/// Takes what stands under the cursor: white space, a comment or one token.
fn scan_next(tokens: &mut TokenParser, linenum: u32, fname: &str) -> (r: Result<u32, TokenizeError>)
    requires
        old(tokens).remaining().len() > 0,
        linenum + old(tokens).remaining().len() <= u32::MAX,
    ensures
        match r {
            Ok(next_line) => step_taken(
                old(tokens).remaining(),
                old(tokens).emitted(),
                linenum,
                *final(tokens),
                next_line,
            ),
            Err(e) => step_failed(old(tokens).remaining(), linenum, fname@, e@),
        },
{
    let ghost rest = tokens.remaining();
    let ghost emitted = tokens.emitted();
    let c = match tokens.peek() {
        Some(c) => *c,
        None => ' ',
    };
    if c == '\n' {
        tokens.drop();
        proof {
            assert(rest.take(1) =~= seq!['\n']);
            assert(seq!['\n'].drop_last() =~= Seq::<char>::empty());
            assert(newlines(seq!['\n'].drop_last()) == 0);
        }
        Ok(linenum + 1)
    } else if c == ' ' || c == '\t' || c == '\r' {
        tokens.drop();
        proof {
            lemma_no_newlines(rest.take(1));
        }
        Ok(linenum)
    } else if let Some(token) = single_char(c) {
        let mut val = String::new();
        push_char(&mut val, c);
        let positioned = TokenType { token, val, linenum };
        proof {
            lemma_views_push(emitted, positioned);
            assert(val@ =~= rest.take(1));
            lemma_no_newlines(rest.take(1));
        }
        tokens.push(positioned);
        Ok(linenum)
    } else if ('a' <= c && c <= 'z') || ('A' <= c && c <= 'Z') {
        Ok(scan_word(tokens, linenum))
    } else if c == '`' || c == '"' || c == '\'' {
        Ok(scan_quoted(tokens, linenum))
    } else if '0' <= c && c <= '9' {
        match scan_number(tokens, linenum) {
            Ok(next_line) => Ok(next_line),
            Err(e) => Err(e),
        }
    } else {
        scan_operator(tokens, linenum, fname)
    }
}

/// Turns the source text `contents` into its tokens, in order, each with the
/// text it was scanned from and the line on which it starts. `fname` names
/// the file in an error.
///
/// White space is dropped; `//` starts a comment that runs to the end of the
/// line. The first character that starts no token, or the first numeric
/// literal that is no 64-bit number, ends the scan with an error.
pub fn tokenize(contents: &str, fname: &str) -> (res: Result<Vec<TokenType>, TokenizeError>)
    requires
        contents@.len() < u32::MAX,
    ensures
        tokenized(res) == tokens_of(contents@, fname@),
{
    let mut tokens = TokenParser::new(contents);
    let mut linenum: u32 = 1;
    assert(token_views(tokens.emitted()) =~= Seq::<TokenTypeView>::empty());
    loop
        invariant
            contents@.len() < u32::MAX,
            linenum + tokens.remaining().len() <= contents@.len() + 1,
            tokens_of(contents@, fname@) == lex_from(
                tokens.remaining(),
                linenum as int,
                fname@,
                token_views(tokens.emitted()),
            ),
        ensures
            tokens.remaining().len() == 0,
        decreases tokens.remaining().len(),
    {
        if tokens.peek().is_none() {
            break ;
        }
        let ghost rest = tokens.remaining();
        proof {
            lemma_scan_advances(rest);
            let len = scan_len(rest) as int;
            lemma_newlines_concat(rest.take(len), rest.skip(len));
        }
        match scan_next(&mut tokens, linenum, fname) {
            Ok(next_line) => {
                linenum = next_line;
            },
            Err(e) => {
                return Err(e);
            },
        }
    }
    Ok(tokens.into_tokens())
}

} // verus!
