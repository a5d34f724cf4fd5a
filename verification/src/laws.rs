use vstd::prelude::*;
use crate::errors::{TokenizeError, TokenizeErrorView};
use crate::text::{
    is_decimal_digit, is_letter, lemma_newlines_bound, lemma_newlines_concat, newlines,
};
use crate::tokenizer::{
    is_quote, lemma_scan_advances, lex_from, pair_operator, scan, scan_len, single_char_token,
    tokenized, tokens_of, Scan,
};
use crate::types::{TokenType, TokenTypeView};

verus! {

/// Whether the lines of `tokens` never decrease from one token to the next.
pub open spec fn lines_ascend(tokens: Seq<TokenTypeView>) -> bool {
    forall|i: int, j: int| 0 <= i <= j < tokens.len() ==> tokens[i].linenum <= tokens[j].linenum
}

/// Tokenizing is a function of the source text and the file name: whatever
/// two runs of `tokenize` on the same text return, tokens or error, is the
/// same.
pub proof fn lemma_tokenize_deterministic(
    contents: Seq<char>,
    fname: Seq<char>,
    first: Result<Vec<TokenType>, TokenizeError>,
    second: Result<Vec<TokenType>, TokenizeError>,
)
    requires
        tokenized(first) == tokens_of(contents, fname),
        tokenized(second) == tokens_of(contents, fname),
    ensures
        tokenized(first) == tokenized(second),
{
}

/// The tokens of a text that follow the tokens `acc` lie on line `line` or
/// later, and in ascending lines, where `acc` does and lies on `line` or
/// earlier.
proof fn lemma_lex_lines(rest: Seq<char>, line: int, file: Seq<char>, acc: Seq<TokenTypeView>)
    requires
        0 <= line,
        line + rest.len() <= u32::MAX,
        lines_ascend(acc),
        forall|i: int| 0 <= i < acc.len() ==> #[trigger] acc[i].linenum <= line,
    ensures
        lex_from(rest, line, file, acc) matches Ok(tokens) ==> lines_ascend(tokens),
    decreases rest.len(),
{
    if rest.len() > 0 {
        lemma_scan_advances(rest);
        let len = scan_len(rest) as int;
        if scan(rest) is Skip || scan(rest) is Emit {
            lemma_newlines_bound(rest.take(len));
            let next_line = line + newlines(rest.take(len));
            let next_acc = match scan(rest) {
                Scan::Emit { token, .. } => acc.push(
                    TokenTypeView { token, val: rest.take(len), linenum: line as u32 },
                ),
                _ => acc,
            };
            assert forall|i: int| 0 <= i < next_acc.len() implies #[trigger] next_acc[i].linenum
                <= next_line by {
                if i < acc.len() {
                    assert(next_acc[i] == acc[i]);
                }
            }
            assert forall|i: int, j: int| 0 <= i <= j < next_acc.len() implies next_acc[i].linenum
                <= next_acc[j].linenum by {
                if j < acc.len() {
                    assert(next_acc[i] == acc[i] && next_acc[j] == acc[j]);
                } else if i < acc.len() {
                    assert(next_acc[i] == acc[i]);
                }
            }
            lemma_lex_lines(rest.skip(len), next_line, file, next_acc);
        }
    }
}

/// The lines of the tokens of a text never decrease: a token lies on the
/// line of the token before it, or on a later one.
pub proof fn lemma_lines_ascend(contents: Seq<char>, fname: Seq<char>)
    requires
        contents.len() < u32::MAX,
    ensures
        tokens_of(contents, fname) matches Ok(tokens) ==> lines_ascend(tokens),
{
    lemma_lex_lines(contents, 1, fname, Seq::empty());
}

/// The first token of a text lies on line 1 or later: lines count from 1.
pub proof fn lemma_lines_from_one(contents: Seq<char>, fname: Seq<char>)
    requires
        contents.len() < u32::MAX,
    ensures
        tokens_of(contents, fname) matches Ok(tokens) ==> forall|i: int|
            0 <= i < tokens.len() ==> 1 <= #[trigger] tokens[i].linenum <= 1 + newlines(contents),
{
    lemma_lex_bounds(contents, 1, fname, Seq::empty(), 1 + newlines(contents) as int);
}

/// The tokens of a text that follow the tokens `acc` lie on the lines from
/// `line` to the line on which the text ends.
proof fn lemma_lex_bounds(
    rest: Seq<char>,
    line: int,
    file: Seq<char>,
    acc: Seq<TokenTypeView>,
    last: int,
)
    requires
        1 <= line,
        last == line + newlines(rest),
        line + rest.len() <= u32::MAX,
        forall|i: int| 0 <= i < acc.len() ==> 1 <= #[trigger] acc[i].linenum <= last,
    ensures
        lex_from(rest, line, file, acc) matches Ok(tokens) ==> forall|i: int|
            0 <= i < tokens.len() ==> 1 <= #[trigger] tokens[i].linenum <= last,
    decreases rest.len(),
{
    if rest.len() > 0 {
        lemma_scan_advances(rest);
        let len = scan_len(rest) as int;
        if scan(rest) is Skip || scan(rest) is Emit {
            lemma_newlines_concat(rest.take(len), rest.skip(len));
            assert(rest.take(len) + rest.skip(len) =~= rest);
            let next_line = line + newlines(rest.take(len));
            let next_acc = match scan(rest) {
                Scan::Emit { token, .. } => acc.push(
                    TokenTypeView { token, val: rest.take(len), linenum: line as u32 },
                ),
                _ => acc,
            };
            assert forall|i: int| 0 <= i < next_acc.len() implies 1 <= #[trigger] next_acc[i].linenum
                <= last by {
                if i < acc.len() {
                    assert(next_acc[i] == acc[i]);
                }
            }
            lemma_lex_bounds(rest.skip(len), next_line, file, next_acc, last);
        }
    }
}

/// Whether `c` starts no token and is no white space: it is no bracket, no
/// letter, no quote, no digit, and no character of an operator or a
/// punctuation mark.
pub open spec fn starts_nothing(c: char) -> bool {
    &&& c != '\n' && c != ' ' && c != '\t' && c != '\r'
    &&& single_char_token(c) is None
    &&& !is_letter(c)
    &&& !is_quote(c)
    &&& !is_decimal_digit(c)
    &&& pair_operator(c, None) is None
}

/// Whether the scan of the text `s` that stands at `from` comes to stand at
/// `to` after some whole steps: `to` lies inside no token, no comment and no
/// literal that starts in between.
pub open spec fn scans_to(s: Seq<char>, from: int, to: int) -> bool
    decreases to - from,
{
    if from == to {
        true
    } else if 0 <= from < to <= s.len() {
        let len = scan_len(s.skip(from));
        if (scan(s.skip(from)) is Skip || scan(s.skip(from)) is Emit) && 1 <= len <= to - from {
            scans_to(s, from + len, to)
        } else {
            false
        }
    } else {
        false
    }
}

/// The scan fails on a character exactly when the character starts nothing.
pub proof fn lemma_scan_unknown(rest: Seq<char>)
    requires
        rest.len() > 0,
    ensures
        scan(rest) is Unknown <==> starts_nothing(rest[0]),
{
}

/// The scan of `s` from `from` on, on line `line` and after the tokens
/// `acc`, fails on the character at `n` where it comes to stand there.
proof fn lemma_lex_unknown(
    s: Seq<char>,
    file: Seq<char>,
    from: int,
    n: int,
    line: int,
    acc: Seq<TokenTypeView>,
)
    requires
        0 <= from <= n < s.len(),
        scans_to(s, from, n),
        starts_nothing(s[n]),
        line == 1 + newlines(s.take(from)),
    ensures
        lex_from(s.skip(from), line, file, acc) == Err::<
            Seq<TokenTypeView>,
            TokenizeErrorView,
        >(
            TokenizeErrorView::UnknownToken {
                c: s[n],
                linenum: (1 + newlines(s.take(n))) as u32,
                filename: file,
            },
        ),
    decreases n - from,
{
    let rest = s.skip(from);
    assert(rest[0] == s[from]);
    lemma_scan_unknown(rest);
    if from < n {
        lemma_scan_advances(rest);
        let len = scan_len(rest) as int;
        assert(rest.skip(len) =~= s.skip(from + len));
        assert(s.take(from + len) =~= s.take(from) + rest.take(len));
        lemma_newlines_concat(s.take(from), rest.take(len));
        let next_acc = match scan(rest) {
            Scan::Emit { token, .. } => acc.push(
                TokenTypeView { token, val: rest.take(len), linenum: line as u32 },
            ),
            _ => acc,
        };
        lemma_lex_unknown(s, file, from + len, n, line + newlines(rest.take(len)), next_acc);
    }
}

/// Tokenizing fails on the first character that starts nothing: where the
/// scan of `s` comes to stand at `n`, and the character there starts
/// nothing, the outcome is the error of that character, on the line that
/// the line feeds before it make, in the file `file`.
pub proof fn lemma_unknown_symbol(s: Seq<char>, file: Seq<char>, n: int)
    requires
        0 <= n < s.len(),
        scans_to(s, 0, n),
        starts_nothing(s[n]),
    ensures
        tokens_of(s, file) == Err::<Seq<TokenTypeView>, TokenizeErrorView>(
            TokenizeErrorView::UnknownToken {
                c: s[n],
                linenum: (1 + newlines(s.take(n))) as u32,
                filename: file,
            },
        ),
{
    assert(s.take(0) =~= Seq::<char>::empty());
    assert(s.skip(0) =~= s);
    lemma_lex_unknown(s, file, 0, n, 1, Seq::empty());
}

} // verus!
