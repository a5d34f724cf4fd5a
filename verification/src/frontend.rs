use vstd::prelude::*;
use no_comment::{languages, IntoWithoutComments};
use crate::errors::{ParseError, ParseErrorView};
use crate::grammar::{empty_program, program, Source};
use crate::ops::{Program, ProgramView};
use crate::parser::{parse_outcome, Parser};
use crate::text::chars_of;
use crate::tokenizer::{tokenize, tokens_of};
use crate::types::{TokenType, TokenTypeView};

verus! {

/// Where a walk through a text stands with respect to the comments of the
/// Rust language.
pub enum CommentState {
    /// Outside any comment.
    Text,
    /// Inside a `//` comment, which the next line feed ends.
    Line,
    /// Inside a `/*` comment, with so many more `/*` comments open inside
    /// it.
    Block(nat),
}

/// Whether `s` starts with the two characters `first` and `second`.
pub open spec fn starts_with_pair(s: Seq<char>, first: char, second: char) -> bool {
    s.len() >= 2 && s[0] == first && s[1] == second
}

/// Whether, in the text `s` that is entered in the state `state`, every
/// `*/` outside a line comment closes a block comment that is open: none
/// stands outside all comments. Block comments nest; in a line comment
/// neither `/*` nor `*/` counts, and in a block comment `//` does not.
pub open spec fn closes_only_opened_from(s: Seq<char>, state: CommentState) -> bool
    decreases s.len(),
{
    if s.len() == 0 {
        true
    } else {
        match state {
            CommentState::Text => if starts_with_pair(s, '/', '/') {
                closes_only_opened_from(s.skip(2), CommentState::Line)
            } else if starts_with_pair(s, '/', '*') {
                closes_only_opened_from(s.skip(2), CommentState::Block(0))
            } else if starts_with_pair(s, '*', '/') {
                false
            } else {
                closes_only_opened_from(s.skip(1), CommentState::Text)
            },
            CommentState::Line => if s[0] == '\n' {
                closes_only_opened_from(s.skip(1), CommentState::Text)
            } else {
                closes_only_opened_from(s.skip(1), CommentState::Line)
            },
            CommentState::Block(depth) => if starts_with_pair(s, '*', '/') {
                closes_only_opened_from(
                    s.skip(2),
                    if depth == 0 {
                        CommentState::Text
                    } else {
                        CommentState::Block((depth - 1) as nat)
                    },
                )
            } else if starts_with_pair(s, '/', '*') {
                closes_only_opened_from(s.skip(2), CommentState::Block(depth + 1))
            } else {
                closes_only_opened_from(s.skip(1), CommentState::Block(depth))
            },
        }
    }
}

/// Whether no `*/` of the text `source` stands outside all comments.
pub open spec fn closes_only_opened(source: Seq<char>) -> bool {
    closes_only_opened_from(source, CommentState::Text)
}

/// The text that is left of `source` when the comments of the Rust language
/// are taken out of it, as the `no_comment` crate does it.
pub uninterp spec fn without_comments(source: Seq<char>) -> Seq<char>;

/// Calls `IntoWithoutComments::without_comments` of the `no_comment` crate
/// on the characters of `source`, for the comments of the Rust language, and
/// collects what is left.
///
/// Trusted: the text depends on nothing but the characters of `source`. A
/// text with a `*/` outside all comments, on which the crate panics, is left
/// out.
#[verifier::external_body]
fn strip_comments(source: &str) -> (text: String)
    requires
        closes_only_opened(source@),
    ensures
        text@ == without_comments(source@),
{
    source.chars().without_comments(languages::rust()).collect::<String>()
}

/// The state of a walk that is in a line comment (`line`), or else in a
/// block comment (`block`) of nesting depth `depth`, or else in neither.
pub open spec fn walk_state(line: bool, block: bool, depth: usize) -> CommentState {
    if line {
        CommentState::Line
    } else if block {
        CommentState::Block(depth as nat)
    } else {
        CommentState::Text
    }
}

/// Whether a `*/` of `source` stands outside all comments.
pub fn has_stray_close(source: &str) -> (r: bool)
    ensures
        r == !closes_only_opened(source@),
{
    let chars = chars_of(source);
    let mut line = false;
    let mut block = false;
    let mut depth: usize = 0;
    let mut i: usize = 0;
    assert(chars@.skip(0) =~= chars@);
    while i < chars.len()
        invariant
            i <= chars@.len(),
            chars@ == source@,
            depth <= i,
            closes_only_opened(source@) == closes_only_opened_from(
                chars@.skip(i as int),
                walk_state(line, block, depth),
            ),
        decreases chars@.len() - i,
    {
        let ghost rest = chars@.skip(i as int);
        let c = chars[i];
        let pair = i + 1 < chars.len();
        let d = if pair {
            chars[i + 1]
        } else {
            ' '
        };
        proof {
            assert(rest[0] == c);
            assert(pair ==> rest[1] == d);
            assert(rest.skip(1) =~= chars@.skip(i + 1));
            assert(pair ==> rest.skip(2) =~= chars@.skip(i + 2));
        }
        if line {
            if c == '\n' {
                line = false;
                block = false;
                depth = 0;
            }
            i = i + 1;
        } else if block {
            if pair && c == '*' && d == '/' {
                if depth == 0 {
                    block = false;
                } else {
                    depth = depth - 1;
                }
                i = i + 2;
            } else if pair && c == '/' && d == '*' {
                depth = depth + 1;
                i = i + 2;
            } else {
                i = i + 1;
            }
        } else {
            if pair && c == '/' && d == '/' {
                line = true;
                i = i + 2;
            } else if pair && c == '/' && d == '*' {
                block = true;
                depth = 0;
                i = i + 2;
            } else if pair && c == '*' && d == '/' {
                return true;
            } else {
                i = i + 1;
            }
        }
    }
    false
}

/// The program that the text `text` of the file `file` writes, with its
/// tokens; or the first error, that of the tokenizer as a parse error.
pub open spec fn program_of(text: Seq<char>, file: Seq<char>) -> Result<
    (ProgramView, Seq<TokenTypeView>),
    ParseErrorView,
> {
    match tokens_of(text, file) {
        Err(e) => Err(ParseErrorView::TokenizeError(e)),
        Ok(tokens) => match program(Source { tokens, file }, 0, empty_program()).result {
            Ok(p) => Ok((p, tokens)),
            Err(e) => Err(e),
        },
    }
}

/// Tokenizes and parses `text`, the text of the file `filename` without its
/// comments.
pub fn parse_source(text: &str, filename: &str) -> (res: Result<
    (Program, Vec<TokenType>),
    ParseError,
>)
    requires
        text@.len() < u32::MAX,
    ensures
        parse_outcome(res) == program_of(text@, filename@),
        !(res matches Err(ParseError::Unknown)),
{
    match tokenize(text, filename) {
        Err(e) => Err(ParseError::TokenizeError(e)),
        Ok(tokens) => {
            let mut parser = Parser::new(tokens, filename.to_owned());
            parser.parse()
        },
    }
}

/// Takes the comments out of `contents`, the contents of the file
/// `filename`, then tokenizes and parses what is left. `None` where a `*/`
/// of `contents` stands outside all comments, and where what is left has
/// `u32::MAX` characters or more, which is more than the lines of a text can
/// be counted for.
pub fn front_end(contents: &str, filename: &str) -> (res: Option<
    Result<(Program, Vec<TokenType>), ParseError>,
>)
    ensures
        res is Some <==> closes_only_opened(contents@) && without_comments(contents@).len()
            < u32::MAX,
        res matches Some(parsed) ==> parse_outcome(parsed) == program_of(
            without_comments(contents@),
            filename@,
        ),
{
    if has_stray_close(contents) {
        return None;
    }
    let text = strip_comments(contents);
    if text.as_str().unicode_len() < u32::MAX as usize {
        Some(parse_source(text.as_str(), filename))
    } else {
        None
    }
}

} // verus!
