use vstd::prelude::*;
use itertools::Itertools;
use crate::text::chars_of;
use crate::types::TokenType;

verus! {

/// The characters of the source text and a cursor into them.
pub struct CharCursor {
    chars: Vec<char>,
    pos: usize,
}

/// A one-character-lookahead view over the source text, with the tokens
/// emitted so far.
///
/// The scanner never fails: at the end of the text `peek` and `p_next` return
/// `None`, and the operations that consume a character consume nothing.
pub struct TokenParser {
    pub tokens: Vec<TokenType>,
    pub iter: CharCursor,
}

/// Calls `Itertools::peeking_take_while` on the characters of `chars` from
/// `start` on, and collects what it yields.
///
/// Trusted: the result is a prefix of those characters; `accept` returned
/// `true` for each character of it, and `false` for the character that
/// follows it, if there is one.
#[verifier::external_body]
fn peeking_run<F: Fn(&char) -> bool>(chars: &Vec<char>, start: usize, accept: F) -> (run: String)
    requires
        start <= chars@.len(),
        forall|c: char| call_requires(accept, (&c,)),
    ensures
        start + run@.len() <= chars@.len(),
        run@ == chars@.subrange(start as int, start + run@.len()),
        forall|i: int| 0 <= i < run@.len() ==> call_ensures(accept, (&#[trigger] run@[i],), true),
        start + run@.len() < chars@.len() ==> call_ensures(
            accept,
            (&chars@[start + run@.len()],),
            false,
        ),
{
    chars[start..].iter().copied().peekable().peeking_take_while(accept).collect()
}

impl CharCursor {
    /// The cursor lies within the text.
    #[verifier::type_invariant]
    spec fn cursor_in_text(&self) -> bool {
        self.pos <= self.chars@.len()
    }

    /// The characters from the cursor on.
    pub closed spec fn rest(&self) -> Seq<char> {
        self.chars@.skip(self.pos as int)
    }

    /// A cursor at the start of `source`.
    fn new(source: &str) -> (cursor: CharCursor)
        ensures
            cursor.rest() == source@,
    {
        let chars = chars_of(source);
        assert(chars@.skip(0) =~= chars@);
        CharCursor { chars, pos: 0 }
    }

    /// The character under the cursor.
    fn peek(&self) -> (c: Option<&char>)
        ensures
            self.rest().len() > 0 ==> c == Some(&self.rest()[0]),
            self.rest().len() == 0 ==> c is None,
    {
        proof {
            use_type_invariant(self);
        }
        if self.pos < self.chars.len() {
            Some(&self.chars[self.pos])
        } else {
            None
        }
    }

    /// Takes the character under the cursor, if there is one.
    fn advance(&mut self) -> (c: Option<char>)
        ensures
            old(self).rest().len() > 0 ==> c == Some(old(self).rest()[0]) && final(self).rest()
                == old(self).rest().skip(1),
            old(self).rest().len() == 0 ==> c is None && final(self).rest() == old(self).rest(),
    {
        proof {
            use_type_invariant(&*self);
        }
        if self.pos < self.chars.len() {
            let c = self.chars[self.pos];
            self.pos = self.pos + 1;
            Some(c)
        } else {
            None
        }
    }

    /// Takes the longest run of characters that `accept` accepts.
    fn take_run<F: Fn(&char) -> bool>(&mut self, accept: F) -> (run: String)
        requires
            forall|c: char| call_requires(accept, (&c,)),
        ensures
            old(self).rest() == run@ + final(self).rest(),
            forall|i: int|
                0 <= i < run@.len() ==> call_ensures(accept, (&#[trigger] run@[i],), true),
            final(self).rest().len() > 0 ==> call_ensures(accept, (&final(self).rest()[0],), false),
    {
        proof {
            use_type_invariant(&*self);
        }
        let run = peeking_run(&self.chars, self.pos, accept);
        let taken = run.as_str().unicode_len();
        assert(self.pos + taken <= self.chars.len());
        self.pos = self.pos + taken;
        assert(old(self).rest() =~= run@ + self.rest());
        run
    }
}

impl TokenParser {
    /// The tokens emitted so far, oldest first.
    pub open spec fn emitted(&self) -> Seq<TokenType> {
        self.tokens@
    }

    /// The characters that have not been consumed yet.
    pub open spec fn remaining(&self) -> Seq<char> {
        self.iter.rest()
    }

    /// A scanner at the start of `source`, with no token emitted.
    pub fn new(source: &str) -> (scanner: TokenParser)
        ensures
            scanner.emitted() == Seq::<TokenType>::empty(),
            scanner.remaining() == source@,
    {
        TokenParser { tokens: Vec::new(), iter: CharCursor::new(source) }
    }

    /// Emits `token` and consumes the character under the cursor, if any.
    pub fn push(&mut self, token: TokenType)
        ensures
            final(self).emitted() == old(self).emitted().push(token),
            old(self).remaining().len() > 0 ==> final(self).remaining() == old(
                self,
            ).remaining().skip(1),
            old(self).remaining().len() == 0 ==> final(self).remaining() == old(self).remaining(),
    {
        self.iter.advance();
        self.tokens.push(token);
    }

    /// Emits `token` and consumes nothing.
    pub fn push_back(&mut self, token: TokenType)
        ensures
            final(self).emitted() == old(self).emitted().push(token),
            final(self).remaining() == old(self).remaining(),
    {
        self.tokens.push(token);
    }

    /// Consumes and returns the character under the cursor.
    pub fn p_next(&mut self) -> (c: Option<char>)
        ensures
            final(self).emitted() == old(self).emitted(),
            old(self).remaining().len() > 0 ==> c == Some(old(self).remaining()[0])
                && final(self).remaining() == old(self).remaining().skip(1),
            old(self).remaining().len() == 0 ==> c is None && final(self).remaining() == old(
                self,
            ).remaining(),
    {
        self.iter.advance()
    }

    /// Consumes the character under the cursor, if any.
    pub fn drop(&mut self)
        ensures
            final(self).emitted() == old(self).emitted(),
            old(self).remaining().len() > 0 ==> final(self).remaining() == old(
                self,
            ).remaining().skip(1),
            old(self).remaining().len() == 0 ==> final(self).remaining() == old(self).remaining(),
    {
        self.iter.advance();
    }

    /// The character under the cursor, which stays where it is.
    pub fn peek(&self) -> (c: Option<&char>)
        ensures
            self.remaining().len() > 0 ==> c == Some(&self.remaining()[0]),
            self.remaining().len() == 0 ==> c is None,
    {
        self.iter.peek()
    }

    /// Consumes and returns the longest run of characters under the cursor
    /// that `func` accepts; the first character that it refuses stays.
    pub fn get_string<F: Fn(&char) -> bool>(&mut self, func: F) -> (run: String)
        requires
            forall|c: char| call_requires(func, (&c,)),
        ensures
            final(self).emitted() == old(self).emitted(),
            old(self).remaining() == run@ + final(self).remaining(),
            forall|i: int| 0 <= i < run@.len() ==> call_ensures(func, (&#[trigger] run@[i],), true),
            final(self).remaining().len() > 0 ==> call_ensures(
                func,
                (&final(self).remaining()[0],),
                false,
            ),
    {
        self.iter.take_run(func)
    }

    /// Gives up the scanner for the tokens it has emitted.
    pub fn into_tokens(self) -> (tokens: Vec<TokenType>)
        ensures
            tokens@ == self.emitted(),
    {
        self.tokens
    }
}

} // verus!
