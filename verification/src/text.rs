use vstd::prelude::*;
use vstd::std_specs::iter::IteratorSpec;
use std::num::IntErrorKind;

verus! {

/// Why a text is no number: the kinds of error of the integer parsers of the
/// standard library.
#[derive(Debug, Clone, Copy, PartialEq, Eq, Structural)]
pub enum IntegerFault {
    /// The text is empty.
    Empty,
    /// The text holds a character that is no digit.
    InvalidDigit,
    /// The number is too large for the type.
    PosOverflow,
    /// The number is too small for the type.
    NegOverflow,
    /// The number is zero where zero is not allowed.
    Zero,
    /// A kind that the standard library has added since.
    Other,
}

/// The sets of characters that the tokenizer takes in runs.
#[derive(Debug, Clone, Copy, PartialEq, Eq, Structural)]
pub enum CharClass {
    /// ASCII letters and decimal digits: keywords and identifiers.
    Word,
    /// Hexadecimal digits and `x`: numeric literals.
    Number,
    /// Every character but the given one: the text of a quoted literal, or
    /// the rest of a line.
    Until(char),
}

/// Whether `c` is an ASCII letter.
pub open spec fn is_letter(c: char) -> bool {
    ('a' <= c && c <= 'z') || ('A' <= c && c <= 'Z')
}

/// Whether `c` is one of the digits `0` to `9`.
pub open spec fn is_decimal_digit(c: char) -> bool {
    '0' <= c && c <= '9'
}

/// Whether `c` is a hexadecimal digit, in either case.
pub open spec fn is_hex_digit(c: char) -> bool {
    is_decimal_digit(c) || ('a' <= c && c <= 'f') || ('A' <= c && c <= 'F')
}

impl CharClass {
    /// Whether `c` belongs to the class.
    pub open spec fn accepts(self, c: char) -> bool {
        match self {
            CharClass::Word => is_letter(c) || is_decimal_digit(c),
            CharClass::Number => is_hex_digit(c) || c == 'x',
            CharClass::Until(stop) => c != stop,
        }
    }

    /// Whether `c` belongs to the class.
    pub fn contains(self, c: char) -> (r: bool)
        ensures
            r == self.accepts(c),
    {
        match self {
            CharClass::Word => ('a' <= c && c <= 'z') || ('A' <= c && c <= 'Z') || ('0' <= c && c
                <= '9'),
            CharClass::Number => ('0' <= c && c <= '9') || ('a' <= c && c <= 'f') || ('A' <= c
                && c <= 'F') || c == 'x',
            CharClass::Until(stop) => c != stop,
        }
    }
}

/// The length of the longest prefix of `s` whose characters all belong to
/// `class`.
pub open spec fn run_len(s: Seq<char>, class: CharClass) -> nat
    decreases s.len(),
{
    if s.len() > 0 && class.accepts(s[0]) {
        1 + run_len(s.skip(1), class)
    } else {
        0
    }
}

/// The number of line feeds in `s`.
pub open spec fn newlines(s: Seq<char>) -> nat
    decreases s.len(),
{
    if s.len() == 0 {
        0
    } else {
        newlines(s.drop_last()) + if s.last() == '\n' {
            1nat
        } else {
            0nat
        }
    }
}

/// The value of `c` as a digit in base `radix`, if it is one.
pub open spec fn digit_value(c: char, radix: nat) -> Option<nat> {
    let v: int = if '0' <= c && c <= '9' {
        c as int - '0' as int
    } else if 'a' <= c && c <= 'z' {
        c as int - 'a' as int + 10
    } else if 'A' <= c && c <= 'Z' {
        c as int - 'A' as int + 10
    } else {
        radix as int
    };
    if v < radix {
        Some(v as nat)
    } else {
        None
    }
}

/// The number that `s` writes in base `radix`: `None` where `s` is empty or
/// holds a character that is no digit in that base.
pub open spec fn numeral_value(s: Seq<char>, radix: nat) -> Option<nat>
    decreases s.len(),
{
    if s.len() == 0 {
        None
    } else {
        match digit_value(s.last(), radix) {
            None => None,
            Some(d) => if s.len() == 1 {
                Some(d)
            } else {
                match numeral_value(s.drop_last(), radix) {
                    None => None,
                    Some(high) => Some(high * radix + d),
                }
            },
        }
    }
}

/// Where `s` splits into a run of characters of `class` and a rest that is
/// empty or starts outside `class`, the run is the longest one.
pub proof fn lemma_run_len(s: Seq<char>, run: Seq<char>, rest: Seq<char>, class: CharClass)
    requires
        s == run + rest,
        forall|i: int| 0 <= i < run.len() ==> class.accepts(#[trigger] run[i]),
        rest.len() > 0 ==> !class.accepts(rest[0]),
    ensures
        run_len(s, class) == run.len(),
    decreases run.len(),
{
    if run.len() == 0 {
        assert(s =~= rest);
    } else {
        assert(s[0] == run[0]);
        assert(s.skip(1) =~= run.skip(1) + rest);
        assert forall|i: int| 0 <= i < run.skip(1).len() implies class.accepts(
            #[trigger] run.skip(1)[i],
        ) by {
            assert(run.skip(1)[i] == run[i + 1]);
        }
        lemma_run_len(s.skip(1), run.skip(1), rest, class);
    }
}

/// The longest run of `class` at the start of `s` lies within `s`.
pub proof fn lemma_run_len_bound(s: Seq<char>, class: CharClass)
    ensures
        run_len(s, class) <= s.len(),
        forall|i: int| 0 <= i < run_len(s, class) ==> class.accepts(#[trigger] s[i]),
        run_len(s, class) < s.len() ==> !class.accepts(s[run_len(s, class) as int]),
    decreases s.len(),
{
    if s.len() > 0 && class.accepts(s[0]) {
        lemma_run_len_bound(s.skip(1), class);
        assert forall|i: int| 0 <= i < run_len(s, class) implies class.accepts(#[trigger] s[i]) by {
            if i > 0 {
                assert(s[i] == s.skip(1)[i - 1]);
            }
        }
        if run_len(s, class) < s.len() {
            assert(s[run_len(s, class) as int] == s.skip(1)[run_len(s.skip(1), class) as int]);
        }
    }
}

/// A text holds at most as many line feeds as characters, and the line feeds
/// of two texts add up.
pub proof fn lemma_newlines_concat(a: Seq<char>, b: Seq<char>)
    ensures
        newlines(a + b) == newlines(a) + newlines(b),
        newlines(a) <= a.len(),
    decreases b.len(),
{
    lemma_newlines_bound(a);
    if b.len() == 0 {
        assert(a + b =~= a);
    } else {
        assert((a + b).drop_last() =~= a + b.drop_last());
        assert((a + b).last() == b.last());
        lemma_newlines_concat(a, b.drop_last());
    }
}

/// A text without a line feed holds none.
pub proof fn lemma_no_newlines(a: Seq<char>)
    requires
        forall|i: int| 0 <= i < a.len() ==> #[trigger] a[i] != '\n',
    ensures
        newlines(a) == 0,
    decreases a.len(),
{
    if a.len() > 0 {
        assert forall|i: int| 0 <= i < a.drop_last().len() implies #[trigger] a.drop_last()[i]
            != '\n' by {
            assert(a.drop_last()[i] == a[i]);
        }
        lemma_no_newlines(a.drop_last());
    }
}

/// A text holds at most as many line feeds as characters.
pub proof fn lemma_newlines_bound(a: Seq<char>)
    ensures
        newlines(a) <= a.len(),
    decreases a.len(),
{
    if a.len() > 0 {
        lemma_newlines_bound(a.drop_last());
    }
}

/// The text that the `Debug` format writes for a string: the string in
/// double quotes, with escapes.
pub uninterp spec fn debug_text(text: Seq<char>) -> Seq<char>;

/// The character of the digit `d`.
pub open spec fn digit_char(d: nat) -> char
    recommends
        d < 10,
{
    ('0' as u8 + d) as char
}

/// The decimal numeral of `n`, without leading zeros.
pub open spec fn decimal(n: nat) -> Seq<char>
    decreases n,
{
    if n < 10 {
        seq![digit_char(n)]
    } else {
        decimal(n / 10).push(digit_char(n % 10))
    }
}

/// The text that the `Debug` format writes for a character: the character
/// in single quotes, with escapes.
pub uninterp spec fn debug_char_text(c: char) -> Seq<char>;

/// Calls `str::eq`.
///
/// Trusted: two string slices are equal exactly when they hold the same
/// characters.
#[verifier::external_body]
pub(crate) fn same_text(a: &str, b: &str) -> (r: bool)
    ensures
        r == (a@ == b@),
{
    a == b
}

/// Calls `String::push`.
///
/// Trusted: the character is appended to the string.
#[verifier::external_body]
pub(crate) fn push_char(s: &mut String, c: char)
    ensures
        final(s)@ == old(s)@.push(c),
{
    s.push(c)
}

/// The kind of the error that `u64::from_str_radix` returns for the text
/// `digits` in base `radix`, where it returns one.
pub uninterp spec fn radix_fault(digits: Seq<char>, radix: nat) -> IntegerFault;

/// Calls `u64::from_str_radix`, and `ParseIntError::kind` on its error.
///
/// Trusted: the call succeeds exactly when `digits` is a non-empty run of
/// digits of the base whose value fits in 64 bits, and then returns that
/// value. The kind of its error depends on nothing but the text and the
/// base; it is `Empty` for the empty text, and `PosOverflow` for a run of
/// digits. A leading `+`, which the function would skip, is left out.
#[verifier::external_body]
pub(crate) fn parse_u64(digits: &str, radix: u32) -> (r: Result<u64, IntegerFault>)
    requires
        radix == 10 || radix == 16,
        digits@.len() > 0 ==> digits@[0] != '+',
    ensures
        r is Ok <==> (numeral_value(digits@, radix as nat) matches Some(v) && v <= u64::MAX),
        r matches Ok(n) ==> numeral_value(digits@, radix as nat) == Some(n as nat),
        r matches Err(fault) ==> fault == radix_fault(digits@, radix as nat),
        r matches Err(fault) ==> (digits@.len() == 0 ==> fault == IntegerFault::Empty),
        r matches Err(fault) ==> (numeral_value(digits@, radix as nat) is Some ==> fault
            == IntegerFault::PosOverflow),
{
    match u64::from_str_radix(digits, radix) {
        Ok(n) => Ok(n),
        Err(e) => Err(
            match e.kind() {
                IntErrorKind::Empty => IntegerFault::Empty,
                IntErrorKind::InvalidDigit => IntegerFault::InvalidDigit,
                IntErrorKind::PosOverflow => IntegerFault::PosOverflow,
                IntErrorKind::NegOverflow => IntegerFault::NegOverflow,
                IntErrorKind::Zero => IntegerFault::Zero,
                _ => IntegerFault::Other,
            },
        ),
    }
}

/// Formats a string with `{:#?}`, which writes for a string what `{:?}`
/// writes.
///
/// Trusted: the text depends on nothing but the characters of the string.
#[verifier::external_body]
pub(crate) fn debug_quote(text: &str) -> (quoted: String)
    ensures
        quoted@ == debug_text(text@),
{
    format!("{:#?}", text)
}

/// Calls `u64::to_string`.
///
/// Trusted: the text is the decimal numeral of the number.
#[verifier::external_body]
pub(crate) fn decimal_text(n: u64) -> (text: String)
    ensures
        text@ == decimal(n as nat),
{
    n.to_string()
}

/// Formats a character with `{:?}`.
///
/// Trusted: the text depends on nothing but the character.
#[verifier::external_body]
pub(crate) fn debug_char(c: char) -> (quoted: String)
    ensures
        quoted@ == debug_char_text(c),
{
    format!("{:?}", c)
}

/// The characters of `text`, in order.
pub fn chars_of(text: &str) -> (chars: Vec<char>)
    ensures
        chars@ == text@,
{
    let mut chars: Vec<char> = Vec::new();
    let mut iter = text.chars();
    loop
        invariant
            chars@ + iter.remaining() == text@,
            iter.decrease() is Some,
        ensures
            chars@ == text@,
        decreases iter.decrease()->0,
    {
        let ghost before = iter.remaining();
        match iter.next() {
            Some(c) => {
                chars.push(c);
                assert(chars@ + iter.remaining() =~= (chars@.drop_last() + before));
            },
            None => {
                assert(chars@ + before =~= chars@);
                break ;
            },
        }
    }
    chars
}

/// The number of line feeds in `text`.
pub fn count_newlines(text: &str) -> (count: u32)
    requires
        text@.len() <= u32::MAX,
    ensures
        count == newlines(text@),
{
    let mut count: u32 = 0;
    let mut iter = text.chars();
    let ghost mut seen: Seq<char> = Seq::empty();
    loop
        invariant
            seen + iter.remaining() == text@,
            count == newlines(seen),
            text@.len() <= u32::MAX,
            iter.decrease() is Some,
        ensures
            count == newlines(text@),
        decreases iter.decrease()->0,
    {
        let ghost before = iter.remaining();
        match iter.next() {
            Some(c) => {
                proof {
                    let next_seen = seen.push(c);
                    assert(next_seen + iter.remaining() =~= seen + before);
                    assert(next_seen.drop_last() =~= seen);
                    lemma_newlines_bound(next_seen);
                    seen = next_seen;
                }
                if c == '\n' {
                    count = count + 1;
                }
            },
            None => {
                assert(seen + before =~= seen);
                break ;
            },
        }
    }
    count
}

} // verus!
