//! Byte-level scanning: literal tags, runs of a byte class, blanks and the
//! remainder of a line.
//!
//! Positions are offsets into the whole input. A scanner that succeeds at
//! offset `i` returns the offset at which the next scanner starts.

use crate::ascii::{
    CARRIAGE_RETURN, DIGIT_0, DIGIT_9, DOLLAR, DOT, LINE_FEED, LOWER_A, LOWER_Z, MINUS, QUOTE,
    SPACE, TAB, UNDERSCORE, UPPER_A, UPPER_Z,
};
use nom::types::CompleteByteSlice;
use vstd::prelude::*;
use vstd::slice::slice_subrange;
use vstd::string::StringSliceAdditionalSpecFns;

verus! {

/// Space or horizontal tab.
pub open spec fn is_blank(b: u8) -> bool {
    b == SPACE || b == TAB
}

/// Line feed or carriage return.
pub open spec fn is_line_break(b: u8) -> bool {
    b == LINE_FEED || b == CARRIAGE_RETURN
}

/// The predicate "is a blank", as a value.
pub open spec fn blank() -> spec_fn(u8) -> bool {
    |b: u8| is_blank(b)
}

/// The predicate "is not a line break", as a value.
pub open spec fn line_text() -> spec_fn(u8) -> bool {
    |b: u8| !is_line_break(b)
}

/// End of the longest run of bytes satisfying `p` that starts at `i`.
pub open spec fn run_end(s: Seq<u8>, i: int, p: spec_fn(u8) -> bool) -> int
    decreases s.len() - i,
{
    if 0 <= i < s.len() && p(s[i]) {
        run_end(s, i + 1, p)
    } else {
        i
    }
}

/// `j` is where the run of `p` bytes starting at `i` stops.
pub open spec fn stops_run(s: Seq<u8>, i: int, j: int, p: spec_fn(u8) -> bool) -> bool {
    &&& i <= j <= s.len()
    &&& forall|k: int| i <= k < j ==> p(#[trigger] s[k])
    &&& j < s.len() ==> !p(s[j])
}

/// A run ends at the first byte outside the class, and nowhere else.
pub proof fn lemma_run_end(s: Seq<u8>, i: int, p: spec_fn(u8) -> bool)
    requires
        0 <= i <= s.len(),
    ensures
        stops_run(s, i, run_end(s, i, p), p),
        forall|j: int| stops_run(s, i, j, p) ==> j == run_end(s, i, p),
    decreases s.len() - i,
{
    if i < s.len() && p(s[i]) {
        lemma_run_end(s, i + 1, p);
        assert forall|j: int| stops_run(s, i, j, p) implies j == run_end(s, i, p) by {
            assert(j > i);
            assert(stops_run(s, i + 1, j, p));
        }
    } else {
        assert forall|j: int| stops_run(s, i, j, p) implies j == run_end(s, i, p) by {
            if j > i {
                assert(p(s[i]));
            }
        }
    }
}

/// A run in the tail of `s` from `i` is the run of `s` at `i`, shifted.
pub proof fn lemma_run_end_of_tail(s: Seq<u8>, i: int, p: spec_fn(u8) -> bool)
    requires
        0 <= i <= s.len(),
    ensures
        run_end(s, i, p) == i + run_end(s.skip(i), 0, p),
{
    let t = s.skip(i);
    lemma_run_end(t, 0, p);
    let n = run_end(t, 0, p);
    assert(stops_run(s, i, i + n, p)) by {
        assert forall|k: int| i <= k < i + n implies p(#[trigger] s[k]) by {
            assert(s[k] == t[k - i]);
        }
        if i + n < s.len() {
            assert(s[i + n] == t[n]);
        }
    }
    lemma_run_end(s, i, p);
}

/// One or more blanks at `i`.
pub open spec fn blanks(s: Seq<u8>, i: int) -> Option<int> {
    let e = run_end(s, i, blank());
    if e > i {
        Some(e)
    } else {
        None
    }
}

/// The text of a line from `i` up to, and without, its line ending.
///
/// The line stops at the first line feed or carriage return, or at the end of
/// the input. A carriage return that is not followed by a line feed is not a
/// line ending, and a line that runs into one has no remainder.
pub open spec fn line_rest(s: Seq<u8>, i: int) -> Option<int> {
    let e = run_end(s, i, line_text());
    if e < s.len() && s[e] == CARRIAGE_RETURN && !(e + 1 < s.len() && s[e + 1] == LINE_FEED) {
        None
    } else {
        Some(e)
    }
}

/// The literal `lit` at `i`.
pub open spec fn tag_end(s: Seq<u8>, i: int, lit: &str) -> Option<int> {
    let n = lit.spec_bytes().len();
    if 0 <= i && i + n <= s.len() && s.subrange(i, i + n) == lit.spec_bytes() {
        Some(i + n)
    } else {
        None
    }
}

/// The bytes of a literal made of ASCII characters are those characters,
/// one byte each.
pub proof fn lemma_ascii_literal(lit: &str)
    requires
        vstd::string::is_ascii(lit),
    ensures
        lit.spec_bytes().len() == lit@.len(),
        forall|k: int| 0 <= k < lit@.len() ==> #[trigger] lit.spec_bytes()[k] == lit@[k] as u8,
{
    vstd::string::is_ascii_spec_bytes(lit);
}

/// The single byte `b` at `i`.
pub open spec fn byte_end(s: Seq<u8>, i: int, b: u8) -> Option<int> {
    if 0 <= i < s.len() && s[i] == b {
        Some(i + 1)
    } else {
        None
    }
}

/// An executable offset agrees with a specified one.
pub open spec fn is_end(r: Option<usize>, m: Option<int>) -> bool {
    match r {
        Some(e) => m == Some(e as int),
        None => m is None,
    }
}

/// The failure of a recognizer. It hands back the input that was offered,
/// untouched: a recognizer that fails has consumed nothing.
#[derive(Clone, Copy, Debug, PartialEq, Eq)]
pub struct Unrecognized<'a> {
    pub input: &'a [u8],
}

/// The part of `input` from `pos` on.
pub(crate) fn rest_from<'a>(input: &'a [u8], pos: usize) -> (rest: &'a [u8])
    requires
        pos <= input@.len(),
    ensures
        rest@ == input@.skip(pos as int),
{
    let rest = slice_subrange(input, pos, input.len());
    assert(rest@ =~= input@.skip(pos as int));
    rest
}

/// Splits off the leading spaces and tabs of `input` with `nom::space0`, read
/// as complete input. The contract claims that the call always succeeds, that
/// the second slice is the longest prefix made of spaces and tabs, and that
/// the first slice is everything after it.
#[verifier::external_body]
fn leading_blanks<'a>(input: &'a [u8]) -> (r: Option<(&'a [u8], &'a [u8])>)
    ensures
        match r {
            Some((rest, found)) => found@ == input@.take(run_end(input@, 0, blank())) && rest@
                == input@.skip(run_end(input@, 0, blank())),
            None => false,
        },
{
    match nom::space0(CompleteByteSlice(input)) {
        Ok((rest, found)) => Some((rest.0, found.0)),
        Err(_) => None,
    }
}

/// Splits off one or more leading spaces and tabs of `input` with
/// `nom::space`, read as complete input. The contract claims that the call
/// fails exactly when `input` does not start with a space or tab, and that
/// otherwise the second slice is the longest prefix made of spaces and tabs
/// and the first slice everything after it.
#[verifier::external_body]
fn leading_blank_run<'a>(input: &'a [u8]) -> (r: Option<(&'a [u8], &'a [u8])>)
    ensures
        match r {
            Some((rest, found)) => run_end(input@, 0, blank()) > 0 && found@ == input@.take(
                run_end(input@, 0, blank()),
            ) && rest@ == input@.skip(run_end(input@, 0, blank())),
            None => run_end(input@, 0, blank()) == 0,
        },
{
    match nom::space(CompleteByteSlice(input)) {
        Ok((rest, found)) => Some((rest.0, found.0)),
        Err(_) => None,
    }
}

/// Splits `input` at its first line feed or carriage return with
/// `nom::not_line_ending`, read as complete input. The contract claims that
/// the call fails exactly when that first byte is a carriage return with no
/// line feed right after it, and that otherwise the second slice is the text
/// before that byte (all of `input` if there is none) and the first slice
/// everything from that byte on.
#[verifier::external_body]
fn leading_line_text<'a>(input: &'a [u8]) -> (r: Option<(&'a [u8], &'a [u8])>)
    ensures
        match r {
            Some((rest, found)) => line_rest(input@, 0) is Some && found@ == input@.take(
                run_end(input@, 0, line_text()),
            ) && rest@ == input@.skip(run_end(input@, 0, line_text())),
            None => line_rest(input@, 0) is None,
        },
{
    match nom::not_line_ending(CompleteByteSlice(input)) {
        Ok((rest, found)) => Some((rest.0, found.0)),
        Err(_) => None,
    }
}

/// Skips any spaces and tabs at `pos`.
pub(crate) fn skip_blanks(input: &[u8], pos: usize) -> (e: usize)
    requires
        pos <= input@.len(),
    ensures
        e == run_end(input@, pos as int, blank()),
        pos <= e <= input@.len(),
{
    let tail = slice_subrange(input, pos, input.len());
    proof {
        lemma_run_end_of_tail(input@, pos as int, blank());
        lemma_run_end(tail@, 0, blank());
        assert(tail@ =~= input@.skip(pos as int));
    }
    match leading_blanks(tail) {
        Some((_, found)) => pos + found.len(),
        None => pos,
    }
}

/// Requires one or more spaces and tabs at `pos`.
pub(crate) fn blank_run(input: &[u8], pos: usize) -> (r: Option<usize>)
    requires
        pos <= input@.len(),
    ensures
        is_end(r, blanks(input@, pos as int)),
        r matches Some(e) ==> pos < e <= input@.len(),
{
    let tail = slice_subrange(input, pos, input.len());
    proof {
        lemma_run_end_of_tail(input@, pos as int, blank());
        lemma_run_end(tail@, 0, blank());
        assert(tail@ =~= input@.skip(pos as int));
    }
    match leading_blank_run(tail) {
        Some((_, found)) => Some(pos + found.len()),
        None => None,
    }
}

/// Takes the remainder of the line at `pos`.
pub(crate) fn rest_of_line(input: &[u8], pos: usize) -> (r: Option<usize>)
    requires
        pos <= input@.len(),
    ensures
        is_end(r, line_rest(input@, pos as int)),
        r matches Some(e) ==> pos <= e <= input@.len(),
{
    let tail = slice_subrange(input, pos, input.len());
    proof {
        lemma_run_end_of_tail(input@, pos as int, line_text());
        lemma_run_end(tail@, 0, line_text());
        lemma_run_end(input@, pos as int, line_text());
        assert(tail@ =~= input@.skip(pos as int));
    }
    match leading_line_text(tail) {
        Some((_, found)) => Some(pos + found.len()),
        None => None,
    }
}

/// Matches the literal `lit` at `pos`.
pub(crate) fn tag(input: &[u8], pos: usize, lit: &str) -> (r: Option<usize>)
    requires
        pos <= input@.len(),
    ensures
        is_end(r, tag_end(input@, pos as int, lit)),
        r matches Some(e) ==> pos <= e <= input@.len(),
{
    let pat = lit.as_bytes();
    let n: usize = pat.len();
    if n > input.len() - pos {
        return None;
    }
    let mut k: usize = 0;
    while k < n
        invariant
            k <= n,
            n == pat@.len(),
            pat@ == lit.spec_bytes(),
            pos + n <= input.len(),
            forall|j: int| 0 <= j < k ==> input@[pos + j] == pat@[j],
        decreases n - k,
    {
        if input[pos + k] != pat[k] {
            assert(input@.subrange(pos as int, pos + n)[k as int] == input@[pos + k]);
            return None;
        }
        k += 1;
    }
    assert(input@.subrange(pos as int, pos + n) =~= pat@);
    Some(pos + n)
}

/// Matches the byte `b` at `pos`.
pub(crate) fn byte(input: &[u8], pos: usize, b: u8) -> (r: Option<usize>)
    requires
        pos <= input@.len(),
    ensures
        is_end(r, byte_end(input@, pos as int, b)),
        r matches Some(e) ==> e == pos + 1 && e <= input@.len(),
{
    if pos < input.len() && input[pos] == b {
        Some(pos + 1)
    } else {
        None
    }
}

/// The byte classes that are scanned as runs.
#[derive(Clone, Copy, Debug, PartialEq, Eq)]
pub enum Class {
    /// `0` to `9`.
    Digit,
    /// What an unquoted symbol name is made of: ASCII letters and digits,
    /// `_`, `.`, `$` and `-`.
    Name,
    /// What a keyword is made of: lower-case ASCII letters and `_`.
    Word,
    /// What may stand between double quotes: anything but a double quote or
    /// a line break.
    Quoted,
}

/// `0` to `9`.
pub open spec fn is_digit(b: u8) -> bool {
    DIGIT_0 <= b <= DIGIT_9
}

/// An ASCII letter, upper or lower case.
pub open spec fn is_letter(b: u8) -> bool {
    UPPER_A <= b <= UPPER_Z || LOWER_A <= b <= LOWER_Z
}

/// Membership of `b` in the class `c`.
pub open spec fn in_class(c: Class, b: u8) -> bool {
    match c {
        Class::Digit => is_digit(b),
        Class::Name => is_digit(b) || is_letter(b) || b == UNDERSCORE || b == DOT || b == DOLLAR
            || b == MINUS,
        Class::Word => LOWER_A <= b <= LOWER_Z || b == UNDERSCORE,
        Class::Quoted => b != QUOTE && !is_line_break(b),
    }
}

/// The class `c` as a predicate.
pub open spec fn class(c: Class) -> spec_fn(u8) -> bool {
    |b: u8| in_class(c, b)
}

/// Tells whether `b` belongs to the class `c`.
pub(crate) fn class_has(c: Class, b: u8) -> (r: bool)
    ensures
        r == in_class(c, b),
{
    match c {
        Class::Digit => DIGIT_0 <= b && b <= DIGIT_9,
        Class::Name => (DIGIT_0 <= b && b <= DIGIT_9) || (UPPER_A <= b && b <= UPPER_Z) || (
        LOWER_A <= b && b <= LOWER_Z) || b == UNDERSCORE || b == DOT || b == DOLLAR || b
            == MINUS,
        Class::Word => (LOWER_A <= b && b <= LOWER_Z) || b == UNDERSCORE,
        Class::Quoted => b != QUOTE && b != LINE_FEED && b != CARRIAGE_RETURN,
    }
}

/// Skips the longest run of bytes of class `c` at `pos`.
pub(crate) fn run(input: &[u8], pos: usize, c: Class) -> (e: usize)
    requires
        pos <= input@.len(),
    ensures
        e == run_end(input@, pos as int, class(c)),
        pos <= e <= input@.len(),
{
    let mut e: usize = pos;
    while e < input.len() && class_has(c, input[e])
        invariant
            pos <= e <= input@.len(),
            run_end(input@, pos as int, class(c)) == run_end(input@, e as int, class(c)),
        decreases input@.len() - e,
    {
        e += 1;
    }
    e
}

} // verus!
