//! Tokens of a line: symbol names, decimal numbers and attributes.

use crate::ascii::{CLOSE_PAREN, DIGIT_0, EQUALS, OPEN_PAREN, QUOTE};
use crate::scan::{
    blank_run, blanks, byte, byte_end, class, is_end, run, run_end, tag, tag_end, Class,
};
use vstd::prelude::*;
use vstd::slice::slice_subrange;

verus! {

/// A name at `i`, with the offset after it.
///
/// A name is either quoted (any text between two double quotes on one line;
/// the quotes are not part of the name) or bare (a non-empty run of name
/// bytes).
pub open spec fn name_at(s: Seq<u8>, i: int) -> Option<(Seq<u8>, int)> {
    if 0 <= i < s.len() && s[i] == QUOTE {
        let e = run_end(s, i + 1, class(Class::Quoted));
        if e < s.len() && s[e] == QUOTE {
            Some((s.subrange(i + 1, e), e + 1))
        } else {
            None
        }
    } else {
        let e = run_end(s, i, class(Class::Name));
        if e > i {
            Some((s.subrange(i, e), e))
        } else {
            None
        }
    }
}

/// A symbol at `i`: the byte `sigil`, then a name.
pub open spec fn symbol_at(s: Seq<u8>, i: int, sigil: u8) -> Option<(Seq<u8>, int)> {
    match byte_end(s, i, sigil) {
        Some(j) => name_at(s, j),
        None => None,
    }
}

/// An executable name and offset agree with the specified ones.
pub open spec fn is_name(r: Option<(&[u8], usize)>, m: Option<(Seq<u8>, int)>) -> bool {
    match r {
        Some((name, e)) => m == Some((name@, e as int)),
        None => m is None,
    }
}

/// The value of the decimal digits of `s` from `i` up to `j`.
pub open spec fn decimal(s: Seq<u8>, i: int, j: int) -> nat
    decreases j - i,
{
    if 0 <= i < j <= s.len() {
        decimal(s, i, j - 1) * 10 + (s[j - 1] - DIGIT_0) as nat
    } else {
        0
    }
}

/// A non-empty run of decimal digits at `i`.
pub open spec fn digits(s: Seq<u8>, i: int) -> Option<int> {
    let e = run_end(s, i, class(Class::Digit));
    if e > i {
        Some(e)
    } else {
        None
    }
}

/// A decimal number at `i` that fits 64 bits, with the offset after it.
pub open spec fn number_at(s: Seq<u8>, i: int) -> Option<(u64, int)> {
    match digits(s, i) {
        Some(e) => if decimal(s, i, e) <= u64::MAX {
            Some((decimal(s, i, e) as u64, e))
        } else {
            None
        },
        None => None,
    }
}

/// The keyword `lit` is the whole run of keyword bytes from `i` to `e`.
pub open spec fn word_is(s: Seq<u8>, i: int, e: int, lit: &str) -> bool {
    tag_end(s, i, lit) == Some(e)
}

/// The keywords that are attributes by themselves: linkage, visibility,
/// storage, calling convention, and the flags of parameters and results.
pub open spec fn plain_attribute(s: Seq<u8>, i: int, e: int) -> bool {
    ||| word_is(s, i, e, "private")
    ||| word_is(s, i, e, "internal")
    ||| word_is(s, i, e, "external")
    ||| word_is(s, i, e, "available_externally")
    ||| word_is(s, i, e, "linkonce")
    ||| word_is(s, i, e, "linkonce_odr")
    ||| word_is(s, i, e, "weak")
    ||| word_is(s, i, e, "weak_odr")
    ||| word_is(s, i, e, "common")
    ||| word_is(s, i, e, "appending")
    ||| word_is(s, i, e, "extern_weak")
    ||| word_is(s, i, e, "dso_local")
    ||| word_is(s, i, e, "dso_preemptable")
    ||| word_is(s, i, e, "default")
    ||| word_is(s, i, e, "hidden")
    ||| word_is(s, i, e, "protected")
    ||| word_is(s, i, e, "dllimport")
    ||| word_is(s, i, e, "dllexport")
    ||| word_is(s, i, e, "thread_local")
    ||| word_is(s, i, e, "unnamed_addr")
    ||| word_is(s, i, e, "local_unnamed_addr")
    ||| word_is(s, i, e, "ccc")
    ||| word_is(s, i, e, "fastcc")
    ||| word_is(s, i, e, "coldcc")
    ||| word_is(s, i, e, "zeroext")
    ||| word_is(s, i, e, "signext")
    ||| word_is(s, i, e, "inreg")
    ||| word_is(s, i, e, "byval")
    ||| word_is(s, i, e, "sret")
    ||| word_is(s, i, e, "noalias")
    ||| word_is(s, i, e, "nocapture")
    ||| word_is(s, i, e, "nonnull")
    ||| word_is(s, i, e, "noundef")
    ||| word_is(s, i, e, "readonly")
    ||| word_is(s, i, e, "readnone")
    ||| word_is(s, i, e, "writeonly")
    ||| word_is(s, i, e, "returned")
    ||| word_is(s, i, e, "nest")
    ||| word_is(s, i, e, "immarg")
}

/// The keywords that are attributes together with a decimal number in
/// parentheses right after them.
pub open spec fn sized_attribute(s: Seq<u8>, i: int, e: int) -> bool {
    ||| word_is(s, i, e, "dereferenceable")
    ||| word_is(s, i, e, "dereferenceable_or_null")
    ||| word_is(s, i, e, "addrspace")
}

/// A decimal number in parentheses at `i`.
pub open spec fn size_end(s: Seq<u8>, i: int) -> Option<int> {
    match byte_end(s, i, OPEN_PAREN) {
        Some(j) => match digits(s, j) {
            Some(k) => byte_end(s, k, CLOSE_PAREN),
            None => None,
        },
        None => None,
    }
}

/// A quoted key at `i`, alone or followed by `=` and a quoted value.
pub open spec fn pair_end(s: Seq<u8>, i: int) -> Option<int> {
    match name_at(s, i) {
        Some((_, j)) => match byte_end(s, j, EQUALS) {
            Some(k) => if k < s.len() && s[k] == QUOTE {
                match name_at(s, k) {
                    Some((_, e)) => Some(e),
                    None => None,
                }
            } else {
                None
            },
            None => Some(j),
        },
        None => None,
    }
}

/// One attribute at `i`.
///
/// An attribute is one of: a quoted key with an optional `=` and quoted
/// value; `align`, blanks and a decimal number; a sized keyword with its
/// number in parentheses; a plain keyword. A keyword is always the longest
/// run of keyword bytes at `i`, so a longer word that merely starts with a
/// keyword is not an attribute.
pub open spec fn attribute_end(s: Seq<u8>, i: int) -> Option<int> {
    if 0 <= i < s.len() && s[i] == QUOTE {
        pair_end(s, i)
    } else {
        let e = run_end(s, i, class(Class::Word));
        if e <= i {
            None
        } else if word_is(s, i, e, "align") {
            match blanks(s, e) {
                Some(j) => digits(s, j),
                None => None,
            }
        } else if sized_attribute(s, i, e) {
            size_end(s, e)
        } else if plain_attribute(s, i, e) {
            Some(e)
        } else {
            None
        }
    }
}

/// Where a sequence of zero or more attributes, each followed by blanks,
/// ends. The sequence stops, without failing, before the first thing that is
/// not an attribute followed by blanks.
pub open spec fn attributes_end(s: Seq<u8>, i: int) -> int
    decreases s.len() - i,
{
    match attribute_end(s, i) {
        Some(j) => match blanks(s, j) {
            Some(k) => if i < k <= s.len() {
                attributes_end(s, k)
            } else {
                i
            },
            None => i,
        },
        None => i,
    }
}

/// Where a sequence of zero or more attributes, each preceded by blanks,
/// ends. The sequence stops, without failing, before the first blanks that
/// no attribute follows.
pub open spec fn spaced_attributes_end(s: Seq<u8>, i: int) -> int
    decreases s.len() - i,
{
    match blanks(s, i) {
        Some(j) => match attribute_end(s, j) {
            Some(k) => if i < k <= s.len() {
                spaced_attributes_end(s, k)
            } else {
                i
            },
            None => i,
        },
        None => i,
    }
}

/// Reads a name at `pos`.
pub(crate) fn name<'a>(input: &'a [u8], pos: usize) -> (r: Option<(&'a [u8], usize)>)
    requires
        pos <= input@.len(),
    ensures
        is_name(r, name_at(input@, pos as int)),
        r matches Some((_, e)) ==> pos < e <= input@.len(),
{
    if pos < input.len() && input[pos] == QUOTE {
        let e = run(input, pos + 1, Class::Quoted);
        if e < input.len() && input[e] == QUOTE {
            Some((slice_subrange(input, pos + 1, e), e + 1))
        } else {
            None
        }
    } else {
        let e = run(input, pos, Class::Name);
        if e > pos {
            Some((slice_subrange(input, pos, e), e))
        } else {
            None
        }
    }
}

/// Reads a symbol at `pos`: `sigil`, then a name.
pub(crate) fn symbol<'a>(input: &'a [u8], pos: usize, sigil: u8) -> (r: Option<
    (&'a [u8], usize),
>)
    requires
        pos <= input@.len(),
    ensures
        is_name(r, symbol_at(input@, pos as int, sigil)),
        r matches Some((_, e)) ==> pos < e <= input@.len(),
{
    match byte(input, pos, sigil) {
        Some(j) => name(input, j),
        None => None,
    }
}

/// Requires a non-empty run of decimal digits at `pos`.
pub(crate) fn digit_run(input: &[u8], pos: usize) -> (r: Option<usize>)
    requires
        pos <= input@.len(),
    ensures
        is_end(r, digits(input@, pos as int)),
        r matches Some(e) ==> pos < e <= input@.len(),
{
    let e = run(input, pos, Class::Digit);
    if e > pos {
        Some(e)
    } else {
        None
    }
}

/// Appending digits never lowers the value.
proof fn lemma_decimal_grows(s: Seq<u8>, i: int, j: int, k: int)
    requires
        0 <= i <= j <= k <= s.len(),
    ensures
        decimal(s, i, j) <= decimal(s, i, k),
    decreases k - j,
{
    if j < k {
        lemma_decimal_grows(s, i, j, k - 1);
    }
}

/// Reads a decimal number at `pos`.
pub(crate) fn number(input: &[u8], pos: usize) -> (r: Option<(u64, usize)>)
    requires
        pos <= input@.len(),
    ensures
        match r {
            Some((n, e)) => number_at(input@, pos as int) == Some((n, e as int)),
            None => number_at(input@, pos as int) is None,
        },
        r matches Some((_, e)) ==> pos < e <= input@.len(),
{
    let e = match digit_run(input, pos) {
        Some(e) => e,
        None => { return None; },
    };
    let mut n: u64 = 0;
    let mut k: usize = pos;
    while k < e
        invariant
            pos <= k <= e <= input@.len(),
            e == run_end(input@, pos as int, class(Class::Digit)),
            n == decimal(input@, pos as int, k as int),
        decreases e - k,
    {
        proof {
            crate::scan::lemma_run_end(input@, pos as int, class(Class::Digit));
            assert(class(Class::Digit)(input@[k as int]));
        }
        let d: u64 = (input[k] - DIGIT_0) as u64;
        if n > (u64::MAX - d) / 10 {
            proof {
                lemma_decimal_grows(input@, pos as int, k + 1, e as int);
            }
            return None;
        }
        n = n * 10 + d;
        k += 1;
    }
    Some((n, e))
}

/// Tells whether the keyword `lit` fills `input` from `from` to `to`.
pub(crate) fn keyword(input: &[u8], from: usize, to: usize, lit: &str) -> (r: bool)
    requires
        from <= input@.len(),
    ensures
        r == word_is(input@, from as int, to as int, lit),
{
    match tag(input, from, lit) {
        Some(e) => e == to,
        None => false,
    }
}

/// Tells whether a plain attribute keyword fills `input` from `from` to `to`.
pub(crate) fn is_plain_attribute(input: &[u8], from: usize, to: usize) -> (r: bool)
    requires
        from <= input@.len(),
    ensures
        r == plain_attribute(input@, from as int, to as int),
{
    keyword(input, from, to, "private")
        || keyword(input, from, to, "internal")
        || keyword(input, from, to, "external")
        || keyword(input, from, to, "available_externally")
        || keyword(input, from, to, "linkonce")
        || keyword(input, from, to, "linkonce_odr")
        || keyword(input, from, to, "weak")
        || keyword(input, from, to, "weak_odr")
        || keyword(input, from, to, "common")
        || keyword(input, from, to, "appending")
        || keyword(input, from, to, "extern_weak")
        || keyword(input, from, to, "dso_local")
        || keyword(input, from, to, "dso_preemptable")
        || keyword(input, from, to, "default")
        || keyword(input, from, to, "hidden")
        || keyword(input, from, to, "protected")
        || keyword(input, from, to, "dllimport")
        || keyword(input, from, to, "dllexport")
        || keyword(input, from, to, "thread_local")
        || keyword(input, from, to, "unnamed_addr")
        || keyword(input, from, to, "local_unnamed_addr")
        || keyword(input, from, to, "ccc")
        || keyword(input, from, to, "fastcc")
        || keyword(input, from, to, "coldcc")
        || keyword(input, from, to, "zeroext")
        || keyword(input, from, to, "signext")
        || keyword(input, from, to, "inreg")
        || keyword(input, from, to, "byval")
        || keyword(input, from, to, "sret")
        || keyword(input, from, to, "noalias")
        || keyword(input, from, to, "nocapture")
        || keyword(input, from, to, "nonnull")
        || keyword(input, from, to, "noundef")
        || keyword(input, from, to, "readonly")
        || keyword(input, from, to, "readnone")
        || keyword(input, from, to, "writeonly")
        || keyword(input, from, to, "returned")
        || keyword(input, from, to, "nest")
        || keyword(input, from, to, "immarg")
}

/// Tells whether a sized attribute keyword fills `input` from `from` to `to`.
pub(crate) fn is_sized_attribute(input: &[u8], from: usize, to: usize) -> (r: bool)
    requires
        from <= input@.len(),
    ensures
        r == sized_attribute(input@, from as int, to as int),
{
    keyword(input, from, to, "dereferenceable") || keyword(
        input,
        from,
        to,
        "dereferenceable_or_null",
    ) || keyword(input, from, to, "addrspace")
}

/// Requires a decimal number in parentheses at `pos`.
pub(crate) fn size(input: &[u8], pos: usize) -> (r: Option<usize>)
    requires
        pos <= input@.len(),
    ensures
        is_end(r, size_end(input@, pos as int)),
        r matches Some(e) ==> pos < e <= input@.len(),
{
    let j = match byte(input, pos, OPEN_PAREN) {
        Some(j) => j,
        None => { return None; },
    };
    let k = match digit_run(input, j) {
        Some(k) => k,
        None => { return None; },
    };
    byte(input, k, CLOSE_PAREN)
}

/// Requires a quoted key, alone or with `=` and a quoted value, at `pos`.
pub(crate) fn pair(input: &[u8], pos: usize) -> (r: Option<usize>)
    requires
        pos <= input@.len(),
    ensures
        is_end(r, pair_end(input@, pos as int)),
        r matches Some(e) ==> pos < e <= input@.len(),
{
    let j = match name(input, pos) {
        Some((_, j)) => j,
        None => { return None; },
    };
    match byte(input, j, EQUALS) {
        Some(k) => {
            if k < input.len() && input[k] == QUOTE {
                match name(input, k) {
                    Some((_, e)) => Some(e),
                    None => None,
                }
            } else {
                None
            }
        },
        None => Some(j),
    }
}

/// Requires one attribute at `pos`.
pub(crate) fn attribute(input: &[u8], pos: usize) -> (r: Option<usize>)
    requires
        pos <= input@.len(),
    ensures
        is_end(r, attribute_end(input@, pos as int)),
        r matches Some(e) ==> pos < e <= input@.len(),
{
    if pos < input.len() && input[pos] == QUOTE {
        return pair(input, pos);
    }
    let e = run(input, pos, Class::Word);
    if e <= pos {
        None
    } else if keyword(input, pos, e, "align") {
        match blank_run(input, e) {
            Some(j) => digit_run(input, j),
            None => None,
        }
    } else if is_sized_attribute(input, pos, e) {
        size(input, e)
    } else if is_plain_attribute(input, pos, e) {
        Some(e)
    } else {
        None
    }
}

/// Skips zero or more attributes that are each followed by blanks.
pub(crate) fn skip_attributes(input: &[u8], pos: usize) -> (e: usize)
    requires
        pos <= input@.len(),
    ensures
        e == attributes_end(input@, pos as int),
        pos <= e <= input@.len(),
{
    let mut at: usize = pos;
    loop
        invariant
            pos <= at <= input@.len(),
            attributes_end(input@, pos as int) == attributes_end(input@, at as int),
        decreases input@.len() - at,
    {
        let j = match attribute(input, at) {
            Some(j) => j,
            None => { return at; },
        };
        match blank_run(input, j) {
            Some(k) => { at = k; },
            None => { return at; },
        }
    }
}

/// Skips zero or more attributes that are each preceded by blanks.
pub(crate) fn skip_spaced_attributes(input: &[u8], pos: usize) -> (e: usize)
    requires
        pos <= input@.len(),
    ensures
        e == spaced_attributes_end(input@, pos as int),
        pos <= e <= input@.len(),
{
    let mut at: usize = pos;
    loop
        invariant
            pos <= at <= input@.len(),
            spaced_attributes_end(input@, pos as int) == spaced_attributes_end(input@, at as int),
        decreases input@.len() - at,
    {
        let j = match blank_run(input, at) {
            Some(j) => j,
            None => { return at; },
        };
        match attribute(input, j) {
            Some(k) => { at = k; },
            None => { return at; },
        }
    }
}

} // verus!
