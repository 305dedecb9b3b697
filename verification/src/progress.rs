//! Every piece of the grammar that succeeds consumes input and stays inside
//! it. The recursive parts of the grammar test for this before they recurse;
//! the lemmas here show that those tests never turn a success into a failure.

use crate::ascii::{EQUALS, LOCAL_SIGIL, OPEN_BRACE, OPEN_PAREN, QUOTE, STAR};
use crate::define::{body_close, line_break_end};
use crate::scan::{
    blank, blanks, byte_end, class, lemma_run_end, line_rest, line_text, run_end, tag_end, Class,
};
use crate::token::{
    attribute_end, attributes_end, digits, name_at, number_at, spaced_attributes_end,
    symbol_at,
};
use crate::ty::{
    advances, base_at, decoration_end, element_at, fields_at, lemma_float_and_double, list_at,
    list_tail, params_at, separator_end, suffixed, type_at, Decoration, TypeModel,
};
use vstd::prelude::*;

verus! {

/// `j` is a valid offset at or after `i`.
pub open spec fn within(s: Seq<u8>, i: int, j: int) -> bool {
    0 <= i <= j <= s.len()
}

/// The offset of an optional result advances from `i`.
pub open spec fn end_advances(s: Seq<u8>, i: int, r: Option<int>) -> bool {
    match r {
        Some(e) => advances(s, i, e),
        None => true,
    }
}

/// The offset of an optional result with a value advances from `i`.
pub open spec fn value_advances<V>(s: Seq<u8>, i: int, r: Option<(V, int)>) -> bool {
    match r {
        Some((_, e)) => advances(s, i, e),
        None => true,
    }
}

/// A run ends inside the input, at or after its start.
pub proof fn lemma_run_within(s: Seq<u8>, i: int, p: spec_fn(u8) -> bool)
    requires
        0 <= i <= s.len(),
    ensures
        within(s, i, run_end(s, i, p)),
{
    lemma_run_end(s, i, p);
}

/// Blanks, digits, a line's text and a literal end inside the input.
pub proof fn lemma_scan_within(s: Seq<u8>, i: int, lit: &str)
    requires
        0 <= i <= s.len(),
    ensures
        end_advances(s, i, blanks(s, i)),
        end_advances(s, i, digits(s, i)),
        line_rest(s, i) matches Some(e) ==> within(s, i, e),
        tag_end(s, i, lit) matches Some(e) ==> within(s, i, e),
{
    lemma_run_within(s, i, blank());
    lemma_run_within(s, i, class(Class::Digit));
    lemma_run_within(s, i, line_text());
}

/// A name, a symbol and a number consume input.
pub proof fn lemma_token_advances(s: Seq<u8>, i: int, sigil: u8)
    requires
        0 <= i <= s.len(),
    ensures
        value_advances(s, i, name_at(s, i)),
        value_advances(s, i, symbol_at(s, i, sigil)),
        value_advances(s, i, number_at(s, i)),
{
    lemma_run_within(s, i, class(Class::Name));
    lemma_run_within(s, i, class(Class::Digit));
    if i < s.len() {
        lemma_run_within(s, i + 1, class(Class::Quoted));
        lemma_run_within(s, i + 1, class(Class::Name));
        if i + 1 < s.len() {
            lemma_run_within(s, i + 2, class(Class::Quoted));
        }
    }
}

/// An attribute consumes input.
pub proof fn lemma_attribute_advances(s: Seq<u8>, i: int)
    requires
        0 <= i <= s.len(),
    ensures
        end_advances(s, i, attribute_end(s, i)),
{
    if i < s.len() && s[i] == QUOTE {
        lemma_token_advances(s, i, 0);
        match name_at(s, i) {
            Some((_, j)) => match byte_end(s, j, EQUALS) {
                Some(k) => {
                    lemma_token_advances(s, k, 0);
                },
                None => {},
            },
            None => {},
        }
    } else {
        lemma_run_within(s, i, class(Class::Word));
        let e = run_end(s, i, class(Class::Word));
        lemma_scan_within(s, e, "");
        match blanks(s, e) {
            Some(j) => {
                lemma_scan_within(s, j, "");
            },
            None => {},
        }
        match byte_end(s, e, OPEN_PAREN) {
            Some(j) => {
                lemma_scan_within(s, j, "");
            },
            None => {},
        }
    }
}

/// Attributes that are each followed by blanks end inside the input, and
/// the condition under which the sequence goes on always holds.
pub proof fn lemma_attributes_within(s: Seq<u8>, i: int)
    requires
        0 <= i <= s.len(),
    ensures
        within(s, i, attributes_end(s, i)),
        match attribute_end(s, i) {
            Some(j) => end_advances(s, i, blanks(s, j)),
            None => true,
        },
    decreases s.len() - i,
{
    lemma_attribute_advances(s, i);
    match attribute_end(s, i) {
        Some(j) => {
            lemma_scan_within(s, j, "");
            match blanks(s, j) {
                Some(k) => {
                    lemma_attributes_within(s, k);
                },
                None => {},
            }
        },
        None => {},
    }
}

/// Attributes that are each preceded by blanks end inside the input, and
/// the condition under which the sequence goes on always holds.
pub proof fn lemma_spaced_attributes_within(s: Seq<u8>, i: int)
    requires
        0 <= i <= s.len(),
    ensures
        within(s, i, spaced_attributes_end(s, i)),
        match blanks(s, i) {
            Some(j) => end_advances(s, i, attribute_end(s, j)),
            None => true,
        },
    decreases s.len() - i,
{
    lemma_scan_within(s, i, "");
    match blanks(s, i) {
        Some(j) => {
            lemma_attribute_advances(s, j);
            match attribute_end(s, j) {
                Some(k) => {
                    lemma_spaced_attributes_within(s, k);
                },
                None => {},
            }
        },
        None => {},
    }
}

/// A decoration ends inside the input.
pub proof fn lemma_decoration_within(s: Seq<u8>, i: int, d: Decoration)
    requires
        0 <= i <= s.len(),
    ensures
        within(s, i, decoration_end(s, i, d)),
{
    lemma_spaced_attributes_within(s, i);
    let j = spaced_attributes_end(s, i);
    lemma_scan_within(s, j, "");
    match blanks(s, j) {
        Some(k) => {
            lemma_token_advances(s, k, LOCAL_SIGIL);
        },
        None => {},
    }
}

/// The suffixes of a type end inside the input.
pub proof fn lemma_suffixed_within(s: Seq<u8>, i: int, t: TypeModel)
    requires
        0 <= i <= s.len(),
    ensures
        within(s, i, suffixed(s, i, t).1),
    decreases s.len() - i,
{
    if byte_end(s, i, STAR) is Some {
        lemma_suffixed_within(s, i + 1, TypeModel::Pointer(Box::new(t)));
    } else {
        match params_at(s, i) {
            Some((inputs, k)) => if advances(s, i, k) {
                lemma_suffixed_within(
                    s,
                    k,
                    TypeModel::Fn(crate::ty::SigModel { inputs, output: Some(Box::new(t)) }),
                );
            },
            None => {},
        }
    }
}

/// A type consumes input.
pub proof fn lemma_type_advances(s: Seq<u8>, i: int)
    requires
        0 <= i <= s.len(),
    ensures
        value_advances(s, i, type_at(s, i)),
{
    match tag_end(s, i, "void") {
        Some(j) => match params_at(s, j) {
            Some((inputs, k)) => if advances(s, i, k) {
                lemma_suffixed_within(
                    s,
                    k,
                    TypeModel::Fn(crate::ty::SigModel { inputs, output: None }),
                );
            },
            None => {},
        },
        None => match base_at(s, i) {
            Some((t, j)) => if advances(s, i, j) {
                lemma_suffixed_within(s, j, t);
            },
            None => {},
        },
    }
}

/// An element of a list consumes input.
pub proof fn lemma_element_advances(s: Seq<u8>, i: int, d: Decoration)
    requires
        0 <= i <= s.len(),
    ensures
        value_advances(s, i, element_at(s, i, d)),
{
    lemma_type_advances(s, i);
    match type_at(s, i) {
        Some((_, j)) => {
            lemma_decoration_within(s, j, d);
        },
        None => {},
    }
}

/// The elements after an element end inside the input.
pub proof fn lemma_list_tail_within(s: Seq<u8>, i: int, d: Decoration)
    requires
        0 <= i <= s.len(),
    ensures
        within(s, i, list_tail(s, i, d).1),
    decreases s.len() - i,
{
    match separator_end(s, i) {
        Some(j) => if advances(s, i, j) {
            match element_at(s, j, d) {
                Some((_, k)) => if advances(s, j, k) {
                    lemma_list_tail_within(s, k, d);
                },
                None => {},
            }
        },
        None => {},
    }
}

/// A list ends inside the input.
pub proof fn lemma_list_within(s: Seq<u8>, i: int, d: Decoration)
    requires
        0 <= i <= s.len(),
    ensures
        within(s, i, list_at(s, i, d).1),
{
    match element_at(s, i, d) {
        Some((_, j)) => if advances(s, i, j) {
            lemma_list_tail_within(s, j, d);
        },
        None => {},
    }
}

/// The conditions `advances(..)` of the grammar hold wherever they are
/// reached: a separator, a parameter list, the fields of a struct, a base
/// type and an element each consume input when they succeed, and so do the
/// openings of an array and of a struct, after which the grammar recurses.
pub proof fn lemma_conditions_hold(s: Seq<u8>, i: int, d: Decoration)
    requires
        0 <= i <= s.len(),
    ensures
        end_advances(s, i, separator_end(s, i)),
        value_advances(s, i, params_at(s, i)),
        value_advances(s, i, fields_at(s, i)),
        value_advances(s, i, base_at(s, i)),
        value_advances(s, i, element_at(s, i, d)),
        match tag_end(s, i, "void") {
            Some(j) => value_advances(s, i, params_at(s, j)),
            None => true,
        },
        match number_at(s, i + 1) {
            Some((_, j)) => end_advances(s, i, tag_end(s, j, " x ")),
            None => true,
        },
        byte_end(s, i, OPEN_BRACE) is Some ==> advances(s, i, run_end(s, i + 1, blank())),
{
    lemma_element_advances(s, i, d);
    lemma_scan_within(s, i, "void");
    if i < s.len() {
        lemma_scan_within(s, i + 1, "");
        lemma_token_advances(s, i + 1, 0);
        lemma_token_advances(s, i, LOCAL_SIGIL);
        lemma_run_within(s, i + 1, blank());
        lemma_fields_advance(s, i);
        lemma_fields_advance(s, i + 1);
        match number_at(s, i + 1) {
            Some((_, j)) => {
                lemma_scan_within(s, j, " x ");
                match tag_end(s, j, " x ") {
                    Some(k) => {
                        lemma_type_advances(s, k);
                    },
                    None => {},
                }
            },
            None => {},
        }
        lemma_float_and_double();
    }
    lemma_params_advance(s, i);
    match tag_end(s, i, "void") {
        Some(j) => {
            lemma_params_advance(s, j);
        },
        None => {},
    }
}

/// A parameter list consumes input.
pub proof fn lemma_params_advance(s: Seq<u8>, i: int)
    requires
        0 <= i <= s.len(),
    ensures
        value_advances(s, i, params_at(s, i)),
{
    if i + 2 <= s.len() {
        lemma_list_within(s, i + 2, Decoration::Bare);
    }
}

/// The fields of a struct consume input.
pub proof fn lemma_fields_advance(s: Seq<u8>, i: int)
    requires
        0 <= i <= s.len(),
    ensures
        value_advances(s, i, fields_at(s, i)),
{
    if i < s.len() {
        lemma_run_within(s, i + 1, blank());
        let k = run_end(s, i + 1, blank());
        lemma_list_within(s, k, Decoration::Bare);
        lemma_run_within(s, list_at(s, k, Decoration::Bare).1, blank());
    }
}

/// A line of a body and its line ending consume input, so the search for
/// the closing brace goes on wherever a line ends in a line ending; and the
/// closing brace stands inside the input.
pub proof fn lemma_body_within(s: Seq<u8>, i: int)
    requires
        0 <= i <= s.len(),
    ensures
        match line_rest(s, i) {
            Some(e) => end_advances(s, i, line_break_end(s, e)),
            None => true,
        },
        match body_close(s, i) {
            Some(e) => i <= e < s.len(),
            None => true,
        },
    decreases s.len() - i,
{
    lemma_scan_within(s, i, "");
    match line_rest(s, i) {
        Some(e) => match line_break_end(s, e) {
            Some(next) => {
                lemma_body_within(s, next);
            },
            None => {},
        },
        None => {},
    }
}

} // verus!
