//! The common opening of a function declaration and a function definition:
//! keyword, attributes, result type, symbol and opening parenthesis.

use crate::ascii::{GLOBAL_SIGIL, OPEN_PAREN};
use crate::scan::{blank_run, blanks, byte, byte_end, tag, tag_end};
use crate::token::{attributes_end, skip_attributes, symbol, symbol_at};
use crate::ty::{type_at, type_expr, Type, TypeModel};
use vstd::prelude::*;

verus! {

/// What the opening of a declaration or definition holds.
#[derive(Debug, PartialEq)]
pub struct Head<'a> {
    /// The type of the result; `None` stands for `void`.
    pub output: Option<Type<'a>>,
    /// The name of the function, without its sigil or quotes.
    pub name: &'a [u8],
    /// The offset right after the opening parenthesis.
    pub next: usize,
}

/// The mathematical value of a [`Head`].
pub struct HeadModel {
    pub output: Option<TypeModel>,
    pub name: Seq<u8>,
    pub next: int,
}

impl<'a> Head<'a> {
    /// The value of this opening.
    pub open spec fn model(&self) -> HeadModel {
        HeadModel {
            output: match self.output {
                Some(t) => Some(t.model()),
                None => None,
            },
            name: self.name@,
            next: self.next as int,
        }
    }
}

/// The result type at `i`: a type expression, or else the word `void`.
///
/// The type expression is tried first, so that `void (i8)*` is read as a
/// pointer to a function and not as `void` followed by something else.
pub open spec fn result_at(s: Seq<u8>, i: int) -> Option<(Option<TypeModel>, int)> {
    match type_at(s, i) {
        Some((t, j)) => Some((Some(t), j)),
        None => match tag_end(s, i, "void") {
            Some(j) => Some((None, j)),
            None => None,
        },
    }
}

/// The opening at `i` of a construct introduced by `keyword`: the keyword,
/// blanks, any attributes (each followed by blanks), the result type, blanks,
/// a global symbol, and `(`.
pub open spec fn head_at(s: Seq<u8>, i: int, keyword: &str) -> Option<HeadModel> {
    match tag_end(s, i, keyword) {
        Some(a) => match blanks(s, a) {
            Some(b) => match result_at(s, attributes_end(s, b)) {
                Some((output, c)) => match blanks(s, c) {
                    Some(d) => match symbol_at(s, d, GLOBAL_SIGIL) {
                        Some((name, e)) => match byte_end(s, e, OPEN_PAREN) {
                            Some(next) => Some(HeadModel { output, name, next }),
                            None => None,
                        },
                        None => None,
                    },
                    None => None,
                },
                None => None,
            },
            None => None,
        },
        None => None,
    }
}

/// Reads the result type at `pos`.
pub(crate) fn result<'a>(input: &'a [u8], pos: usize) -> (r: Option<(Option<Type<'a>>, usize)>)
    requires
        pos <= input@.len(),
    ensures
        match r {
            Some((Some(t), e)) => result_at(input@, pos as int) == Some(
                (Some(t.model()), e as int),
            ),
            Some((None, e)) => result_at(input@, pos as int) == Some(
                (None::<TypeModel>, e as int),
            ),
            None => result_at(input@, pos as int) is None,
        },
        r matches Some((_, e)) ==> pos <= e <= input@.len(),
{
    match type_expr(input, pos) {
        Some((t, j)) => Some((Some(t), j)),
        None => match tag(input, pos, "void") {
            Some(j) => Some((None, j)),
            None => None,
        },
    }
}

/// Reads the opening at `pos` of a construct introduced by `keyword`.
pub(crate) fn head<'a>(input: &'a [u8], pos: usize, keyword: &str) -> (r: Option<Head<'a>>)
    requires
        pos <= input@.len(),
    ensures
        match r {
            Some(h) => head_at(input@, pos as int, keyword) == Some(h.model()),
            None => head_at(input@, pos as int, keyword) is None,
        },
        r matches Some(h) ==> pos < h.next <= input@.len(),
{
    let a = match tag(input, pos, keyword) {
        Some(a) => a,
        None => { return None; },
    };
    let b = match blank_run(input, a) {
        Some(b) => b,
        None => { return None; },
    };
    let (output, c) = match result(input, skip_attributes(input, b)) {
        Some(found) => found,
        None => { return None; },
    };
    let d = match blank_run(input, c) {
        Some(d) => d,
        None => { return None; },
    };
    let (name, e) = match symbol(input, d, GLOBAL_SIGIL) {
        Some(found) => found,
        None => { return None; },
    };
    match byte(input, e, OPEN_PAREN) {
        Some(next) => Some(Head { output, name, next }),
        None => None,
    }
}

} // verus!
