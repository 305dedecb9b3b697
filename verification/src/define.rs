//! Function definitions: an opening line, the lines of the body, and the
//! closing brace.

use crate::ascii::{CARRIAGE_RETURN, CLOSE_BRACE, CLOSE_PAREN, LINE_FEED};
use crate::header::{head, head_at};
use crate::scan::{
    byte, byte_end, is_end, line_rest, rest_from, rest_of_line, Unrecognized,
};
use crate::ty::{advances, list, list_at, signature, Decoration, FnSig, SigModel};
use vstd::prelude::*;
use vstd::slice::slice_subrange;

verus! {

/// A function definition.
#[derive(Debug, PartialEq)]
pub struct Define<'a> {
    /// The name of the function, without its sigil or quotes.
    pub name: &'a [u8],
    /// The signature of the function.
    pub sig: FnSig<'a>,
    /// The lines between the opening line and the closing brace, as written.
    pub body: &'a [u8],
}

/// The mathematical value of a [`Define`].
pub struct DefineModel {
    pub name: Seq<u8>,
    pub sig: SigModel,
    pub body: Seq<u8>,
}

impl<'a> Define<'a> {
    /// The value of this definition.
    pub open spec fn model(&self) -> DefineModel {
        DefineModel { name: self.name@, sig: self.sig.model(), body: self.body@ }
    }
}

impl<'a> Clone for Define<'a> {
    fn clone(&self) -> (res: Self)
        ensures
            res.model() == self.model(),
    {
        Define { name: self.name, sig: self.sig.clone(), body: self.body }
    }
}

impl<'a> View for Define<'a> {
    type V = DefineModel;

    open spec fn view(&self) -> DefineModel {
        self.model()
    }
}

/// A line ending at `i`: a line feed, or a carriage return and a line feed.
pub open spec fn line_break_end(s: Seq<u8>, i: int) -> Option<int> {
    if 0 <= i < s.len() && s[i] == LINE_FEED {
        Some(i + 1)
    } else if 0 <= i && i + 1 < s.len() && s[i] == CARRIAGE_RETURN && s[i + 1] == LINE_FEED {
        Some(i + 2)
    } else {
        None
    }
}

/// The offset of the brace that closes a body whose lines start at `i`: the
/// start of the first line that begins with `}`. Every line before it must
/// end in a line ending.
pub open spec fn body_close(s: Seq<u8>, i: int) -> Option<int>
    decreases s.len() - i,
{
    if byte_end(s, i, CLOSE_BRACE) is Some {
        Some(i)
    } else {
        match line_rest(s, i) {
            Some(e) => match line_break_end(s, e) {
                Some(next) => if advances(s, i, next) {
                    body_close(s, next)
                } else {
                    None
                },
                None => None,
            },
            None => None,
        }
    }
}

/// A function definition at the start of `s`, with the offset after its
/// closing brace.
///
/// The opening is that of the keyword `define`; then come the parameters
/// (types with attributes and possibly a name), `)`, and the rest of the
/// opening line, which is not looked at. The body is every line after that,
/// up to the first line that begins with `}`.
pub open spec fn define_at(s: Seq<u8>) -> Option<(DefineModel, int)> {
    match head_at(s, 0, "define") {
        Some(h) => {
            let (inputs, a) = list_at(s, h.next, Decoration::Named);
            match byte_end(s, a, CLOSE_PAREN) {
                Some(b) => match line_rest(s, b) {
                    Some(c) => match line_break_end(s, c) {
                        Some(start) => match body_close(s, start) {
                            Some(close) => Some(
                                (
                                    DefineModel {
                                        name: h.name,
                                        sig: signature(inputs, h.output),
                                        body: s.subrange(start, close),
                                    },
                                    close + 1,
                                ),
                            ),
                            None => None,
                        },
                        None => None,
                    },
                    None => None,
                },
                None => None,
            }
        },
        None => None,
    }
}

/// An executable outcome agrees with a specified definition: on success the
/// values are equal and `rest` is the input after the definition; on failure
/// the input comes back whole.
pub open spec fn is_definition(
    s: Seq<u8>,
    r: Result<(&[u8], Define<'_>), Unrecognized<'_>>,
    m: Option<(DefineModel, int)>,
) -> bool {
    match r {
        Ok((rest, d)) => m matches Some((v, e)) && d.model() == v && 0 <= e <= s.len() && rest@
            == s.skip(e),
        Err(u) => m is None && u.input@ == s,
    }
}

/// Requires a line ending at `pos`.
pub(crate) fn line_break(input: &[u8], pos: usize) -> (r: Option<usize>)
    requires
        pos <= input@.len(),
    ensures
        is_end(r, line_break_end(input@, pos as int)),
        r matches Some(e) ==> pos < e <= input@.len(),
{
    if pos < input.len() && input[pos] == LINE_FEED {
        Some(pos + 1)
    } else if input.len() - pos >= 2 && input[pos] == CARRIAGE_RETURN && input[pos + 1]
        == LINE_FEED {
        Some(pos + 2)
    } else {
        None
    }
}

/// Finds the brace that closes a body whose lines start at `pos`.
pub(crate) fn closing_brace(input: &[u8], pos: usize) -> (r: Option<usize>)
    requires
        pos <= input@.len(),
    ensures
        is_end(r, body_close(input@, pos as int)),
        r matches Some(e) ==> pos <= e < input@.len(),
{
    let mut at: usize = pos;
    loop
        invariant
            pos <= at <= input@.len(),
            body_close(input@, pos as int) == body_close(input@, at as int),
        decreases input@.len() - at,
    {
        if byte(input, at, CLOSE_BRACE).is_some() {
            return Some(at);
        }
        let e = match rest_of_line(input, at) {
            Some(e) => e,
            None => { return None; },
        };
        match line_break(input, e) {
            Some(next) => { at = next; },
            None => { return None; },
        }
    }
}

/// Reads a function definition at the start of `input`.
pub fn parse<'a>(input: &'a [u8]) -> (r: Result<(&'a [u8], Define<'a>), Unrecognized<'a>>)
    ensures
        is_definition(input@, r, define_at(input@)),
{
    let h = match head(input, 0, "define") {
        Some(h) => h,
        None => { return Err(Unrecognized { input }); },
    };
    let (inputs, a) = list(input, h.next, Decoration::Named);
    let b = match byte(input, a, CLOSE_PAREN) {
        Some(b) => b,
        None => { return Err(Unrecognized { input }); },
    };
    let c = match rest_of_line(input, b) {
        Some(c) => c,
        None => { return Err(Unrecognized { input }); },
    };
    let start = match line_break(input, c) {
        Some(start) => start,
        None => { return Err(Unrecognized { input }); },
    };
    let close = match closing_brace(input, start) {
        Some(close) => close,
        None => { return Err(Unrecognized { input }); },
    };
    let body = slice_subrange(input, start, close);
    let sig = FnSig::new(inputs, h.output);
    assert(close < input.len());
    Ok((rest_from(input, close + 1), Define { name: h.name, sig, body }))
}

} // verus!
