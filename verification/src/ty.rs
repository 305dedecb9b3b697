//! Types and function signatures, and the grammar of a type expression.

use crate::ascii::{
    CLOSE_BRACE, CLOSE_BRACKET, CLOSE_PAREN, COMMA, GREATER, LESS, LOCAL_SIGIL, LOWER_I, OPEN_BRACE,
    OPEN_BRACKET, OPEN_PAREN, SPACE, STAR,
};
use crate::scan::{
    blank, blank_run, blanks, byte, byte_end, lemma_ascii_literal, rest_from, run_end,
    skip_blanks, tag, tag_end, Unrecognized,
};
use crate::token::{
    number, number_at, skip_spaced_attributes, spaced_attributes_end, symbol, symbol_at,
};
use vstd::prelude::*;
use vstd::string::StringSliceAdditionalSpecFns;

verus! {

/// A type expression.
#[derive(Debug, PartialEq)]
pub enum Type<'a> {
    /// `i8`: an integer of the given width in bits.
    Integer(u64),
    /// `float`
    Float,
    /// `double`
    Double,
    /// `%"core::fmt::Void"`: a type known by its name.
    Named(&'a [u8]),
    /// `[4 x i8]`
    Array(u64, Box<Type<'a>>),
    /// `{ i8, i16 }`
    Struct(Vec<Type<'a>>),
    /// `<{ i8, i16 }>`
    PackedStruct(Vec<Type<'a>>),
    /// `i32 (i8*)`
    Fn(FnSig<'a>),
    /// `i8*`
    Pointer(Box<Type<'a>>),
}

/// The signature of a function.
#[derive(Debug, PartialEq)]
pub struct FnSig<'a> {
    /// The types of the parameters, in the order in which they are written.
    pub inputs: Vec<Type<'a>>,
    /// The type of the result; `None` stands for `void`.
    pub output: Option<Box<Type<'a>>>,
}

/// The mathematical value of a [`Type`].
pub enum TypeModel {
    Integer(u64),
    Float,
    Double,
    Named(Seq<u8>),
    Array(u64, Box<TypeModel>),
    Struct(Seq<TypeModel>),
    PackedStruct(Seq<TypeModel>),
    Fn(SigModel),
    Pointer(Box<TypeModel>),
}

/// The mathematical value of a [`FnSig`].
pub struct SigModel {
    pub inputs: Seq<TypeModel>,
    pub output: Option<Box<TypeModel>>,
}

/// The values of a sequence of types, in order.
pub open spec fn models(v: Seq<Type<'_>>) -> Seq<TypeModel>
    decreases v,
{
    Seq::new(
        v.len(),
        |k: int|
            if 0 <= k < v.len() {
                v[k].model()
            } else {
                arbitrary()
            },
    )
}

impl<'a> Type<'a> {
    /// The value of this type.
    pub open spec fn model(&self) -> TypeModel
        decreases self,
    {
        match self {
            Type::Integer(n) => TypeModel::Integer(*n),
            Type::Float => TypeModel::Float,
            Type::Double => TypeModel::Double,
            Type::Named(name) => TypeModel::Named(name@),
            Type::Array(n, t) => TypeModel::Array(*n, Box::new(t.model())),
            Type::Struct(v) => TypeModel::Struct(models(v@)),
            Type::PackedStruct(v) => TypeModel::PackedStruct(models(v@)),
            Type::Fn(sig) => TypeModel::Fn(sig.model()),
            Type::Pointer(t) => TypeModel::Pointer(Box::new(t.model())),
        }
    }
}

impl<'a> FnSig<'a> {
    /// The value of this signature.
    pub open spec fn model(&self) -> SigModel
        decreases self,
    {
        SigModel {
            inputs: models(self.inputs@),
            output: match self.output {
                Some(t) => Some(Box::new(t.model())),
                None => None,
            },
        }
    }
}

/// The signature with the given parameter types and result type.
pub open spec fn signature(inputs: Seq<TypeModel>, output: Option<TypeModel>) -> SigModel {
    SigModel {
        inputs,
        output: match output {
            Some(t) => Some(Box::new(t)),
            None => None,
        },
    }
}

/// The value of an optional type.
pub open spec fn optional_model(t: Option<Type<'_>>) -> Option<TypeModel> {
    match t {
        Some(t) => Some(t.model()),
        None => None,
    }
}

impl<'a> FnSig<'a> {
    /// Makes a signature of parameter types and a result type.
    pub fn new(inputs: Vec<Type<'a>>, output: Option<Type<'a>>) -> (sig: Self)
        ensures
            sig.model() == signature(models(inputs@), optional_model(output)),
    {
        match output {
            Some(t) => FnSig { inputs, output: Some(Box::new(t)) },
            None => FnSig { inputs, output: None },
        }
    }
}

/// Copies a sequence of types.
pub fn clone_types<'a>(v: &Vec<Type<'a>>) -> (res: Vec<Type<'a>>)
    ensures
        models(res@) == models(v@),
    decreases v,
{
    let mut out: Vec<Type<'a>> = Vec::new();
    let mut k: usize = 0;
    while k < v.len()
        invariant
            k <= v@.len(),
            out@.len() == k,
            forall|j: int| 0 <= j < k ==> out@[j].model() == v@[j].model(),
        decreases v@.len() - k,
    {
        let t = (&v[k]).clone();
        out.push(t);
        k += 1;
    }
    assert(models(out@) =~= models(v@));
    out
}

impl<'a> Clone for Type<'a> {
    fn clone(&self) -> (res: Self)
        ensures
            res.model() == self.model(),
        decreases self,
    {
        match self {
            Type::Integer(n) => Type::Integer(*n),
            Type::Float => Type::Float,
            Type::Double => Type::Double,
            Type::Named(name) => Type::Named(*name),
            Type::Array(n, t) => Type::Array(*n, Box::new((&**t).clone())),
            Type::Struct(v) => Type::Struct(clone_types(v)),
            Type::PackedStruct(v) => Type::PackedStruct(clone_types(v)),
            Type::Fn(sig) => Type::Fn(sig.clone()),
            Type::Pointer(t) => Type::Pointer(Box::new((&**t).clone())),
        }
    }
}

impl<'a> Clone for FnSig<'a> {
    fn clone(&self) -> (res: Self)
        ensures
            res.model() == self.model(),
        decreases self,
    {
        FnSig {
            inputs: clone_types(&self.inputs),
            output: (match &self.output {
                Some(t) => Some(Box::new((&**t).clone())),
                None => None,
            }),
        }
    }
}

impl<'a> View for Type<'a> {
    type V = TypeModel;

    open spec fn view(&self) -> TypeModel {
        self.model()
    }
}

impl<'a> View for FnSig<'a> {
    type V = SigModel;

    open spec fn view(&self) -> SigModel {
        self.model()
    }
}

/// What may follow the type of an element of a comma-separated list.
#[derive(Clone, Copy, Debug, PartialEq, Eq)]
pub enum Decoration {
    /// Nothing: the fields of a struct, the parameters of a function type.
    Bare,
    /// Attributes, each after blanks: the parameters of a declaration.
    Attributed,
    /// Attributes, each after blanks, then possibly blanks and a local
    /// symbol: the parameters of a definition.
    Named,
}

/// `j` is a valid offset after `i`.
pub open spec fn advances(s: Seq<u8>, i: int, j: int) -> bool {
    0 <= i < j <= s.len()
}

/// Where the decoration `d` of a list element ends, when it starts at `i`.
/// A decoration never fails: what cannot be read is left in place.
pub open spec fn decoration_end(s: Seq<u8>, i: int, d: Decoration) -> int {
    match d {
        Decoration::Bare => i,
        Decoration::Attributed => spaced_attributes_end(s, i),
        Decoration::Named => {
            let j = spaced_attributes_end(s, i);
            match blanks(s, j) {
                Some(k) => match symbol_at(s, k, LOCAL_SIGIL) {
                    Some((_, e)) => e,
                    None => j,
                },
                None => j,
            }
        },
    }
}

/// The separator of list elements at `i`: a comma, then one or more blanks.
pub open spec fn separator_end(s: Seq<u8>, i: int) -> Option<int> {
    match byte_end(s, i, COMMA) {
        Some(j) => blanks(s, j),
        None => None,
    }
}

/// A type expression at `i`, with the offset after it.
///
/// A type is a head followed by any number of suffixes. The head is `void`
/// with a parameter list, or a base type. A suffix is `*`, which makes a
/// pointer to what stands before it, or a parameter list, which makes a
/// function type that returns what stands before it. The word `void` alone
/// is not a type.
///
/// The conditions `advances(..)` in this grammar make the recursion visibly
/// well-founded. They hold whenever they are reached, because every piece of
/// the grammar consumes input: see [`crate::progress::lemma_conditions_hold`].
pub open spec fn type_at(s: Seq<u8>, i: int) -> Option<(TypeModel, int)>
    decreases s.len() - i, 3int,
{
    match tag_end(s, i, "void") {
        Some(j) => match params_at(s, j) {
            Some((inputs, k)) => if advances(s, i, k) {
                Some(suffixed(s, k, TypeModel::Fn(SigModel { inputs, output: None })))
            } else {
                None
            },
            None => None,
        },
        None => match base_at(s, i) {
            Some((t, j)) => if advances(s, i, j) {
                Some(suffixed(s, j, t))
            } else {
                None
            },
            None => None,
        },
    }
}

/// The type `t`, which ends at `i`, with all the suffixes that follow it.
pub open spec fn suffixed(s: Seq<u8>, i: int, t: TypeModel) -> (TypeModel, int)
    decreases s.len() - i, 2int,
{
    if byte_end(s, i, STAR) is Some {
        suffixed(s, i + 1, TypeModel::Pointer(Box::new(t)))
    } else {
        match params_at(s, i) {
            Some((inputs, k)) => if advances(s, i, k) {
                suffixed(s, k, TypeModel::Fn(SigModel { inputs, output: Some(Box::new(t)) }))
            } else {
                (t, i)
            },
            None => (t, i),
        }
    }
}

/// The parameter list of a function type at `i`: a space, `(`, bare types
/// separated by commas, `)`.
pub open spec fn params_at(s: Seq<u8>, i: int) -> Option<(Seq<TypeModel>, int)>
    decreases s.len() - i, 1int,
{
    if 0 <= i && i + 2 <= s.len() && s[i] == SPACE && s[i + 1] == OPEN_PAREN {
        let (inputs, j) = list_at(s, i + 2, Decoration::Bare);
        match byte_end(s, j, CLOSE_PAREN) {
            Some(e) => Some((inputs, e)),
            None => None,
        }
    } else {
        None
    }
}

/// A base type at `i`: an integer, `float`, `double`, a named type, an
/// array, a struct or a packed struct.
pub open spec fn base_at(s: Seq<u8>, i: int) -> Option<(TypeModel, int)>
    decreases s.len() - i, 2int,
{
    if !(0 <= i < s.len()) {
        None
    } else if s[i] == LOWER_I {
        match number_at(s, i + 1) {
            Some((n, e)) => Some((TypeModel::Integer(n), e)),
            None => None,
        }
    } else if s[i] == LOCAL_SIGIL {
        match symbol_at(s, i, LOCAL_SIGIL) {
            Some((name, e)) => Some((TypeModel::Named(name), e)),
            None => None,
        }
    } else if s[i] == OPEN_BRACKET {
        match number_at(s, i + 1) {
            Some((n, j)) => match tag_end(s, j, " x ") {
                Some(k) => if advances(s, i, k) {
                    match type_at(s, k) {
                        Some((t, m)) => match byte_end(s, m, CLOSE_BRACKET) {
                            Some(e) => Some((TypeModel::Array(n, Box::new(t)), e)),
                            None => None,
                        },
                        None => None,
                    }
                } else {
                    None
                },
                None => None,
            },
            None => None,
        }
    } else if s[i] == OPEN_BRACE {
        match fields_at(s, i) {
            Some((fields, e)) => Some((TypeModel::Struct(fields), e)),
            None => None,
        }
    } else if s[i] == LESS {
        match fields_at(s, i + 1) {
            Some((fields, j)) => match byte_end(s, j, GREATER) {
                Some(e) => Some((TypeModel::PackedStruct(fields), e)),
                None => None,
            },
            None => None,
        }
    } else if tag_end(s, i, "float") is Some {
        Some((TypeModel::Float, tag_end(s, i, "float")->0))
    } else if tag_end(s, i, "double") is Some {
        Some((TypeModel::Double, tag_end(s, i, "double")->0))
    } else {
        None
    }
}

/// The fields of a struct at `i`: `{`, optional blanks, bare types separated
/// by commas, optional blanks, `}`.
pub open spec fn fields_at(s: Seq<u8>, i: int) -> Option<(Seq<TypeModel>, int)>
    decreases s.len() - i, 1int,
{
    match byte_end(s, i, OPEN_BRACE) {
        Some(j) => {
            let k = run_end(s, j, blank());
            if advances(s, i, k) {
                let (fields, m) = list_at(s, k, Decoration::Bare);
                match byte_end(s, run_end(s, m, blank()), CLOSE_BRACE) {
                    Some(e) => Some((fields, e)),
                    None => None,
                }
            } else {
                None
            }
        },
        None => None,
    }
}

/// One element of a list at `i`: a type and its decoration.
pub open spec fn element_at(s: Seq<u8>, i: int, d: Decoration) -> Option<(TypeModel, int)>
    decreases s.len() - i, 4int,
{
    match type_at(s, i) {
        Some((t, j)) => Some((t, decoration_end(s, j, d))),
        None => None,
    }
}

/// The list of elements at `i`, separated by commas, with the offset after
/// the last element. A list never fails: it is empty where no element
/// stands, and it ends before a separator that no element follows.
pub open spec fn list_at(s: Seq<u8>, i: int, d: Decoration) -> (Seq<TypeModel>, int)
    decreases s.len() - i, 5int,
{
    match element_at(s, i, d) {
        Some((t, j)) => if advances(s, i, j) {
            let (more, e) = list_tail(s, j, d);
            (seq![t] + more, e)
        } else {
            (Seq::empty(), i)
        },
        None => (Seq::empty(), i),
    }
}

/// The elements that follow an element that ends at `i`.
pub open spec fn list_tail(s: Seq<u8>, i: int, d: Decoration) -> (Seq<TypeModel>, int)
    decreases s.len() - i, 5int,
{
    match separator_end(s, i) {
        Some(j) => if advances(s, i, j) {
            match element_at(s, j, d) {
                Some((t, k)) => if advances(s, j, k) {
                    let (more, e) = list_tail(s, k, d);
                    (seq![t] + more, e)
                } else {
                    (Seq::empty(), i)
                },
                None => (Seq::empty(), i),
            }
        } else {
            (Seq::empty(), i)
        },
        None => (Seq::empty(), i),
    }
}

/// An executable type and offset agree with the specified ones.
pub open spec fn is_type(r: Option<(Type<'_>, usize)>, m: Option<(TypeModel, int)>) -> bool {
    match r {
        Some((t, e)) => m == Some((t.model(), e as int)),
        None => m is None,
    }
}

/// Executable types and offset agree with the specified ones.
pub open spec fn is_types(
    r: Option<(Vec<Type<'_>>, usize)>,
    m: Option<(Seq<TypeModel>, int)>,
) -> bool {
    match r {
        Some((v, e)) => m == Some((models(v@), e as int)),
        None => m is None,
    }
}

/// Requires a comma and one or more blanks at `pos`.
pub(crate) fn separator(input: &[u8], pos: usize) -> (r: Option<usize>)
    requires
        pos <= input@.len(),
    ensures
        crate::scan::is_end(r, separator_end(input@, pos as int)),
        r matches Some(e) ==> pos < e <= input@.len(),
{
    match byte(input, pos, COMMA) {
        Some(j) => blank_run(input, j),
        None => None,
    }
}

/// Skips the decoration `d` of a list element at `pos`.
pub(crate) fn decoration(input: &[u8], pos: usize, d: Decoration) -> (e: usize)
    requires
        pos <= input@.len(),
    ensures
        e == decoration_end(input@, pos as int, d),
        pos <= e <= input@.len(),
{
    match d {
        Decoration::Bare => pos,
        Decoration::Attributed => skip_spaced_attributes(input, pos),
        Decoration::Named => {
            let j = skip_spaced_attributes(input, pos);
            match blank_run(input, j) {
                Some(k) => match symbol(input, k, LOCAL_SIGIL) {
                    Some((_, e)) => e,
                    None => j,
                },
                None => j,
            }
        },
    }
}

/// Reads a type expression at `pos`.
pub(crate) fn type_expr<'a>(input: &'a [u8], pos: usize) -> (r: Option<(Type<'a>, usize)>)
    requires
        pos <= input@.len(),
    ensures
        is_type(r, type_at(input@, pos as int)),
        r matches Some((_, e)) ==> pos < e <= input@.len(),
    decreases input@.len() - pos, 3int,
{
    let (head, start) = match tag(input, pos, "void") {
        Some(j) => match params(input, j) {
            Some((inputs, k)) => {
                let sig = FnSig { inputs, output: None };
                assert(sig.model() == SigModel { inputs: models(sig.inputs@), output: None });
                (Type::Fn(sig), k)
            },
            None => { return None; },
        },
        None => match base(input, pos) {
            Some(found) => found,
            None => { return None; },
        },
    };
    let mut t = head;
    let mut at: usize = start;
    loop
        invariant
            pos < at <= input@.len(),
            type_at(input@, pos as int) == Some(suffixed(input@, at as int, t.model())),
        decreases input@.len() - at,
    {
        match byte(input, at, STAR) {
            Some(j) => {
                t = Type::Pointer(Box::new(t));
                at = j;
            },
            None => match params(input, at) {
                Some((inputs, k)) => {
                    let ghost before = t.model();
                    let sig = FnSig { inputs, output: Some(Box::new(t)) };
                    assert(sig.model() == SigModel {
                        inputs: models(sig.inputs@),
                        output: Some(Box::new(before)),
                    });
                    t = Type::Fn(sig);
                    at = k;
                },
                None => { return Some((t, at)); },
            },
        }
    }
}

/// Reads the parameter list of a function type at `pos`.
pub(crate) fn params<'a>(input: &'a [u8], pos: usize) -> (r: Option<(Vec<Type<'a>>, usize)>)
    requires
        pos <= input@.len(),
    ensures
        is_types(r, params_at(input@, pos as int)),
        r matches Some((_, e)) ==> pos < e <= input@.len(),
    decreases input@.len() - pos, 1int,
{
    if input.len() - pos >= 2 && input[pos] == SPACE && input[pos + 1] == OPEN_PAREN {
        let (inputs, j) = list(input, pos + 2, Decoration::Bare);
        match byte(input, j, CLOSE_PAREN) {
            Some(e) => Some((inputs, e)),
            None => None,
        }
    } else {
        None
    }
}

/// The words `float` and `double` have five and six bytes.
pub proof fn lemma_float_and_double()
    ensures
        "float".spec_bytes().len() == 5,
        "double".spec_bytes().len() == 6,
{
    reveal_strlit("float");
    reveal_strlit("double");
    lemma_ascii_literal("float");
    lemma_ascii_literal("double");
}

/// Reads a base type at `pos`.
pub(crate) fn base<'a>(input: &'a [u8], pos: usize) -> (r: Option<(Type<'a>, usize)>)
    requires
        pos <= input@.len(),
    ensures
        is_type(r, base_at(input@, pos as int)),
        r matches Some((_, e)) ==> pos < e <= input@.len(),
    decreases input@.len() - pos, 2int,
{
    if pos >= input.len() {
        return None;
    }
    let first: u8 = input[pos];
    if first == LOWER_I {
        match number(input, pos + 1) {
            Some((n, e)) => Some((Type::Integer(n), e)),
            None => None,
        }
    } else if first == LOCAL_SIGIL {
        match symbol(input, pos, LOCAL_SIGIL) {
            Some((name, e)) => Some((Type::Named(name), e)),
            None => None,
        }
    } else if first == OPEN_BRACKET {
        let (n, j) = match number(input, pos + 1) {
            Some(found) => found,
            None => { return None; },
        };
        let k = match tag(input, j, " x ") {
            Some(k) => k,
            None => { return None; },
        };
        let (t, m) = match type_expr(input, k) {
            Some(found) => found,
            None => { return None; },
        };
        match byte(input, m, CLOSE_BRACKET) {
            Some(e) => Some((Type::Array(n, Box::new(t)), e)),
            None => None,
        }
    } else if first == OPEN_BRACE {
        match fields(input, pos) {
            Some((v, e)) => Some((Type::Struct(v), e)),
            None => None,
        }
    } else if first == LESS {
        let (v, j) = match fields(input, pos + 1) {
            Some(found) => found,
            None => { return None; },
        };
        match byte(input, j, GREATER) {
            Some(e) => Some((Type::PackedStruct(v), e)),
            None => None,
        }
    } else {
        proof {
            lemma_float_and_double();
        }
        match tag(input, pos, "float") {
            Some(e) => Some((Type::Float, e)),
            None => match tag(input, pos, "double") {
                Some(e) => Some((Type::Double, e)),
                None => None,
            },
        }
    }
}

/// Reads the fields of a struct at `pos`.
pub(crate) fn fields<'a>(input: &'a [u8], pos: usize) -> (r: Option<(Vec<Type<'a>>, usize)>)
    requires
        pos <= input@.len(),
    ensures
        is_types(r, fields_at(input@, pos as int)),
        r matches Some((_, e)) ==> pos < e <= input@.len(),
    decreases input@.len() - pos, 1int,
{
    let j = match byte(input, pos, OPEN_BRACE) {
        Some(j) => j,
        None => { return None; },
    };
    let k = skip_blanks(input, j);
    let (v, m) = list(input, k, Decoration::Bare);
    let n = skip_blanks(input, m);
    match byte(input, n, CLOSE_BRACE) {
        Some(e) => Some((v, e)),
        None => None,
    }
}

/// Reads one element of a list at `pos`.
pub(crate) fn element<'a>(input: &'a [u8], pos: usize, d: Decoration) -> (r: Option<
    (Type<'a>, usize),
>)
    requires
        pos <= input@.len(),
    ensures
        is_type(r, element_at(input@, pos as int, d)),
        r matches Some((_, e)) ==> pos < e <= input@.len(),
    decreases input@.len() - pos, 4int,
{
    match type_expr(input, pos) {
        Some((t, j)) => Some((t, decoration(input, j, d))),
        None => None,
    }
}

/// Appending a type to a sequence appends its value to the values.
pub proof fn lemma_models_push(v: Seq<Type<'_>>, t: Type<'_>)
    ensures
        models(v.push(t)) == models(v).push(t.model()),
{
    assert(models(v.push(t)) =~= models(v).push(t.model()));
}

/// Reads a comma-separated list of elements at `pos`.
pub(crate) fn list<'a>(input: &'a [u8], pos: usize, d: Decoration) -> (r: (Vec<Type<'a>>, usize))
    requires
        pos <= input@.len(),
    ensures
        list_at(input@, pos as int, d) == (models(r.0@), r.1 as int),
        pos <= r.1 <= input@.len(),
    decreases input@.len() - pos, 5int,
{
    let mut out: Vec<Type<'a>> = Vec::new();
    let (first, start) = match element(input, pos, d) {
        Some(found) => found,
        None => {
            assert(models(out@) =~= Seq::empty());
            return (out, pos);
        },
    };
    out.push(first);
    let mut at: usize = start;
    assert(models(out@) =~= seq![first.model()]);
    loop
        invariant
            pos < at <= input@.len(),
            list_at(input@, pos as int, d) == (
                models(out@) + list_tail(input@, at as int, d).0,
                list_tail(input@, at as int, d).1,
            ),
        decreases input@.len() - at,
    {
        let j = match separator(input, at) {
            Some(j) => j,
            None => {
                assert(models(out@) + Seq::<TypeModel>::empty() =~= models(out@));
                return (out, at);
            },
        };
        match element(input, j, d) {
            Some((t, k)) => {
                proof {
                    lemma_models_push(out@, t);
                    let more = list_tail(input@, k as int, d).0;
                    assert(models(out@) + (seq![t.model()] + more) =~= models(out@).push(
                        t.model(),
                    ) + more);
                }
                out.push(t);
                at = k;
            },
            None => {
                assert(models(out@) + Seq::<TypeModel>::empty() =~= models(out@));
                return (out, at);
            },
        }
    }
}

/// Reads a type expression at the start of `input`. On success the result is
/// the input after the type, and the type; on failure, the input as it was.
pub fn parse<'a>(input: &'a [u8]) -> (r: Result<(&'a [u8], Type<'a>), Unrecognized<'a>>)
    ensures
        match r {
            Ok((rest, t)) => type_at(input@, 0) matches Some((v, e)) && t.model() == v && 0 <= e
                <= input@.len() && rest@ == input@.skip(e),
            Err(u) => type_at(input@, 0) is None && u.input@ == input@,
        },
{
    match type_expr(input, 0) {
        Some((t, e)) => Ok((rest_from(input, e), t)),
        None => Err(Unrecognized { input }),
    }
}

} // verus!
