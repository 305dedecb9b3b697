//! The top-level constructs of a module and their recognizers.
//!
//! Each recognizer looks at the start of its input. When it succeeds it
//! returns the construct together with the input that follows it; when it
//! fails it has consumed nothing, so another recognizer can be tried on the
//! same input. [`item`] tries them all in a fixed order.

use crate::ascii::{BANG, CLOSE_PAREN, COMMA, EQUALS, GLOBAL_SIGIL, HASH, LOCAL_SIGIL, SEMICOLON};
use crate::define::{define_at, parse, Define, DefineModel};
use crate::header::{head, head_at};
use crate::scan::{
    blank, blank_run, blanks, byte, byte_end, line_rest, rest_from, rest_of_line, run_end,
    skip_blanks, tag, tag_end, Unrecognized,
};
use crate::token::{
    attributes_end, is_name, skip_attributes, symbol, symbol_at,
};
use crate::ty::{
    list, list_at, signature, type_at, type_expr, Decoration, FnSig, SigModel,
};
use vstd::prelude::*;

verus! {

/// One top-level construct of a module.
#[derive(Debug, PartialEq)]
pub enum Item<'a> {
    /// `@__pre_init = unnamed_addr alias void (), void ()* @DefaultPreInit`:
    /// the new name and the name it stands for.
    Alias(&'a [u8], &'a [u8]),
    /// `; ModuleID = 'ipv4.e7riqz8u-cgu.0'`
    Comment,
    /// `source_filename = "ipv4.e7riqz8u-cgu.0"`
    SourceFilename,
    /// `target triple = "thumbv7m-none-eabi"`
    Target,
    /// `@__sbss = external global i32`
    Global,
    /// `%Struct = type { i8, i16 }`
    Type,
    /// `define void @main() unnamed_addr #3 {`, its body and its `}`.
    Define(Define<'a>),
    /// `declare void @llvm.dbg.declare(metadata, metadata, metadata) #4`
    Declare(Declare<'a>),
    /// `attributes #0 = { norecurse nounwind readnone }`
    Attributes,
    /// `!0 = !DIGlobalVariableExpression(var: !1, expr: !DIExpression())`
    Metadata,
}

/// A function declaration.
#[derive(Debug, PartialEq)]
pub struct Declare<'a> {
    /// The name of the function, without its sigil or quotes.
    pub name: &'a [u8],
    /// The signature of the function; `None` for an intrinsic.
    pub sig: Option<FnSig<'a>>,
}

/// The mathematical value of an [`Item`].
pub enum ItemModel {
    Alias(Seq<u8>, Seq<u8>),
    Comment,
    SourceFilename,
    Target,
    Global,
    Type,
    Define(DefineModel),
    Declare(DeclareModel),
    Attributes,
    Metadata,
}

/// The mathematical value of a [`Declare`].
pub struct DeclareModel {
    pub name: Seq<u8>,
    pub sig: Option<SigModel>,
}

impl<'a> Declare<'a> {
    /// The value of this declaration.
    pub open spec fn model(&self) -> DeclareModel {
        DeclareModel {
            name: self.name@,
            sig: match self.sig {
                Some(sig) => Some(sig.model()),
                None => None,
            },
        }
    }
}

impl<'a> Clone for Declare<'a> {
    fn clone(&self) -> (res: Self)
        ensures
            res.model() == self.model(),
    {
        Declare {
            name: self.name,
            sig: (match &self.sig {
                Some(sig) => Some(sig.clone()),
                None => None,
            }),
        }
    }
}

impl<'a> View for Declare<'a> {
    type V = DeclareModel;

    open spec fn view(&self) -> DeclareModel {
        self.model()
    }
}

impl<'a> Item<'a> {
    /// The value of this item.
    pub open spec fn model(&self) -> ItemModel {
        match self {
            Item::Alias(name, target) => ItemModel::Alias(name@, target@),
            Item::Comment => ItemModel::Comment,
            Item::SourceFilename => ItemModel::SourceFilename,
            Item::Target => ItemModel::Target,
            Item::Global => ItemModel::Global,
            Item::Type => ItemModel::Type,
            Item::Define(d) => ItemModel::Define(d.model()),
            Item::Declare(d) => ItemModel::Declare(d.model()),
            Item::Attributes => ItemModel::Attributes,
            Item::Metadata => ItemModel::Metadata,
        }
    }
}

impl<'a> Clone for Item<'a> {
    fn clone(&self) -> (res: Self)
        ensures
            res.model() == self.model(),
    {
        match self {
            Item::Alias(name, target) => Item::Alias(*name, *target),
            Item::Comment => Item::Comment,
            Item::SourceFilename => Item::SourceFilename,
            Item::Target => Item::Target,
            Item::Global => Item::Global,
            Item::Type => Item::Type,
            Item::Define(d) => Item::Define(d.clone()),
            Item::Declare(d) => Item::Declare(d.clone()),
            Item::Attributes => Item::Attributes,
            Item::Metadata => Item::Metadata,
        }
    }
}

impl<'a> View for Item<'a> {
    type V = ItemModel;

    open spec fn view(&self) -> ItemModel {
        self.model()
    }
}

/// What a recognizer returns: the input after the construct and the
/// construct, or the failure.
pub open spec fn is_item(
    s: Seq<u8>,
    r: Result<(&[u8], Item<'_>), Unrecognized<'_>>,
    m: Option<(ItemModel, int)>,
) -> bool {
    match r {
        Ok((rest, it)) => m matches Some((v, e)) && it.model() == v && 0 <= e <= s.len() && rest@
            == s.skip(e),
        Err(u) => m is None && u.input@ == s,
    }
}

/// The item `v` that ends where the rest of the line at `i` ends.
pub open spec fn to_line_end(s: Seq<u8>, i: int, v: ItemModel) -> Option<(ItemModel, int)> {
    match line_rest(s, i) {
        Some(e) => Some((v, e)),
        None => None,
    }
}

/// A comment: `;`, then the rest of the line.
pub open spec fn comment_item(s: Seq<u8>) -> Option<(ItemModel, int)> {
    match byte_end(s, 0, SEMICOLON) {
        Some(a) => to_line_end(s, a, ItemModel::Comment),
        None => None,
    }
}

/// The name of the source file: `source_filename`, blanks, `=`, then the
/// rest of the line.
pub open spec fn source_filename_item(s: Seq<u8>) -> Option<(ItemModel, int)> {
    match tag_end(s, 0, "source_filename") {
        Some(a) => match blanks(s, a) {
            Some(b) => match byte_end(s, b, EQUALS) {
                Some(c) => to_line_end(s, c, ItemModel::SourceFilename),
                None => None,
            },
            None => None,
        },
        None => None,
    }
}

/// The word `datalayout` or the word `triple` at `i`.
pub open spec fn target_kind_end(s: Seq<u8>, i: int) -> Option<int> {
    match tag_end(s, i, "datalayout") {
        Some(e) => Some(e),
        None => tag_end(s, i, "triple"),
    }
}

/// A setting of the target: `target`, blanks, `datalayout` or `triple`,
/// blanks, `=`, then the rest of the line.
pub open spec fn target_item(s: Seq<u8>) -> Option<(ItemModel, int)> {
    match tag_end(s, 0, "target") {
        Some(a) => match blanks(s, a) {
            Some(b) => match target_kind_end(s, b) {
                Some(c) => match blanks(s, c) {
                    Some(d) => match byte_end(s, d, EQUALS) {
                        Some(e) => to_line_end(s, e, ItemModel::Target),
                        None => None,
                    },
                    None => None,
                },
                None => None,
            },
            None => None,
        },
        None => None,
    }
}

/// A named type: a local symbol, blanks, `=`, blanks, `type`, then the rest
/// of the line.
pub open spec fn type_item(s: Seq<u8>) -> Option<(ItemModel, int)> {
    match symbol_at(s, 0, LOCAL_SIGIL) {
        Some((_, a)) => match blanks(s, a) {
            Some(b) => match byte_end(s, b, EQUALS) {
                Some(c) => match blanks(s, c) {
                    Some(d) => match tag_end(s, d, "type") {
                        Some(e) => to_line_end(s, e, ItemModel::Type),
                        None => None,
                    },
                    None => None,
                },
                None => None,
            },
            None => None,
        },
        None => None,
    }
}

/// The opening that a global and an alias share: a global symbol, blanks,
/// `=`, blanks, and any attributes (each followed by blanks). The result is
/// the name of the symbol and the offset of what decides between the two.
pub open spec fn binding_at(s: Seq<u8>) -> Option<(Seq<u8>, int)> {
    match symbol_at(s, 0, GLOBAL_SIGIL) {
        Some((name, a)) => match blanks(s, a) {
            Some(b) => match byte_end(s, b, EQUALS) {
                Some(c) => match blanks(s, c) {
                    Some(d) => Some((name, attributes_end(s, d))),
                    None => None,
                },
                None => None,
            },
            None => None,
        },
        None => None,
    }
}

/// The word `global` or the word `constant` at `i`.
pub open spec fn global_kind_end(s: Seq<u8>, i: int) -> Option<int> {
    match tag_end(s, i, "global") {
        Some(e) => Some(e),
        None => tag_end(s, i, "constant"),
    }
}

/// A global variable: the shared opening, `global` or `constant`, blanks,
/// then the rest of the line.
pub open spec fn global_item(s: Seq<u8>) -> Option<(ItemModel, int)> {
    match binding_at(s) {
        Some((_, p)) => match global_kind_end(s, p) {
            Some(a) => match blanks(s, a) {
                Some(b) => to_line_end(s, b, ItemModel::Global),
                None => None,
            },
            None => None,
        },
        None => None,
    }
}

/// The two type operands of an alias at `i`: a type, optional blanks, `,`,
/// blanks, a type. Only the offset after them is kept.
pub open spec fn alias_types_end(s: Seq<u8>, i: int) -> Option<int> {
    match type_at(s, i) {
        Some((_, a)) => match byte_end(s, run_end(s, a, blank()), COMMA) {
            Some(b) => match blanks(s, b) {
                Some(c) => match type_at(s, c) {
                    Some((_, e)) => Some(e),
                    None => None,
                },
                None => None,
            },
            None => None,
        },
        None => None,
    }
}

/// An alias: the shared opening, `alias`, blanks, the two type operands,
/// blanks, and the global symbol that the alias stands for. The item ends
/// right after that symbol.
pub open spec fn alias_item(s: Seq<u8>) -> Option<(ItemModel, int)> {
    match binding_at(s) {
        Some((name, p)) => match tag_end(s, p, "alias") {
            Some(a) => match blanks(s, a) {
                Some(b) => match alias_types_end(s, b) {
                    Some(c) => match blanks(s, c) {
                        Some(d) => match symbol_at(s, d, GLOBAL_SIGIL) {
                            Some((target, e)) => Some((ItemModel::Alias(name, target), e)),
                            None => None,
                        },
                        None => None,
                    },
                    None => None,
                },
                None => None,
            },
            None => None,
        },
        None => None,
    }
}

/// A function definition, as an item.
pub open spec fn define_item(s: Seq<u8>) -> Option<(ItemModel, int)> {
    match define_at(s) {
        Some((d, e)) => Some((ItemModel::Define(d), e)),
        None => None,
    }
}

/// A name is that of an intrinsic when it starts with `llvm.`.
pub open spec fn is_intrinsic(name: Seq<u8>) -> bool {
    tag_end(name, 0, "llvm.") is Some
}

/// A function declaration.
///
/// The opening is that of the keyword `declare`. For an intrinsic, what
/// follows the opening parenthesis is not looked at: the item has no
/// signature and ends with the line. For any other name the parameters
/// follow (types, each with any attributes), then `)`, then the rest of the
/// line, which is not looked at; the signature holds the parameter types in
/// the order in which they are written.
pub open spec fn declare_item(s: Seq<u8>) -> Option<(ItemModel, int)> {
    match head_at(s, 0, "declare") {
        Some(h) => if is_intrinsic(h.name) {
            to_line_end(s, h.next, ItemModel::Declare(DeclareModel { name: h.name, sig: None }))
        } else {
            let (inputs, a) = list_at(s, h.next, Decoration::Attributed);
            match byte_end(s, a, CLOSE_PAREN) {
                Some(b) => to_line_end(
                    s,
                    b,
                    ItemModel::Declare(
                        DeclareModel { name: h.name, sig: Some(signature(inputs, h.output)) },
                    ),
                ),
                None => None,
            }
        },
        None => None,
    }
}

/// A group of attributes: `attributes`, blanks, `#`, then the rest of the
/// line.
pub open spec fn attributes_item(s: Seq<u8>) -> Option<(ItemModel, int)> {
    match tag_end(s, 0, "attributes") {
        Some(a) => match blanks(s, a) {
            Some(b) => match byte_end(s, b, HASH) {
                Some(c) => to_line_end(s, c, ItemModel::Attributes),
                None => None,
            },
            None => None,
        },
        None => None,
    }
}

/// A metadata node: `!`, then the rest of the line.
pub open spec fn metadata_item(s: Seq<u8>) -> Option<(ItemModel, int)> {
    match byte_end(s, 0, BANG) {
        Some(a) => to_line_end(s, a, ItemModel::Metadata),
        None => None,
    }
}

/// The first of two outcomes that is a success.
pub open spec fn or_else(a: Option<(ItemModel, int)>, b: Option<(ItemModel, int)>) -> Option<
    (ItemModel, int),
> {
    if a is Some {
        a
    } else {
        b
    }
}

/// Any item: the first, in this order, that the input starts with: comment,
/// source file name, target, named type, global, alias, definition,
/// declaration, attribute group, metadata.
pub open spec fn item_of(s: Seq<u8>) -> Option<(ItemModel, int)> {
    or_else(
        comment_item(s),
        or_else(
            source_filename_item(s),
            or_else(
                target_item(s),
                or_else(
                    type_item(s),
                    or_else(
                        global_item(s),
                        or_else(
                            alias_item(s),
                            or_else(
                                define_item(s),
                                or_else(
                                    declare_item(s),
                                    or_else(attributes_item(s), metadata_item(s)),
                                ),
                            ),
                        ),
                    ),
                ),
            ),
        ),
    )
}

/// Ends the item `it` with the rest of the line at `pos`.
fn until_line_end<'a>(input: &'a [u8], pos: usize, it: Item<'a>) -> (r: Result<
    (&'a [u8], Item<'a>),
    Unrecognized<'a>,
>)
    requires
        pos <= input@.len(),
    ensures
        is_item(input@, r, to_line_end(input@, pos as int, it.model())),
{
    match rest_of_line(input, pos) {
        Some(e) => Ok((rest_from(input, e), it)),
        None => Err(Unrecognized { input }),
    }
}

/// Recognizes a comment.
pub fn comment<'a>(input: &'a [u8]) -> (r: Result<(&'a [u8], Item<'a>), Unrecognized<'a>>)
    ensures
        is_item(input@, r, comment_item(input@)),
{
    match byte(input, 0, SEMICOLON) {
        Some(a) => until_line_end(input, a, Item::Comment),
        None => Err(Unrecognized { input }),
    }
}

/// Recognizes the name of the source file.
pub fn source_filename<'a>(input: &'a [u8]) -> (r: Result<
    (&'a [u8], Item<'a>),
    Unrecognized<'a>,
>)
    ensures
        is_item(input@, r, source_filename_item(input@)),
{
    let a = match tag(input, 0, "source_filename") {
        Some(a) => a,
        None => { return Err(Unrecognized { input }); },
    };
    let b = match blank_run(input, a) {
        Some(b) => b,
        None => { return Err(Unrecognized { input }); },
    };
    match byte(input, b, EQUALS) {
        Some(c) => until_line_end(input, c, Item::SourceFilename),
        None => Err(Unrecognized { input }),
    }
}

/// Requires `datalayout` or `triple` at `pos`.
fn target_kind(input: &[u8], pos: usize) -> (r: Option<usize>)
    requires
        pos <= input@.len(),
    ensures
        crate::scan::is_end(r, target_kind_end(input@, pos as int)),
        r matches Some(e) ==> pos <= e <= input@.len(),
{
    match tag(input, pos, "datalayout") {
        Some(e) => Some(e),
        None => tag(input, pos, "triple"),
    }
}

/// Recognizes a setting of the target.
pub fn target<'a>(input: &'a [u8]) -> (r: Result<(&'a [u8], Item<'a>), Unrecognized<'a>>)
    ensures
        is_item(input@, r, target_item(input@)),
{
    let a = match tag(input, 0, "target") {
        Some(a) => a,
        None => { return Err(Unrecognized { input }); },
    };
    let b = match blank_run(input, a) {
        Some(b) => b,
        None => { return Err(Unrecognized { input }); },
    };
    let c = match target_kind(input, b) {
        Some(c) => c,
        None => { return Err(Unrecognized { input }); },
    };
    let d = match blank_run(input, c) {
        Some(d) => d,
        None => { return Err(Unrecognized { input }); },
    };
    match byte(input, d, EQUALS) {
        Some(e) => until_line_end(input, e, Item::Target),
        None => Err(Unrecognized { input }),
    }
}

/// Recognizes a named type.
pub fn type_<'a>(input: &'a [u8]) -> (r: Result<(&'a [u8], Item<'a>), Unrecognized<'a>>)
    ensures
        is_item(input@, r, type_item(input@)),
{
    let a = match symbol(input, 0, LOCAL_SIGIL) {
        Some((_, a)) => a,
        None => { return Err(Unrecognized { input }); },
    };
    let b = match blank_run(input, a) {
        Some(b) => b,
        None => { return Err(Unrecognized { input }); },
    };
    let c = match byte(input, b, EQUALS) {
        Some(c) => c,
        None => { return Err(Unrecognized { input }); },
    };
    let d = match blank_run(input, c) {
        Some(d) => d,
        None => { return Err(Unrecognized { input }); },
    };
    match tag(input, d, "type") {
        Some(e) => until_line_end(input, e, Item::Type),
        None => Err(Unrecognized { input }),
    }
}

/// Reads the opening that a global and an alias share.
fn binding<'a>(input: &'a [u8]) -> (r: Option<(&'a [u8], usize)>)
    ensures
        is_name(r, binding_at(input@)),
        r matches Some((_, e)) ==> e <= input@.len(),
{
    let (name, a) = match symbol(input, 0, GLOBAL_SIGIL) {
        Some(found) => found,
        None => { return None; },
    };
    let b = match blank_run(input, a) {
        Some(b) => b,
        None => { return None; },
    };
    let c = match byte(input, b, EQUALS) {
        Some(c) => c,
        None => { return None; },
    };
    match blank_run(input, c) {
        Some(d) => Some((name, skip_attributes(input, d))),
        None => None,
    }
}

/// Requires `global` or `constant` at `pos`.
fn global_kind(input: &[u8], pos: usize) -> (r: Option<usize>)
    requires
        pos <= input@.len(),
    ensures
        crate::scan::is_end(r, global_kind_end(input@, pos as int)),
        r matches Some(e) ==> pos <= e <= input@.len(),
{
    match tag(input, pos, "global") {
        Some(e) => Some(e),
        None => tag(input, pos, "constant"),
    }
}

/// Recognizes a global variable.
pub fn global<'a>(input: &'a [u8]) -> (r: Result<(&'a [u8], Item<'a>), Unrecognized<'a>>)
    ensures
        is_item(input@, r, global_item(input@)),
{
    let p = match binding(input) {
        Some((_, p)) => p,
        None => { return Err(Unrecognized { input }); },
    };
    let a = match global_kind(input, p) {
        Some(a) => a,
        None => { return Err(Unrecognized { input }); },
    };
    match blank_run(input, a) {
        Some(b) => until_line_end(input, b, Item::Global),
        None => Err(Unrecognized { input }),
    }
}

/// Requires the two type operands of an alias at `pos`.
fn alias_types(input: &[u8], pos: usize) -> (r: Option<usize>)
    requires
        pos <= input@.len(),
    ensures
        crate::scan::is_end(r, alias_types_end(input@, pos as int)),
        r matches Some(e) ==> pos <= e <= input@.len(),
{
    let a = match type_expr(input, pos) {
        Some((_, a)) => a,
        None => { return None; },
    };
    let b = match byte(input, skip_blanks(input, a), COMMA) {
        Some(b) => b,
        None => { return None; },
    };
    let c = match blank_run(input, b) {
        Some(c) => c,
        None => { return None; },
    };
    match type_expr(input, c) {
        Some((_, e)) => Some(e),
        None => None,
    }
}

/// Recognizes an alias.
pub fn alias<'a>(input: &'a [u8]) -> (r: Result<(&'a [u8], Item<'a>), Unrecognized<'a>>)
    ensures
        is_item(input@, r, alias_item(input@)),
{
    let (name, p) = match binding(input) {
        Some(found) => found,
        None => { return Err(Unrecognized { input }); },
    };
    let a = match tag(input, p, "alias") {
        Some(a) => a,
        None => { return Err(Unrecognized { input }); },
    };
    let b = match blank_run(input, a) {
        Some(b) => b,
        None => { return Err(Unrecognized { input }); },
    };
    let c = match alias_types(input, b) {
        Some(c) => c,
        None => { return Err(Unrecognized { input }); },
    };
    let d = match blank_run(input, c) {
        Some(d) => d,
        None => { return Err(Unrecognized { input }); },
    };
    match symbol(input, d, GLOBAL_SIGIL) {
        Some((target, e)) => Ok((rest_from(input, e), Item::Alias(name, target))),
        None => Err(Unrecognized { input }),
    }
}

/// Recognizes a function definition.
pub fn define<'a>(input: &'a [u8]) -> (r: Result<(&'a [u8], Item<'a>), Unrecognized<'a>>)
    ensures
        is_item(input@, r, define_item(input@)),
{
    match parse(input) {
        Ok((rest, d)) => Ok((rest, Item::Define(d))),
        Err(u) => Err(u),
    }
}

/// Tells whether `name` is the name of an intrinsic.
pub fn intrinsic(name: &[u8]) -> (r: bool)
    ensures
        r == is_intrinsic(name@),
{
    tag(name, 0, "llvm.").is_some()
}

/// Recognizes a function declaration.
pub fn declare<'a>(input: &'a [u8]) -> (r: Result<(&'a [u8], Item<'a>), Unrecognized<'a>>)
    ensures
        is_item(input@, r, declare_item(input@)),
{
    let h = match head(input, 0, "declare") {
        Some(h) => h,
        None => { return Err(Unrecognized { input }); },
    };
    let name = h.name;
    if intrinsic(name) {
        until_line_end(input, h.next, Item::Declare(Declare { name, sig: None }))
    } else {
        let (inputs, a) = list(input, h.next, Decoration::Attributed);
        let b = match byte(input, a, CLOSE_PAREN) {
            Some(b) => b,
            None => { return Err(Unrecognized { input }); },
        };
        let sig = FnSig::new(inputs, h.output);
        until_line_end(input, b, Item::Declare(Declare { name, sig: Some(sig) }))
    }
}

/// Recognizes a group of attributes.
pub fn attributes<'a>(input: &'a [u8]) -> (r: Result<(&'a [u8], Item<'a>), Unrecognized<'a>>)
    ensures
        is_item(input@, r, attributes_item(input@)),
{
    let a = match tag(input, 0, "attributes") {
        Some(a) => a,
        None => { return Err(Unrecognized { input }); },
    };
    let b = match blank_run(input, a) {
        Some(b) => b,
        None => { return Err(Unrecognized { input }); },
    };
    match byte(input, b, HASH) {
        Some(c) => until_line_end(input, c, Item::Attributes),
        None => Err(Unrecognized { input }),
    }
}

/// Recognizes a metadata node.
pub fn metadata<'a>(input: &'a [u8]) -> (r: Result<(&'a [u8], Item<'a>), Unrecognized<'a>>)
    ensures
        is_item(input@, r, metadata_item(input@)),
{
    match byte(input, 0, BANG) {
        Some(a) => until_line_end(input, a, Item::Metadata),
        None => Err(Unrecognized { input }),
    }
}

/// Recognizes any item: the first recognizer that accepts the input decides.
/// A recognizer that fails leaves the input as it was for the next one.
pub fn item<'a>(input: &'a [u8]) -> (r: Result<(&'a [u8], Item<'a>), Unrecognized<'a>>)
    ensures
        is_item(input@, r, item_of(input@)),
{
    if let Ok(found) = comment(input) {
        return Ok(found);
    }
    if let Ok(found) = source_filename(input) {
        return Ok(found);
    }
    if let Ok(found) = target(input) {
        return Ok(found);
    }
    if let Ok(found) = type_(input) {
        return Ok(found);
    }
    if let Ok(found) = global(input) {
        return Ok(found);
    }
    if let Ok(found) = alias(input) {
        return Ok(found);
    }
    if let Ok(found) = define(input) {
        return Ok(found);
    }
    if let Ok(found) = declare(input) {
        return Ok(found);
    }
    if let Ok(found) = attributes(input) {
        return Ok(found);
    }
    metadata(input)
}

} // verus!
