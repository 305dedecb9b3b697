//! What holds of the recognizers on every input.

use crate::ascii::{
    BANG, CARRIAGE_RETURN, CLOSE_PAREN, EQUALS, GLOBAL_SIGIL, LINE_FEED, LOCAL_SIGIL, LOWER_A,
    LOWER_C, LOWER_D, LOWER_F, LOWER_G, LOWER_S, LOWER_T, SEMICOLON,
};
use crate::header::{head_at, HeadModel};
use crate::item::{
    alias_item, attributes_item, binding_at, comment_item, declare_item, define_item,
    global_item, global_kind_end, is_intrinsic, is_item, item_of, metadata_item,
    source_filename_item, target_item, to_line_end, type_item, DeclareModel, Item, ItemModel,
};
use crate::progress::{
    lemma_attributes_within, lemma_list_within, lemma_scan_within, lemma_token_advances,
};
use crate::scan::{
    blanks, byte_end, lemma_ascii_literal, lemma_run_end, line_rest, line_text, tag_end,
    Unrecognized,
};
use crate::token::symbol_at;
use crate::ty::{
    advances, element_at, list_at, list_tail, separator_end, type_at, Decoration, TypeModel,
};
use vstd::prelude::*;
use vstd::string::StringSliceAdditionalSpecFns;

verus! {

/// Where a literal stands, the input holds the bytes of the literal.
pub proof fn lemma_tag_bytes(s: Seq<u8>, i: int, lit: &str, k: int)
    requires
        tag_end(s, i, lit) is Some,
        0 <= k < lit.spec_bytes().len(),
    ensures
        0 <= i + k < s.len(),
        s[i + k] == lit.spec_bytes()[k],
{
    let n = lit.spec_bytes().len();
    assert(s.subrange(i, i + n)[k] == s[i + k]);
}

/// The bytes by which the keywords that open an item differ.
pub proof fn lemma_keyword_bytes()
    ensures
        "source_filename".spec_bytes().len() == 15 && "source_filename".spec_bytes()[0] == LOWER_S,
        "target".spec_bytes().len() == 6 && "target".spec_bytes()[0] == LOWER_T,
        "define".spec_bytes().len() == 6 && "define".spec_bytes()[0] == LOWER_D
            && "define".spec_bytes()[2] == LOWER_F,
        "declare".spec_bytes().len() == 7 && "declare".spec_bytes()[0] == LOWER_D
            && "declare".spec_bytes()[2] == LOWER_C,
        "attributes".spec_bytes().len() == 10 && "attributes".spec_bytes()[0] == LOWER_A,
        "alias".spec_bytes().len() == 5 && "alias".spec_bytes()[0] == LOWER_A,
        "global".spec_bytes().len() == 6 && "global".spec_bytes()[0] == LOWER_G,
        "constant".spec_bytes().len() == 8 && "constant".spec_bytes()[0] == LOWER_C,
{
    reveal_strlit("source_filename");
    reveal_strlit("target");
    reveal_strlit("define");
    reveal_strlit("declare");
    reveal_strlit("attributes");
    reveal_strlit("alias");
    reveal_strlit("global");
    reveal_strlit("constant");
    lemma_ascii_literal("source_filename");
    lemma_ascii_literal("target");
    lemma_ascii_literal("define");
    lemma_ascii_literal("declare");
    lemma_ascii_literal("attributes");
    lemma_ascii_literal("alias");
    lemma_ascii_literal("global");
    lemma_ascii_literal("constant");
}

/// The first byte of the input, where a recognizer accepts it:
/// `;` for a comment, `s` for the source file name, `t` for the target, `%`
/// for a named type, `@` for a global and for an alias, `d` for a definition
/// and for a declaration, `a` for an attribute group, `!` for metadata. A
/// definition has `f` as its third byte and a declaration `c`.
pub proof fn lemma_first_byte(s: Seq<u8>)
    ensures
        comment_item(s) is Some ==> s.len() > 0 && s[0] == SEMICOLON,
        source_filename_item(s) is Some ==> s.len() > 0 && s[0] == LOWER_S,
        target_item(s) is Some ==> s.len() > 0 && s[0] == LOWER_T,
        type_item(s) is Some ==> s.len() > 0 && s[0] == LOCAL_SIGIL,
        binding_at(s) is Some ==> s.len() > 0 && s[0] == GLOBAL_SIGIL,
        define_item(s) is Some ==> s.len() > 2 && s[0] == LOWER_D && s[2] == LOWER_F,
        declare_item(s) is Some ==> s.len() > 2 && s[0] == LOWER_D && s[2] == LOWER_C,
        attributes_item(s) is Some ==> s.len() > 0 && s[0] == LOWER_A,
        metadata_item(s) is Some ==> s.len() > 0 && s[0] == BANG,
{
    lemma_keyword_bytes();
    if source_filename_item(s) is Some {
        lemma_tag_bytes(s, 0, "source_filename", 0);
    }
    if target_item(s) is Some {
        lemma_tag_bytes(s, 0, "target", 0);
    }
    if define_item(s) is Some {
        assert(head_at(s, 0, "define") is Some);
        lemma_tag_bytes(s, 0, "define", 0);
        lemma_tag_bytes(s, 0, "define", 2);
    }
    if declare_item(s) is Some {
        assert(head_at(s, 0, "declare") is Some);
        lemma_tag_bytes(s, 0, "declare", 0);
        lemma_tag_bytes(s, 0, "declare", 2);
    }
    if attributes_item(s) is Some {
        lemma_tag_bytes(s, 0, "attributes", 0);
    }
}

/// After the opening that a global and an alias share, the word `alias`
/// excludes the words `global` and `constant`.
pub proof fn lemma_alias_excludes_global(s: Seq<u8>, p: int)
    ensures
        !(tag_end(s, p, "alias") is Some && global_kind_end(s, p) is Some),
{
    lemma_keyword_bytes();
    if tag_end(s, p, "alias") is Some && global_kind_end(s, p) is Some {
        lemma_tag_bytes(s, p, "alias", 0);
        if tag_end(s, p, "global") is Some {
            lemma_tag_bytes(s, p, "global", 0);
        } else {
            lemma_tag_bytes(s, p, "constant", 0);
        }
    }
}

/// No input is accepted by two recognizers: whichever recognizer accepts an
/// input, that is what the input is recognized as, so the order in which the
/// recognizers are tried does not change the outcome.
pub proof fn lemma_recognizers_disjoint(s: Seq<u8>)
    ensures
        comment_item(s) is Some ==> item_of(s) == comment_item(s),
        source_filename_item(s) is Some ==> item_of(s) == source_filename_item(s),
        target_item(s) is Some ==> item_of(s) == target_item(s),
        type_item(s) is Some ==> item_of(s) == type_item(s),
        global_item(s) is Some ==> item_of(s) == global_item(s),
        alias_item(s) is Some ==> item_of(s) == alias_item(s),
        define_item(s) is Some ==> item_of(s) == define_item(s),
        declare_item(s) is Some ==> item_of(s) == declare_item(s),
        attributes_item(s) is Some ==> item_of(s) == attributes_item(s),
        metadata_item(s) is Some ==> item_of(s) == metadata_item(s),
{
    lemma_first_byte(s);
    if binding_at(s) is Some {
        lemma_alias_excludes_global(s, (binding_at(s)->0).1);
    }
}

/// Every recognizer yields its own kind of item.
pub proof fn lemma_kinds(s: Seq<u8>)
    ensures
        comment_item(s) matches Some((v, _)) ==> v is Comment,
        source_filename_item(s) matches Some((v, _)) ==> v is SourceFilename,
        target_item(s) matches Some((v, _)) ==> v is Target,
        type_item(s) matches Some((v, _)) ==> v is Type,
        global_item(s) matches Some((v, _)) ==> v is Global,
        alias_item(s) matches Some((v, _)) ==> v is Alias,
        define_item(s) matches Some((v, _)) ==> v is Define,
        declare_item(s) matches Some((v, _)) ==> v is Declare,
        attributes_item(s) matches Some((v, _)) ==> v is Attributes,
        metadata_item(s) matches Some((v, _)) ==> v is Metadata,
{
}

/// An input that opens with a global symbol, `=` and attributes is
/// recognized as a global exactly when `global` or `constant` comes next and
/// the global recognizer accepts it, and as an alias exactly when `alias`
/// comes next and the alias recognizer accepts it; it is never recognized as
/// the other of the two.
pub proof fn lemma_global_or_alias(s: Seq<u8>)
    ensures
        item_of(s) matches Some((v, _)) && v is Global <==> global_item(s) is Some,
        item_of(s) matches Some((v, _)) && v is Alias <==> alias_item(s) is Some,
        global_item(s) is Some ==> (match binding_at(s) {
            Some((_, p)) => global_kind_end(s, p) is Some && tag_end(s, p, "alias") is None,
            None => false,
        }),
        alias_item(s) is Some ==> (match binding_at(s) {
            Some((_, p)) => tag_end(s, p, "alias") is Some && global_kind_end(s, p) is None,
            None => false,
        }),
{
    lemma_recognizers_disjoint(s);
    lemma_kinds(s);
    if binding_at(s) is Some {
        lemma_alias_excludes_global(s, (binding_at(s)->0).1);
    }
}

/// What a declaration with the opening `h` is when its name is that of an
/// intrinsic: an item without a signature that ends with the line.
pub open spec fn intrinsic_declaration(s: Seq<u8>, name: Seq<u8>, next: int) -> Option<
    (ItemModel, int),
> {
    match line_rest(s, next) {
        Some(e) => Some((ItemModel::Declare(DeclareModel { name, sig: None }), e)),
        None => None,
    }
}

/// A declared item agrees with the opening `name`: it is a declaration of
/// that name, and it lacks a signature exactly when the name is that of an
/// intrinsic.
pub open spec fn declares(v: ItemModel, name: Seq<u8>) -> bool {
    match v {
        ItemModel::Declare(d) => d.name == name && (d.sig is None <==> is_intrinsic(name)),
        _ => false,
    }
}

/// The declaration of an intrinsic has no signature, whatever follows the
/// opening parenthesis on its line; the declaration of any other function
/// has one. In both cases the name is the one that was declared.
pub proof fn lemma_signature_unless_intrinsic(s: Seq<u8>)
    ensures
        match head_at(s, 0, "declare") {
            Some(h) => {
                &&& is_intrinsic(h.name) ==> declare_item(s) == intrinsic_declaration(
                    s,
                    h.name,
                    h.next,
                )
                &&& match declare_item(s) {
                    Some((v, _)) => declares(v, h.name),
                    None => true,
                }
            },
            None => declare_item(s) is None,
        },
        declare_item(s) is Some ==> item_of(s) == declare_item(s),
{
    lemma_recognizers_disjoint(s);
}

/// `e` is where a line of `s` ends: the end of the input, a line feed, or a
/// carriage return with a line feed after it.
pub open spec fn at_line_end(s: Seq<u8>, e: int) -> bool {
    ||| e == s.len()
    ||| 0 <= e < s.len() && s[e] == LINE_FEED
    ||| 0 <= e && e + 1 < s.len() && s[e] == CARRIAGE_RETURN && s[e + 1] == LINE_FEED
}

/// The item ends where a line ends.
pub open spec fn ends_with_line(s: Seq<u8>, r: Option<(ItemModel, int)>) -> bool {
    match r {
        Some((_, e)) => at_line_end(s, e),
        None => true,
    }
}

/// An item whose remainder is not looked at takes its whole line: a comment,
/// the source file name, a target setting, a named type, a global, a
/// declaration, an attribute group and a metadata node each end where a line
/// ends.
pub proof fn lemma_items_take_the_line(s: Seq<u8>)
    ensures
        ends_with_line(s, comment_item(s)),
        ends_with_line(s, source_filename_item(s)),
        ends_with_line(s, target_item(s)),
        ends_with_line(s, type_item(s)),
        ends_with_line(s, global_item(s)),
        ends_with_line(s, declare_item(s)),
        ends_with_line(s, attributes_item(s)),
        ends_with_line(s, metadata_item(s)),
{
    assert forall|p: int, v: ItemModel| 0 <= p <= s.len() implies ends_with_line(
        s,
        #[trigger] to_line_end(s, p, v),
    ) by {
        lemma_run_end(s, p, line_text());
    }
    match binding_at(s) {
        Some((_, p)) => {
            lemma_binding_within(s);
            lemma_scan_within(s, p, "global");
            lemma_scan_within(s, p, "constant");
            match global_kind_end(s, p) {
                Some(a) => {
                    lemma_scan_within(s, a, "");
                },
                None => {},
            }
        },
        None => {},
    }
    match head_at(s, 0, "declare") {
        Some(h) => {
            lemma_list_within(s, h.next, Decoration::Attributed);
        },
        None => {},
    }
}

/// The opening that a global and an alias share ends inside the input.
pub proof fn lemma_binding_within(s: Seq<u8>)
    ensures
        match binding_at(s) {
            Some((_, p)) => 0 <= p <= s.len(),
            None => true,
        },
{
    lemma_token_advances(s, 0, GLOBAL_SIGIL);
    match symbol_at(s, 0, GLOBAL_SIGIL) {
        Some((_, a)) => {
            lemma_scan_within(s, a, "");
            match blanks(s, a) {
                Some(b) => match byte_end(s, b, EQUALS) {
                    Some(c) => {
                        lemma_scan_within(s, c, "");
                        match blanks(s, c) {
                            Some(d) => {
                                lemma_attributes_within(s, d);
                            },
                            None => {},
                        }
                    },
                    None => {},
                },
                None => {},
            }
        },
        None => {},
    }
}

/// The model of an outcome: what it holds, as plain values.
pub open spec fn outcome_model(r: Result<(&[u8], Item<'_>), Unrecognized<'_>>) -> Result<
    (Seq<u8>, ItemModel),
    Seq<u8>,
> {
    match r {
        Ok((rest, it)) => Ok((rest@, it.model())),
        Err(u) => Err(u.input@),
    }
}

/// Recognition is a function of the bytes of the input: outcomes of
/// [`crate::item::item`] on inputs that hold the same bytes are the same
/// item and the same rest, or the same failure.
pub proof fn lemma_item_deterministic(
    a: &[u8],
    b: &[u8],
    ra: Result<(&[u8], Item<'_>), Unrecognized<'_>>,
    rb: Result<(&[u8], Item<'_>), Unrecognized<'_>>,
)
    requires
        a@ == b@,
        is_item(a@, ra, item_of(a@)),
        is_item(b@, rb, item_of(b@)),
    ensures
        outcome_model(ra) == outcome_model(rb),
{
}

/// The offsets at which the elements of the list at `i` start.
pub open spec fn element_starts(s: Seq<u8>, i: int, d: Decoration) -> Seq<int>
    decreases s.len() - i, 1int,
{
    match element_at(s, i, d) {
        Some((_, j)) => if advances(s, i, j) {
            seq![i] + later_starts(s, j, d)
        } else {
            Seq::empty()
        },
        None => Seq::empty(),
    }
}

/// The offsets at which the elements start that follow an element that ends
/// at `i`.
pub open spec fn later_starts(s: Seq<u8>, i: int, d: Decoration) -> Seq<int>
    decreases s.len() - i, 0int,
{
    match separator_end(s, i) {
        Some(j) => if advances(s, i, j) {
            match element_at(s, j, d) {
                Some((_, k)) => if advances(s, j, k) {
                    seq![j] + later_starts(s, k, d)
                } else {
                    Seq::empty()
                },
                None => Seq::empty(),
            }
        } else {
            Seq::empty()
        },
        None => Seq::empty(),
    }
}

/// The element `k` of a list stands in its place: the element that starts
/// at `starts[k]` has the type `types[k]`; the next element, if there is
/// one, starts right after the separator that follows it; if there is none,
/// it ends at `end`.
pub open spec fn in_place(
    s: Seq<u8>,
    d: Decoration,
    starts: Seq<int>,
    types: Seq<TypeModel>,
    end: int,
    k: int,
) -> bool {
    match element_at(s, starts[k], d) {
        Some((t, e)) => {
            &&& t == types[k]
            &&& match type_at(s, starts[k]) {
                Some((u, _)) => u == t,
                None => false,
            }
            &&& starts[k] < e
            &&& if k + 1 < starts.len() {
                separator_end(s, e) == Some(starts[k + 1])
            } else {
                e == end
            }
        },
        None => false,
    }
}

/// `types` are the types of elements that start at the offsets `starts`, one
/// after the other from `from` on: each element but the first starts right
/// after the separator that follows the element before it, and the last
/// element ends at `end`.
pub open spec fn in_source_order(
    s: Seq<u8>,
    d: Decoration,
    from: int,
    starts: Seq<int>,
    types: Seq<TypeModel>,
    end: int,
) -> bool {
    &&& starts.len() == types.len()
    &&& forall|k: int|
        0 <= k < starts.len() ==> from <= #[trigger] starts[k] && in_place(
            s,
            d,
            starts,
            types,
            end,
            k,
        )
}

/// The elements after an element that ends at `i` stand in source order.
pub proof fn lemma_list_tail_order(s: Seq<u8>, i: int, d: Decoration)
    requires
        0 <= i <= s.len(),
    ensures
        later_starts(s, i, d).len() == list_tail(s, i, d).0.len(),
        later_starts(s, i, d).len() == 0 ==> list_tail(s, i, d).1 == i,
        later_starts(s, i, d).len() > 0 ==> separator_end(s, i) == Some(
            later_starts(s, i, d)[0],
        ) && in_source_order(
            s,
            d,
            i,
            later_starts(s, i, d),
            list_tail(s, i, d).0,
            list_tail(s, i, d).1,
        ),
    decreases s.len() - i,
{
    match separator_end(s, i) {
        Some(j) => if advances(s, i, j) {
            match element_at(s, j, d) {
                Some((t, k)) => if advances(s, j, k) {
                    lemma_list_tail_order(s, k, d);
                    let starts = later_starts(s, i, d);
                    let types = list_tail(s, i, d).0;
                    let end = list_tail(s, i, d).1;
                    let more_starts = later_starts(s, k, d);
                    let more_types = list_tail(s, k, d).0;
                    assert(starts =~= seq![j] + more_starts);
                    assert(types =~= seq![t] + more_types);
                    assert forall|n: int| 0 <= n < starts.len() implies i <= #[trigger] starts[n]
                        && in_place(s, d, starts, types, end, n) by {
                        if n > 0 {
                            assert(starts[n] == more_starts[n - 1]);
                            assert(types[n] == more_types[n - 1]);
                            if n + 1 < starts.len() {
                                assert(starts[n + 1] == more_starts[n]);
                            }
                        } else {
                            if 1 < starts.len() {
                                assert(starts[1] == more_starts[0]);
                            }
                        }
                    }
                },
                None => {},
            }
        },
        None => {},
    }
}

/// The types of a list are those of its elements in the order in which the
/// elements are written, one type for each element: with `n` elements
/// separated by commas the list holds `n` types, the first is the type
/// written first, and the list ends where its last element ends.
pub proof fn lemma_list_order(s: Seq<u8>, i: int, d: Decoration)
    requires
        0 <= i <= s.len(),
    ensures
        in_source_order(s, d, i, element_starts(s, i, d), list_at(s, i, d).0, list_at(s, i, d).1),
        element_starts(s, i, d).len() == 0 ==> list_at(s, i, d).1 == i,
        element_starts(s, i, d).len() > 0 ==> element_starts(s, i, d)[0] == i,
        forall|k: int, m: int|
            0 <= k < m < element_starts(s, i, d).len() ==> element_starts(s, i, d)[k]
                < element_starts(s, i, d)[m],
{
    let starts = element_starts(s, i, d);
    let types = list_at(s, i, d).0;
    let end = list_at(s, i, d).1;
    match element_at(s, i, d) {
        Some((t, j)) => if advances(s, i, j) {
            lemma_list_tail_order(s, j, d);
            let more_starts = later_starts(s, j, d);
            let more_types = list_tail(s, j, d).0;
            assert(starts =~= seq![i] + more_starts);
            assert(types =~= seq![t] + more_types);
            assert forall|n: int| 0 <= n < starts.len() implies i <= #[trigger] starts[n]
                && in_place(s, d, starts, types, end, n) by {
                if n > 0 {
                    assert(starts[n] == more_starts[n - 1]);
                    assert(types[n] == more_types[n - 1]);
                    if n + 1 < starts.len() {
                        assert(starts[n + 1] == more_starts[n]);
                    }
                } else {
                    if 1 < starts.len() {
                        assert(starts[1] == more_starts[0]);
                    }
                }
            }
        },
        None => {},
    }
    lemma_starts_increase(s, d, i, starts, types, end);
}

/// Elements in source order start at increasing offsets.
pub proof fn lemma_starts_increase(
    s: Seq<u8>,
    d: Decoration,
    from: int,
    starts: Seq<int>,
    types: Seq<TypeModel>,
    end: int,
)
    requires
        in_source_order(s, d, from, starts, types, end),
    ensures
        forall|k: int, m: int| 0 <= k < m < starts.len() ==> starts[k] < starts[m],
{
    assert forall|k: int, m: int| 0 <= k < m < starts.len() implies starts[k] < starts[m] by {
        lemma_starts_increase_between(s, d, from, starts, types, end, k, m);
    }
}

/// Of two elements in source order, the earlier starts first.
proof fn lemma_starts_increase_between(
    s: Seq<u8>,
    d: Decoration,
    from: int,
    starts: Seq<int>,
    types: Seq<TypeModel>,
    end: int,
    k: int,
    m: int,
)
    requires
        in_source_order(s, d, from, starts, types, end),
        0 <= k < m < starts.len(),
    ensures
        starts[k] < starts[m],
    decreases m - k,
{
    let e = (element_at(s, starts[m - 1], d)->0).1;
    assert(separator_end(s, e) == Some(starts[m]));
    crate::scan::lemma_run_end(s, e + 1, crate::scan::blank());
    if k < m - 1 {
        lemma_starts_increase_between(s, d, from, starts, types, end, k, m - 1);
    }
}

/// The parameter types of a declared item, if it has a signature.
pub open spec fn declared_inputs(v: ItemModel) -> Option<Seq<TypeModel>> {
    match v {
        ItemModel::Declare(d) => match d.sig {
            Some(sig) => Some(sig.inputs),
            None => None,
        },
        _ => None,
    }
}

/// The signature of a declared function holds one type for each parameter
/// between the parentheses, in the order in which the parameters are
/// written, and the closing parenthesis stands right after the last
/// parameter.
pub proof fn lemma_declared_inputs_in_order(s: Seq<u8>, h: HeadModel, inputs: Seq<TypeModel>)
    requires
        head_at(s, 0, "declare") == Some(h),
        match declare_item(s) {
            Some((v, _)) => declared_inputs(v) == Some(inputs),
            None => false,
        },
    ensures
        inputs.len() == element_starts(s, h.next, Decoration::Attributed).len(),
        in_source_order(
            s,
            Decoration::Attributed,
            h.next,
            element_starts(s, h.next, Decoration::Attributed),
            inputs,
            list_at(s, h.next, Decoration::Attributed).1,
        ),
        byte_end(s, list_at(s, h.next, Decoration::Attributed).1, CLOSE_PAREN) is Some,
{
    lemma_head_bounds(s, "declare");
    lemma_list_order(s, h.next, Decoration::Attributed);
}

/// The opening of a declaration or definition ends inside the input.
pub proof fn lemma_head_bounds(s: Seq<u8>, keyword: &str)
    ensures
        head_at(s, 0, keyword) matches Some(h) ==> 0 < h.next <= s.len(),
{
}

} // verus!
