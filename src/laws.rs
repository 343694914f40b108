//! Properties of extraction that hold for every tree.
use vstd::prelude::*;

use crate::diagnostic::{views, Diagnostic, DiagnosticView};
use crate::parsers::{
    attr_args, concat, derive_diags, derive_names, diag_lists, enum_diags, enum_model,
    expected_args, join, member_model, name_lists, struct_diags, struct_model, type_diags,
    type_of, type_text, type_texts, unit, variant_model, CairoEnum, CairoStruct, TyView,
    Visibility,
};
use crate::tree::SyntaxTree;

verus! {

/// The trimmed texts of a list of nodes.
pub open spec fn trimmed_texts(t: &SyntaxTree, xs: Seq<usize>) -> Seq<Seq<char>> {
    Seq::new(xs.len(), |k: int| t.trimmed_of(xs[k] as int))
}

/// A type expression built only from paths and parenthesized lists, each list written with
/// its elements separated by `", "` and no other spacing, e.g. `(u8, (felt252, Array<u32>))`.
pub open spec fn canonical_type(t: &SyntaxTree, e: int) -> bool
    decreases t.nodes.len() - e, 1int, 0int,
{
    &&& t.wf()
    &&& t.has(e)
    &&& (t.kind_of(e) == "ExprPath"@ || {
        let xs = t.slot_list(e, 1);
        &&& t.kind_of(e) == "ExprListParenthesized"@
        &&& t.trimmed_of(e) == "("@ + join(trimmed_texts(t, xs)) + ")"@
        &&& all_canonical(t, e, xs, xs.len() as int)
    })
}

/// The first `n` of the nodes `xs`, all under node `e`, are canonical type expressions.
pub open spec fn all_canonical(t: &SyntaxTree, e: int, xs: Seq<usize>, n: int) -> bool
    decreases t.nodes.len() - e, 0int, n,
{
    if n <= 0 {
        true
    } else {
        &&& all_canonical(t, e, xs, n - 1)
        &&& n - 1 < xs.len()
        &&& e < xs[n - 1] < t.nodes.len()
        &&& canonical_type(t, xs[n - 1] as int)
    }
}

proof fn lemma_all_canonical(t: &SyntaxTree, e: int, xs: Seq<usize>, n: int, k: int)
    requires
        all_canonical(t, e, xs, n),
        0 <= k < n,
    ensures
        k < xs.len(),
        e < xs[k],
        canonical_type(t, xs[k] as int),
    decreases n,
{
    if k < n - 1 {
        lemma_all_canonical(t, e, xs, n - 1, k);
    }
}

proof fn lemma_concat_empties<A>(s: Seq<Seq<A>>)
    requires
        forall|k: int| 0 <= k < s.len() ==> #[trigger] s[k].len() == 0,
    ensures
        concat(s) =~= Seq::<A>::empty(),
    decreases s.len(),
{
    if s.len() > 0 {
        lemma_concat_empties(s.drop_last());
    }
}

/// Normalizing a type made of paths and tuples reports nothing, and the canonical text of
/// the result is the expression's own text, trivia trimmed.
pub proof fn lemma_type_round_trip(t: &SyntaxTree, e: int)
    requires
        canonical_type(t, e),
    ensures
        type_text(type_of(t, e)) == t.trimmed_of(e),
        type_diags(t, e) == Seq::<DiagnosticView>::empty(),
    decreases t.nodes.len() - e,
{
    if t.kind_of(e) != "ExprPath"@ {
        let xs = t.slot_list(e, 1);
        assert(t.kind_of(e) == "ExprListParenthesized"@);
        let l = t.slot(e, 1)->0;
        assert forall|k: int| 0 <= k < xs.len() implies e < #[trigger] xs[k] < t.nodes.len() by {
            t.lemma_separated_bounds(l as int, k);
        }
        assert forall|k: int| 0 <= k < xs.len() implies type_text(type_of(t, xs[k] as int))
            == t.trimmed_of(xs[k] as int) && type_diags(t, xs[k] as int) == Seq::<
            DiagnosticView,
        >::empty() by {
            lemma_all_canonical(t, e, xs, xs.len() as int, k);
            lemma_type_round_trip(t, xs[k] as int);
        }
        let tv = type_of(t, e);
        assert(type_texts(tv->Tuple_0) =~= trimmed_texts(t, xs));
        let ds = crate::parsers::element_diags(t, e);
        assert forall|k: int| 0 <= k < ds.len() implies #[trigger] ds[k].len() == 0 by {
            assert(ds[k] == type_diags(t, xs[k] as int));
        }
        lemma_concat_empties(ds);
    }
}

/// Struct members come out in source order, one for each member of the declaration, each
/// read from its own node.
pub proof fn lemma_members_in_source_order(t: &SyntaxTree, s: int)
    requires
        t.wf(),
        t.has(s),
    ensures
        struct_model(t, s).members.len() == t.slot_list(s, 6).len(),
        forall|k: int|
            0 <= k < t.slot_list(s, 6).len() ==> #[trigger] struct_model(t, s).members[k]
                == member_model(t, t.slot_list(s, 6)[k] as int),
        forall|k: int|
            0 <= k < t.slot_list(s, 6).len() ==> #[trigger] struct_model(t, s).members[k].ast
                == t.slot_list(s, 6)[k],
{
}

/// A member is public exactly where its declaration carries the `pub` modifier.
pub proof fn lemma_member_visibility(t: &SyntaxTree, m: int)
    requires
        t.wf(),
        t.has(m),
    ensures
        (member_model(t, m).visibility == Visibility::Pub) == t.slot_is(m, 1, "VisibilityPub"@),
{
}

/// A declaration is public exactly where it carries the `pub` modifier.
pub proof fn lemma_declaration_visibility(t: &SyntaxTree, i: int)
    requires
        t.wf(),
        t.has(i),
    ensures
        (struct_model(t, i).visibility == Visibility::Pub) == t.slot_is(i, 1, "VisibilityPub"@),
        (enum_model(t, i).visibility == Visibility::Pub) == t.slot_is(i, 1, "VisibilityPub"@),
{
}

/// A variant without a type clause has no type; one whose clause is `()` has the unit type;
/// the two never coincide.
pub proof fn lemma_unit_is_not_absent(t: &SyntaxTree, v: int)
    requires
        t.wf(),
        t.has(v),
    ensures
        !t.slot_is(v, 2, "TypeClause"@) ==> variant_model(t, v).ty is None,
        ({
            &&& t.slot_is(v, 2, "TypeClause"@)
            &&& t.slot_is(t.slot(v, 2)->0 as int, 1, "ExprListParenthesized"@)
            &&& t.slot_list(t.slot(t.slot(v, 2)->0 as int, 1)->0 as int, 1).len() == 0
        }) ==> variant_model(t, v).ty == Some(unit()),
        Some(unit()) != None::<TyView>,
{
    if t.slot_is(v, 2, "TypeClause"@) {
        let c = t.slot(v, 2)->0;
        if t.slot_is(c as int, 1, "ExprListParenthesized"@) {
            let e = t.slot(c as int, 1)->0;
            t.lemma_child_bounds(v, 2);
            t.lemma_child_bounds(c as int, 1);
            let tv = type_of(t, e as int);
            reveal_strlit("ExprPath");
            reveal_strlit("ExprListParenthesized");
            assert(t.kind_of(e as int) == "ExprListParenthesized"@);
            assert("ExprPath"@.len() == 8);
            assert("ExprListParenthesized"@.len() == 21);
            assert(t.kind_of(e as int) != "ExprPath"@);
            if t.slot_list(e as int, 1).len() == 0 {
                assert(tv->Tuple_0 =~= Seq::<TyView>::empty());
            }
        }
    }
}

/// Extracting the same struct twice gives equal descriptions and equal diagnostics.
pub proof fn lemma_struct_extraction_deterministic(
    t: &SyntaxTree,
    s: int,
    first: CairoStruct,
    second: CairoStruct,
    before: Seq<Diagnostic>,
    after_first: Seq<Diagnostic>,
    after_second: Seq<Diagnostic>,
)
    requires
        t.wf(),
        t.has(s),
        first@ == struct_model(t, s),
        second@ == struct_model(t, s),
        views(after_first) == views(before) + struct_diags(t, s),
        views(after_second) == views(before) + struct_diags(t, s),
    ensures
        first@ == second@,
        views(after_first) == views(after_second),
{
}

/// Extracting the same enum twice gives equal descriptions and equal diagnostics.
pub proof fn lemma_enum_extraction_deterministic(
    t: &SyntaxTree,
    e: int,
    first: CairoEnum,
    second: CairoEnum,
    before: Seq<Diagnostic>,
    after_first: Seq<Diagnostic>,
    after_second: Seq<Diagnostic>,
)
    requires
        t.wf(),
        t.has(e),
        first@ == enum_model(t, e),
        second@ == enum_model(t, e),
        views(after_first) == views(before) + enum_diags(t, e),
        views(after_second) == views(before) + enum_diags(t, e),
    ensures
        first@ == second@,
        views(after_first) == views(after_second),
{
}

proof fn lemma_concat_append<A>(a: Seq<Seq<A>>, b: Seq<Seq<A>>)
    ensures
        concat(a + b) == concat(a) + concat(b),
    decreases b.len(),
{
    if b.len() == 0 {
        assert(a + b =~= a);
        assert(concat(a) + concat(b) =~= concat(a));
    } else {
        lemma_concat_append(a, b.drop_last());
        assert((a + b).drop_last() =~= a + b.drop_last());
        assert(concat(a) + (concat(b.drop_last()) + b.last()) =~= (concat(a) + concat(
            b.drop_last(),
        )) + b.last());
    }
}

/// Derive names and derive diagnostics are gathered attribute after attribute: those of two
/// consecutive runs of attributes are those of the first run followed by those of the second.
pub proof fn lemma_derives_in_scan_order(t: &SyntaxTree, first: Seq<usize>, second: Seq<usize>)
    ensures
        derive_names(t, first + second) == derive_names(t, first) + derive_names(t, second),
        derive_diags(t, first + second) == derive_diags(t, first) + derive_diags(t, second),
{
    assert(name_lists(t, first + second) =~= name_lists(t, first) + name_lists(t, second));
    assert(diag_lists(t, first + second) =~= diag_lists(t, first) + diag_lists(t, second));
    lemma_concat_append(name_lists(t, first), name_lists(t, second));
    lemma_concat_append(diag_lists(t, first), diag_lists(t, second));
}

/// An attribute without arguments contributes no derive name and exactly one error, at its
/// own position.
pub proof fn lemma_empty_attribute_reports_once(t: &SyntaxTree, a: usize)
    requires
        attr_args(t, a as int).len() == 0,
    ensures
        derive_names(t, seq![a]) == Seq::<Seq<char>>::empty(),
        derive_diags(t, seq![a]) == seq![expected_args(t, a as int)],
{
    let ns = name_lists(t, seq![a]);
    let ds = diag_lists(t, seq![a]);
    assert(ns.drop_last() =~= Seq::<Seq<Seq<char>>>::empty());
    assert(ds.drop_last() =~= Seq::<Seq<crate::diagnostic::DiagnosticView>>::empty());
    assert(attr_args(t, a as int).filter_map(crate::parsers::idents(t)) =~= Seq::<
        Seq<char>,
    >::empty());
    assert(concat(ns.drop_last()) =~= Seq::<Seq<char>>::empty());
    assert(concat(ds.drop_last()) =~= Seq::<crate::diagnostic::DiagnosticView>::empty());
    assert(ns.last() == crate::parsers::attr_names(t, a as int));
    assert(ds.last() == crate::parsers::attr_diags(t, a as int));
    assert(concat(ns) =~= Seq::<Seq<char>>::empty());
    assert(concat(ds) =~= seq![expected_args(t, a as int)]);
}

} // verus!
