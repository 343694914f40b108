//! Extraction of struct and enum descriptions from a parse tree.
//!
//! The spec functions of this module state, over the arena of [`SyntaxTree`], what
//! each extraction returns and which diagnostics it appends; the executable
//! functions are proved to meet them.
use vstd::prelude::*;

use crate::diagnostic::{lemma_views_push, views, Diagnostic, DiagnosticView, Severity};
use crate::tree::{separated, str_eq, SyntaxTree};

verus! {

// ---------------------------------------------------------------- values

#[derive(Clone, Copy, Debug, PartialEq, Eq, Structural)]
pub enum Visibility {
    Default,
    Pub,
}

/// A normalized type: a path kept as its text, or a tuple of types. The empty tuple is unit.
#[derive(Debug)]
pub enum Ty {
    Path(String),
    Tuple(Vec<Ty>),
}

/// The mathematical value of a [`Ty`].
#[verifier::ext_equal]
pub enum TyView {
    Path(Seq<char>),
    Tuple(Seq<TyView>),
}

pub open spec fn ty_view(t: Ty) -> TyView
    decreases t,
{
    match t {
        Ty::Path(s) => TyView::Path(s@),
        Ty::Tuple(v) => TyView::Tuple(
            Seq::new(
                v.len() as nat,
                |i: int|
                    if 0 <= i < v.len() {
                        ty_view(v[i])
                    } else {
                        unit()
                    },
            ),
        ),
    }
}

impl View for Ty {
    type V = TyView;

    open spec fn view(&self) -> TyView {
        ty_view(*self)
    }
}

pub open spec fn unit() -> TyView {
    TyView::Tuple(Seq::empty())
}

/// A path expression, its text and the types given as its generic arguments.
#[derive(Debug)]
pub struct CairoTypePath {
    pub path: String,
    pub generic_args: Vec<Ty>,
}

/// A name with a type, as in a constant generic parameter.
#[derive(Debug)]
pub struct NamedType {
    pub name: String,
    pub ty: Ty,
}

/// A struct member: its visibility, name and type, and the node it was read from.
#[derive(Debug)]
pub struct Member {
    pub visibility: Visibility,
    pub name: String,
    pub ty: Ty,
    pub ast: usize,
}

pub struct MemberView {
    pub visibility: Visibility,
    pub name: Seq<char>,
    pub ty: TyView,
    pub ast: usize,
}

impl View for Member {
    type V = MemberView;

    open spec fn view(&self) -> MemberView {
        MemberView { visibility: self.visibility, name: self.name@, ty: self.ty@, ast: self.ast }
    }
}

/// An enum variant: its name, its payload type where it has one, and its node.
#[derive(Debug)]
pub struct Variant {
    pub name: String,
    pub ty: Option<Ty>,
    pub ast: usize,
}

pub struct VariantView {
    pub name: Seq<char>,
    pub ty: Option<TyView>,
    pub ast: usize,
}

impl View for Variant {
    type V = VariantView;

    open spec fn view(&self) -> VariantView {
        VariantView {
            name: self.name@,
            ty: match self.ty {
                Some(t) => Some(t@),
                None => None,
            },
            ast: self.ast,
        }
    }
}

/// An attribute: the text of its path, its argument nodes, and its own node.
#[derive(Clone, Debug)]
pub struct Attribute {
    pub name: String,
    pub args: Vec<usize>,
    pub ast: usize,
}

/// The description of a struct declaration.
#[derive(Debug)]
pub struct CairoStruct {
    pub derives: Vec<String>,
    pub visibility: Visibility,
    pub name: String,
    pub generic_params: Vec<String>,
    pub members: Vec<Member>,
    pub ast: usize,
}

pub struct CairoStructView {
    pub derives: Seq<Seq<char>>,
    pub visibility: Visibility,
    pub name: Seq<char>,
    pub generic_params: Seq<Seq<char>>,
    pub members: Seq<MemberView>,
    pub ast: usize,
}

pub open spec fn strings(v: Seq<String>) -> Seq<Seq<char>> {
    v.map_values(|s: String| s@)
}

impl View for CairoStruct {
    type V = CairoStructView;

    open spec fn view(&self) -> CairoStructView {
        CairoStructView {
            derives: strings(self.derives@),
            visibility: self.visibility,
            name: self.name@,
            generic_params: strings(self.generic_params@),
            members: self.members@.map_values(|m: Member| m@),
            ast: self.ast,
        }
    }
}

/// The description of an enum declaration. `default` is left for later stages to fill in.
#[derive(Debug)]
pub struct CairoEnum {
    pub derives: Vec<String>,
    pub visibility: Visibility,
    pub name: String,
    pub generic_params: Vec<String>,
    pub variants: Vec<Variant>,
    pub default: Option<String>,
    pub ast: usize,
}

pub struct CairoEnumView {
    pub derives: Seq<Seq<char>>,
    pub visibility: Visibility,
    pub name: Seq<char>,
    pub generic_params: Seq<Seq<char>>,
    pub variants: Seq<VariantView>,
    pub default: Option<Seq<char>>,
    pub ast: usize,
}

impl View for CairoEnum {
    type V = CairoEnumView;

    open spec fn view(&self) -> CairoEnumView {
        CairoEnumView {
            derives: strings(self.derives@),
            visibility: self.visibility,
            name: self.name@,
            generic_params: strings(self.generic_params@),
            variants: self.variants@.map_values(|v: Variant| v@),
            default: match self.default {
                Some(d) => Some(d@),
                None => None,
            },
            ast: self.ast,
        }
    }
}

/// Extraction was asked of a node of another kind than the one requested.
#[derive(Clone, Copy, Debug, PartialEq, Eq, Structural)]
pub enum ExtractError {
    WrongKind,
}

// ---------------------------------------------------------------- model

/// The concatenation of a sequence of sequences, in order.
pub open spec fn concat<A>(s: Seq<Seq<A>>) -> Seq<A>
    decreases s.len(),
{
    if s.len() == 0 {
        Seq::empty()
    } else {
        concat(s.drop_last()) + s.last()
    }
}

pub proof fn lemma_concat_push<A>(s: Seq<Seq<A>>, x: Seq<A>)
    ensures
        concat(s.push(x)) == concat(s) + x,
{
    assert(s.push(x).drop_last() =~= s);
}

/// The visibility read from a visibility node.
pub open spec fn visibility_of(t: &SyntaxTree, v: int) -> Visibility {
    if t.kind_of(v) == "VisibilityPub"@ {
        Visibility::Pub
    } else {
        Visibility::Default
    }
}

/// The visibility in a slot; a missing slot reads as the default visibility.
pub open spec fn slot_visibility(t: &SyntaxTree, i: int, slot: int) -> Visibility {
    match t.slot(i, slot) {
        Some(v) => visibility_of(t, v as int),
        None => Visibility::Default,
    }
}

/// The normalized type of expression node `e`: a path keeps its trimmed text, a
/// parenthesized list is a tuple of its elements' types, anything else is unit.
pub open spec fn type_of(t: &SyntaxTree, e: int) -> TyView
    decreases t.nodes.len() - e,
{
    if !(t.wf() && t.has(e)) {
        unit()
    } else if t.kind_of(e) == "ExprPath"@ {
        TyView::Path(t.trimmed_of(e))
    } else if t.kind_of(e) == "ExprListParenthesized"@ {
        let xs = t.slot_list(e, 1);
        TyView::Tuple(
            Seq::new(
                xs.len(),
                |k: int|
                    if 0 <= k < xs.len() && e < xs[k] {
                        type_of(t, xs[k] as int)
                    } else {
                        unit()
                    },
            ),
        )
    } else {
        unit()
    }
}

/// The diagnostic for an expression that is neither a path nor a tuple.
pub open spec fn unsupported_type(t: &SyntaxTree, e: int) -> DiagnosticView {
    DiagnosticView {
        position: t.nodes@[e].span_without_trivia.0 as nat,
        message: "Unsupported type expression."@,
        severity: Severity::Warning,
    }
}

/// The diagnostics that normalizing node `e` reports, in order.
pub open spec fn type_diags(t: &SyntaxTree, e: int) -> Seq<DiagnosticView>
    decreases t.nodes.len() - e, 1int,
{
    if !(t.wf() && t.has(e)) {
        Seq::empty()
    } else if t.kind_of(e) == "ExprPath"@ {
        Seq::empty()
    } else if t.kind_of(e) == "ExprListParenthesized"@ {
        concat(element_diags(t, e))
    } else {
        seq![unsupported_type(t, e)]
    }
}

/// The diagnostics of each element of the parenthesized list at node `e`.
pub open spec fn element_diags(t: &SyntaxTree, e: int) -> Seq<Seq<DiagnosticView>>
    decreases t.nodes.len() - e, 0int,
{
    let xs = t.slot_list(e, 1);
    Seq::new(
        xs.len(),
        |k: int|
            if t.wf() && t.has(e) && 0 <= k < xs.len() && e < xs[k] {
                type_diags(t, xs[k] as int)
            } else {
                Seq::empty()
            },
    )
}

/// The type named by a type-clause node (`: T`); unit where its type is missing.
pub open spec fn clause_type(t: &SyntaxTree, c: int) -> TyView {
    match t.slot(c, 1) {
        Some(e) => type_of(t, e as int),
        None => unit(),
    }
}

pub open spec fn clause_diags(t: &SyntaxTree, c: int) -> Seq<DiagnosticView> {
    match t.slot(c, 1) {
        Some(e) => type_diags(t, e as int),
        None => Seq::empty(),
    }
}

/// The description of member node `m`.
pub open spec fn member_model(t: &SyntaxTree, m: int) -> MemberView {
    MemberView {
        visibility: slot_visibility(t, m, 1),
        name: t.slot_text(m, 2),
        ty: match t.slot(m, 3) {
            Some(c) => clause_type(t, c as int),
            None => unit(),
        },
        ast: m as usize,
    }
}

pub open spec fn member_diags(t: &SyntaxTree, m: int) -> Seq<DiagnosticView> {
    match t.slot(m, 3) {
        Some(c) => clause_diags(t, c as int),
        None => Seq::empty(),
    }
}

/// The payload type of variant node `v`: none without a type clause.
pub open spec fn variant_type(t: &SyntaxTree, v: int) -> Option<TyView> {
    if t.slot_is(v, 2, "TypeClause"@) {
        Some(clause_type(t, t.slot(v, 2)->0 as int))
    } else {
        None
    }
}

pub open spec fn variant_model(t: &SyntaxTree, v: int) -> VariantView {
    VariantView { name: t.slot_text(v, 1), ty: variant_type(t, v), ast: v as usize }
}

pub open spec fn variant_diags(t: &SyntaxTree, v: int) -> Seq<DiagnosticView> {
    if t.slot_is(v, 2, "TypeClause"@) {
        clause_diags(t, t.slot(v, 2)->0 as int)
    } else {
        Seq::empty()
    }
}

/// The name of a generic parameter node, where the parameter has one.
pub open spec fn param_name(t: &SyntaxTree, p: int) -> Option<Seq<char>> {
    if t.kind_of(p) == "GenericParamType"@ {
        Some(t.slot_text(p, 0))
    } else if t.kind_of(p) == "GenericParamConst"@ || t.kind_of(p) == "GenericParamImplNamed"@ {
        Some(t.slot_text(p, 1))
    } else {
        None
    }
}

pub open spec fn param_names(t: &SyntaxTree) -> spec_fn(usize) -> Option<Seq<char>> {
    |p: usize| param_name(t, p as int)
}

/// The names of the generic parameters in a generic-parameter-list node, in order.
pub open spec fn generic_params_of(t: &SyntaxTree, g: int) -> Seq<Seq<char>> {
    if t.kind_of(g) == "WrappedGenericParamList"@ {
        t.slot_list(g, 1).filter_map(param_names(t))
    } else {
        Seq::empty()
    }
}

pub open spec fn slot_generic_params(t: &SyntaxTree, i: int, slot: int) -> Seq<Seq<char>> {
    match t.slot(i, slot) {
        Some(g) => generic_params_of(t, g as int),
        None => Seq::empty(),
    }
}

/// The attribute nodes of a declaration, in source order.
pub open spec fn attributes_of(t: &SyntaxTree, item: int) -> Seq<usize> {
    match t.slot(item, 0) {
        Some(l) => t.children_of(l as int),
        None => Seq::empty(),
    }
}

/// The attributes of a declaration whose path is exactly `name`.
pub open spec fn attrs_named(t: &SyntaxTree, item: int, name: Seq<char>) -> Seq<usize> {
    attributes_of(t, item).filter(named(t, name))
}

/// Whether an attribute node's path is exactly `name`.
pub open spec fn named(t: &SyntaxTree, name: Seq<char>) -> spec_fn(usize) -> bool {
    |a: usize| t.slot_text(a as int, 2) == name
}

/// The argument nodes of an attribute; none where it has no parenthesized list.
pub open spec fn attr_args(t: &SyntaxTree, a: int) -> Seq<usize> {
    if t.slot_is(a, 3, "ArgListParenthesized"@) {
        t.slot_list(t.slot(a, 3)->0 as int, 1)
    } else {
        Seq::empty()
    }
}

/// The identifier of an unnamed argument that is a one-segment path without generic
/// arguments; `None` for any other argument.
pub open spec fn simple_ident(t: &SyntaxTree, arg: int) -> Option<Seq<char>> {
    match t.slot(arg, 1) {
        Some(c) => if t.kind_of(c as int) == "ArgClauseUnnamed"@ {
            match t.slot(c as int, 0) {
                Some(v) => if t.kind_of(v as int) == "ExprPath"@ && t.children_of(v as int).len()
                    == 1 && t.kind_of(t.children_of(v as int)[0] as int) == "PathSegmentSimple"@ {
                    Some(t.slot_text(t.children_of(v as int)[0] as int, 0))
                } else {
                    None
                },
                None => None,
            }
        } else {
            None
        },
        None => None,
    }
}

/// The identifiers that one attribute contributes, in source order.
pub open spec fn attr_names(t: &SyntaxTree, a: int) -> Seq<Seq<char>> {
    attr_args(t, a).filter_map(idents(t))
}

pub open spec fn idents(t: &SyntaxTree) -> spec_fn(usize) -> Option<Seq<char>> {
    |x: usize| simple_ident(t, x as int)
}

pub open spec fn name_lists(t: &SyntaxTree, attrs: Seq<usize>) -> Seq<Seq<Seq<char>>> {
    attrs.map_values(|a: usize| attr_names(t, a as int))
}

/// The identifiers contributed by a list of attributes, attribute after attribute.
pub open spec fn derive_names(t: &SyntaxTree, attrs: Seq<usize>) -> Seq<Seq<char>> {
    concat(name_lists(t, attrs))
}

/// The diagnostic for an attribute given without arguments.
pub open spec fn expected_args(t: &SyntaxTree, a: int) -> DiagnosticView {
    DiagnosticView {
        position: t.nodes@[a].span_without_trivia.0 as nat,
        message: "Expected args."@,
        severity: Severity::Error,
    }
}

pub open spec fn attr_diags(t: &SyntaxTree, a: int) -> Seq<DiagnosticView> {
    if attr_args(t, a).len() == 0 {
        seq![expected_args(t, a)]
    } else {
        Seq::empty()
    }
}

/// One diagnostic for each attribute of the list that has no arguments, in order.
pub open spec fn derive_diags(t: &SyntaxTree, attrs: Seq<usize>) -> Seq<DiagnosticView> {
    concat(diag_lists(t, attrs))
}

pub open spec fn diag_lists(t: &SyntaxTree, attrs: Seq<usize>) -> Seq<Seq<DiagnosticView>> {
    attrs.map_values(|a: usize| attr_diags(t, a as int))
}

pub open spec fn member_models(t: &SyntaxTree, s: int) -> Seq<MemberView> {
    t.slot_list(s, 6).map_values(|m: usize| member_model(t, m as int))
}

pub open spec fn member_diag_lists(t: &SyntaxTree, s: int) -> Seq<Seq<DiagnosticView>> {
    t.slot_list(s, 6).map_values(|m: usize| member_diags(t, m as int))
}

pub open spec fn variant_models(t: &SyntaxTree, e: int) -> Seq<VariantView> {
    t.slot_list(e, 6).map_values(|v: usize| variant_model(t, v as int))
}

pub open spec fn variant_diag_lists(t: &SyntaxTree, e: int) -> Seq<Seq<DiagnosticView>> {
    t.slot_list(e, 6).map_values(|v: usize| variant_diags(t, v as int))
}

/// The description of struct node `s`.
pub open spec fn struct_model(t: &SyntaxTree, s: int) -> CairoStructView {
    CairoStructView {
        derives: derive_names(t, attrs_named(t, s, "derive"@)),
        visibility: slot_visibility(t, s, 1),
        name: t.slot_text(s, 3),
        generic_params: slot_generic_params(t, s, 4),
        members: member_models(t, s),
        ast: s as usize,
    }
}

/// What extracting struct node `s` reports: its members' type diagnostics, then its
/// derive diagnostics.
pub open spec fn struct_diags(t: &SyntaxTree, s: int) -> Seq<DiagnosticView> {
    concat(member_diag_lists(t, s)) + derive_diags(
        t,
        attrs_named(t, s, "derive"@),
    )
}

/// The description of enum node `e`.
pub open spec fn enum_model(t: &SyntaxTree, e: int) -> CairoEnumView {
    CairoEnumView {
        derives: derive_names(t, attrs_named(t, e, "derive"@)),
        visibility: slot_visibility(t, e, 1),
        name: t.slot_text(e, 3),
        generic_params: slot_generic_params(t, e, 4),
        variants: variant_models(t, e),
        default: None,
        ast: e as usize,
    }
}

pub open spec fn enum_diags(t: &SyntaxTree, e: int) -> Seq<DiagnosticView> {
    concat(variant_diag_lists(t, e)) + derive_diags(
        t,
        attrs_named(t, e, "derive"@),
    )
}

// ---------------------------------------------------------------- extraction

/// Normalizes the type expression at node `e`.
///
/// A path becomes `Ty::Path` of its trimmed text, generic arguments included as text; a
/// parenthesized list becomes a tuple of its normalized elements; any other expression
/// becomes unit and is reported with a warning.
pub fn parse_expr(t: &SyntaxTree, e: usize, diagnostics: &mut Vec<Diagnostic>) -> (r: Ty)
    requires
        t.wf(),
        t.has(e as int),
    ensures
        r@ == type_of(t, e as int),
        views(final(diagnostics)@) == views(old(diagnostics)@) + type_diags(t, e as int),
    decreases t.nodes.len() - e,
{
    if t.is_kind(e, "ExprPath") {
        assert(views(diagnostics@) + type_diags(t, e as int) =~= views(diagnostics@));
        Ty::Path(String::from_str(t.text_without_trivia(e)))
    } else if t.is_kind(e, "ExprListParenthesized") {
        let xs = t.child_list(e, 1);
        let ghost d0 = views(diagnostics@);
        let ghost ds = element_diags(t, e as int);
        let mut items: Vec<Ty> = Vec::new();
        let mut k: usize = 0;
        while k < xs.len()
            invariant
                t.wf(),
                t.has(e as int),
                xs@ == t.slot_list(e as int, 1),
                forall|j: int| 0 <= j < xs.len() ==> e < #[trigger] xs@[j] < t.nodes.len(),
                ds.len() == xs.len(),
                forall|j: int| 0 <= j < xs.len() ==> #[trigger] ds[j] == type_diags(t, xs@[j] as int),
                k <= xs.len(),
                items.len() == k,
                forall|j: int| 0 <= j < k ==> (#[trigger] items@[j])@ == type_of(t, xs@[j] as int),
                views(diagnostics@) == d0 + concat(ds.take(k as int)),
            decreases xs.len() - k,
        {
            let it = parse_expr(t, xs[k], diagnostics);
            proof {
                assert(ds.take(k + 1) =~= ds.take(k as int).push(ds[k as int]));
                lemma_concat_push(ds.take(k as int), ds[k as int]);
            }
            items.push(it);
            k = k + 1;
        }
        proof {
            assert(ds.take(xs.len() as int) =~= ds);
        }
        let r = Ty::Tuple(items);
        assert(ty_view(r)->Tuple_0 =~= type_of(t, e as int)->Tuple_0);
        r
    } else {
        let d = Diagnostic {
            position: t.span_without_trivia(e).0,
            message: String::from_str("Unsupported type expression."),
            severity: Severity::Warning,
        };
        proof {
            lemma_views_push(diagnostics@, d);
        }
        diagnostics.push(d);
        let r = Ty::Tuple(Vec::new());
        assert(ty_view(r)->Tuple_0 =~= Seq::<TyView>::empty());
        r
    }
}


/// Reads the visibility of a visibility node: public exactly where it holds the `pub` modifier.
pub fn parse_visibility(t: &SyntaxTree, v: usize) -> (r: Visibility)
    requires
        t.has(v as int),
    ensures
        r == visibility_of(t, v as int),
{
    if t.is_kind(v, "VisibilityPub") {
        Visibility::Pub
    } else {
        Visibility::Default
    }
}

fn visibility_in(t: &SyntaxTree, i: usize, slot: usize) -> (r: Visibility)
    requires
        t.wf(),
        t.has(i as int),
    ensures
        r == slot_visibility(t, i as int, slot as int),
{
    match t.child(i, slot) {
        Some(v) => parse_visibility(t, v),
        None => Visibility::Default,
    }
}

/// Normalizes the type of a type-clause node.
fn parse_type_clause(t: &SyntaxTree, c: usize, diagnostics: &mut Vec<Diagnostic>) -> (r: Ty)
    requires
        t.wf(),
        t.has(c as int),
    ensures
        r@ == clause_type(t, c as int),
        views(final(diagnostics)@) == views(old(diagnostics)@) + clause_diags(t, c as int),
{
    match t.child(c, 1) {
        Some(e) => parse_expr(t, e, diagnostics),
        None => {
            assert(views(diagnostics@) + clause_diags(t, c as int) =~= views(diagnostics@));
            let r = Ty::Tuple(Vec::new());
            assert(ty_view(r)->Tuple_0 =~= Seq::<TyView>::empty());
            r
        },
    }
}

/// Reads one member of a struct: visibility, name and normalized type.
pub fn parse_item_struct_member(t: &SyntaxTree, m: usize, diagnostics: &mut Vec<Diagnostic>) -> (r:
    Member)
    requires
        t.wf(),
        t.has(m as int),
    ensures
        r@ == member_model(t, m as int),
        views(final(diagnostics)@) == views(old(diagnostics)@) + member_diags(t, m as int),
{
    let visibility = visibility_in(t, m, 1);
    let name = t.child_text(m, 2);
    let ty = match t.child(m, 3) {
        Some(c) => parse_type_clause(t, c, diagnostics),
        None => {
            assert(views(diagnostics@) + member_diags(t, m as int) =~= views(diagnostics@));
            let r = Ty::Tuple(Vec::new());
            assert(ty_view(r)->Tuple_0 =~= Seq::<TyView>::empty());
            r
        },
    };
    Member { visibility, name, ty, ast: m }
}

/// Reads the members of struct node `s`, in source order.
pub fn parse_item_struct_members(t: &SyntaxTree, s: usize, diagnostics: &mut Vec<Diagnostic>) -> (r:
    Vec<Member>)
    requires
        t.wf(),
        t.has(s as int),
    ensures
        r@.map_values(|m: Member| m@) == member_models(t, s as int),
        views(final(diagnostics)@) == views(old(diagnostics)@) + concat(
            member_diag_lists(t, s as int),
        ),
{
    let ms = t.child_list(s, 6);
    let ghost d0 = views(diagnostics@);
    let ghost ds = member_diag_lists(t, s as int);
    let mut r: Vec<Member> = Vec::new();
    let mut k: usize = 0;
    while k < ms.len()
        invariant
            t.wf(),
            t.has(s as int),
            ms@ == t.slot_list(s as int, 6),
            forall|j: int| 0 <= j < ms.len() ==> s < #[trigger] ms@[j] < t.nodes.len(),
            ds == member_diag_lists(t, s as int),
            k <= ms.len(),
            r.len() == k,
            forall|j: int| 0 <= j < k ==> (#[trigger] r@[j])@ == member_model(t, ms@[j] as int),
            views(diagnostics@) == d0 + concat(ds.take(k as int)),
        decreases ms.len() - k,
    {
        let m = parse_item_struct_member(t, ms[k], diagnostics);
        proof {
            assert(ds.take(k + 1) =~= ds.take(k as int).push(ds[k as int]));
            lemma_concat_push(ds.take(k as int), ds[k as int]);
        }
        r.push(m);
        k = k + 1;
    }
    proof {
        assert(ds.take(ms.len() as int) =~= ds);
        assert(r@.map_values(|m: Member| m@) =~= member_models(t, s as int));
    }
    r
}

/// Reads the name of a generic parameter node, where the parameter has one.
fn parse_param_name(t: &SyntaxTree, p: usize) -> (r: Option<String>)
    requires
        t.wf(),
        t.has(p as int),
    ensures
        match r {
            Some(n) => param_name(t, p as int) == Some(n@),
            None => param_name(t, p as int) is None,
        },
{
    if t.is_kind(p, "GenericParamType") {
        Some(t.child_text(p, 0))
    } else if t.is_kind(p, "GenericParamConst") || t.is_kind(p, "GenericParamImplNamed") {
        Some(t.child_text(p, 1))
    } else {
        None
    }
}

/// Reads the names of the generic parameters of a generic-parameter-list node, in declared
/// order and without removing repeats; empty where the declaration has no angle brackets.
pub fn parse_generic_params(t: &SyntaxTree, g: usize) -> (r: Vec<String>)
    requires
        t.wf(),
        t.has(g as int),
    ensures
        strings(r@) == generic_params_of(t, g as int),
{
    let mut r: Vec<String> = Vec::new();
    if !t.is_kind(g, "WrappedGenericParamList") {
        assert(strings(r@) =~= Seq::<Seq<char>>::empty());
        return r;
    }
    let ps = t.child_list(g, 1);
    let mut k: usize = 0;
    while k < ps.len()
        invariant
            t.wf(),
            t.has(g as int),
            ps@ == t.slot_list(g as int, 1),
            forall|j: int| 0 <= j < ps.len() ==> g < #[trigger] ps@[j] < t.nodes.len(),
            k <= ps.len(),
            strings(r@) == ps@.take(k as int).filter_map(param_names(t)),
        decreases ps.len() - k,
    {
        let n = parse_param_name(t, ps[k]);
        proof {
            assert(ps@.take(k + 1).drop_last() =~= ps@.take(k as int));
        }
        match n {
            Some(n) => {
                proof {
                    assert(strings(r@.push(n)) =~= strings(r@) + seq![n@]);
                }
                r.push(n);
            },
            None => {},
        }
        k = k + 1;
    }
    proof {
        assert(ps@.take(ps.len() as int) =~= ps@);
    }
    r
}

fn generic_params_in(t: &SyntaxTree, i: usize, slot: usize) -> (r: Vec<String>)
    requires
        t.wf(),
        t.has(i as int),
    ensures
        strings(r@) == slot_generic_params(t, i as int, slot as int),
{
    match t.child(i, slot) {
        Some(g) => parse_generic_params(t, g),
        None => {
            let r: Vec<String> = Vec::new();
            assert(strings(r@) =~= Seq::<Seq<char>>::empty());
            r
        },
    }
}

/// The attribute nodes of a declaration, in source order.
fn attribute_nodes(t: &SyntaxTree, item: usize) -> (r: Vec<usize>)
    requires
        t.wf(),
        t.has(item as int),
    ensures
        r@ == attributes_of(t, item as int),
        forall|j: int| 0 <= j < r.len() ==> item < #[trigger] r@[j] < t.nodes.len(),
{
    match t.child(item, 0) {
        Some(l) => {
            let cs = t.children(l);
            let mut r: Vec<usize> = Vec::new();
            let mut k: usize = 0;
            while k < cs.len()
                invariant
                    t.wf(),
                    t.has(l as int),
                    item < l,
                    cs@ == t.children_of(l as int),
                    k <= cs.len(),
                    r@ == cs@.take(k as int),
                    forall|j: int| 0 <= j < r.len() ==> item < #[trigger] r@[j] < t.nodes.len(),
                decreases cs.len() - k,
            {
                proof {
                    t.lemma_child_bounds(l as int, k as int);
                }
                r.push(cs[k]);
                proof {
                    assert(r@ =~= cs@.take(k + 1));
                }
                k = k + 1;
            }
            proof {
                assert(cs@.take(cs.len() as int) =~= cs@);
            }
            r
        },
        None => Vec::new(),
    }
}

/// The attributes of a declaration whose path is exactly `name`, in source order.
pub fn query_attr(t: &SyntaxTree, item: usize, name: &str) -> (r: Vec<usize>)
    requires
        t.wf(),
        t.has(item as int),
    ensures
        r@ == attrs_named(t, item as int, name@),
        forall|j: int| 0 <= j < r.len() ==> item < #[trigger] r@[j] < t.nodes.len(),
{
    let attrs = attribute_nodes(t, item);
    let mut r: Vec<usize> = Vec::new();
    let mut k: usize = 0;
    while k < attrs.len()
        invariant
            t.wf(),
            t.has(item as int),
            attrs@ == attributes_of(t, item as int),
            forall|j: int| 0 <= j < attrs.len() ==> item < #[trigger] attrs@[j] < t.nodes.len(),
            k <= attrs.len(),
            r@ == attrs@.take(k as int).filter(named(t, name@)),
            forall|j: int| 0 <= j < r.len() ==> item < #[trigger] r@[j] < t.nodes.len(),
        decreases attrs.len() - k,
    {
        let a = attrs[k];
        proof {
            assert(attrs@.take(k + 1).drop_last() =~= attrs@.take(k as int));
        }
        let head = t.child_text(a, 2);
        proof {
            reveal(Seq::filter);
            assert(named(t, name@)(a) == (t.slot_text(a as int, 2) == name@));
            assert(attrs@.take(k + 1).last() == a);
        }
        if str_eq(head.as_str(), name) {
            r.push(a);
        }
        k = k + 1;
    }
    proof {
        assert(attrs@.take(attrs.len() as int) =~= attrs@);
    }
    r
}

/// The argument nodes of an attribute; empty where it has no parenthesized list.
pub(crate) fn attr_arg_nodes(t: &SyntaxTree, a: usize) -> (r: Vec<usize>)
    requires
        t.wf(),
        t.has(a as int),
    ensures
        r@ == attr_args(t, a as int),
        forall|j: int| 0 <= j < r.len() ==> a < #[trigger] r@[j] < t.nodes.len(),
{
    match t.child(a, 3) {
        Some(x) => {
            if t.is_kind(x, "ArgListParenthesized") {
                t.child_list(x, 1)
            } else {
                Vec::new()
            }
        },
        None => Vec::new(),
    }
}

/// The identifier of an unnamed argument that is a single plain path segment.
fn arg_ident(t: &SyntaxTree, x: usize) -> (r: Option<String>)
    requires
        t.wf(),
        t.has(x as int),
    ensures
        match r {
            Some(n) => simple_ident(t, x as int) == Some(n@),
            None => simple_ident(t, x as int) is None,
        },
{
    let c = match t.child(x, 1) {
        Some(c) => c,
        None => {
            return None;
        },
    };
    if !t.is_kind(c, "ArgClauseUnnamed") {
        return None;
    }
    let v = match t.child(c, 0) {
        Some(v) => v,
        None => {
            return None;
        },
    };
    if !t.is_kind(v, "ExprPath") || t.children(v).len() != 1 {
        return None;
    }
    let seg = match t.child(v, 0) {
        Some(seg) => seg,
        None => {
            return None;
        },
    };
    if !t.is_kind(seg, "PathSegmentSimple") {
        return None;
    }
    Some(t.child_text(seg, 0))
}

/// Collects the derive names of the given attributes.
///
/// Each attribute contributes, in source order, the identifiers of its arguments that are
/// single plain path segments; other arguments are skipped silently. An attribute without
/// arguments contributes nothing and is reported once, as an error at its position.
pub fn extract_derive_attr_names(
    t: &SyntaxTree,
    attrs: &Vec<usize>,
    diagnostics: &mut Vec<Diagnostic>,
) -> (r: Vec<String>)
    requires
        t.wf(),
        forall|j: int| 0 <= j < attrs.len() ==> t.has(#[trigger] attrs@[j] as int),
    ensures
        strings(r@) == derive_names(t, attrs@),
        views(final(diagnostics)@) == views(old(diagnostics)@) + derive_diags(t, attrs@),
{
    let ghost d0 = views(diagnostics@);
    let ghost ns = name_lists(t, attrs@);
    let ghost ds = diag_lists(t, attrs@);
    let mut r: Vec<String> = Vec::new();
    let mut k: usize = 0;
    while k < attrs.len()
        invariant
            t.wf(),
            forall|j: int| 0 <= j < attrs.len() ==> t.has(#[trigger] attrs@[j] as int),
            ns == name_lists(t, attrs@),
            ds == diag_lists(t, attrs@),
            k <= attrs.len(),
            strings(r@) == concat(ns.take(k as int)),
            views(diagnostics@) == d0 + concat(ds.take(k as int)),
        decreases attrs.len() - k,
    {
        let a = attrs[k];
        let args = attr_arg_nodes(t, a);
        let ghost before = strings(r@);
        if args.len() == 0 {
            let d = Diagnostic {
                position: t.span_without_trivia(a).0,
                message: String::from_str("Expected args."),
                severity: Severity::Error,
            };
            proof {
                lemma_views_push(diagnostics@, d);
                assert(seq![d@] == ds[k as int]);
                assert(attr_args(t, a as int).filter_map(idents(t)) =~= Seq::<Seq<char>>::empty());
                assert(ns[k as int] =~= Seq::<Seq<char>>::empty());
            }
            diagnostics.push(d);
        } else {
            let mut j: usize = 0;
            while j < args.len()
                invariant
                    t.wf(),
                    t.has(a as int),
                    args@ == attr_args(t, a as int),
                    forall|i: int| 0 <= i < args.len() ==> a < #[trigger] args@[i] < t.nodes.len(),
                    j <= args.len(),
                    strings(r@) == before + args@.take(j as int).filter_map(idents(t)),
                decreases args.len() - j,
            {
                let n = arg_ident(t, args[j]);
                proof {
                    assert(args@.take(j + 1).drop_last() =~= args@.take(j as int));
                }
                match n {
                    Some(n) => {
                        proof {
                            assert(strings(r@.push(n)) =~= strings(r@) + seq![n@]);
                        }
                        r.push(n);
                    },
                    None => {},
                }
                j = j + 1;
            }
            proof {
                assert(args@.take(args.len() as int) =~= args@);
                assert(ds[k as int] =~= Seq::<DiagnosticView>::empty());
                assert(views(diagnostics@) + ds[k as int] =~= views(diagnostics@));
            }
        }
        proof {
            assert(ns.take(k + 1) =~= ns.take(k as int).push(ns[k as int]));
            lemma_concat_push(ns.take(k as int), ns[k as int]);
            assert(ds.take(k + 1) =~= ds.take(k as int).push(ds[k as int]));
            lemma_concat_push(ds.take(k as int), ds[k as int]);
        }
        k = k + 1;
    }
    proof {
        assert(ns.take(attrs.len() as int) =~= ns);
        assert(ds.take(attrs.len() as int) =~= ds);
    }
    r
}


/// Reads struct node `s`: its name, visibility, generic parameter names, members in source
/// order and derive names. Type and attribute problems are appended to `diagnostics`.
pub fn parse_item_struct(t: &SyntaxTree, s: usize, diagnostics: &mut Vec<Diagnostic>) -> (r:
    CairoStruct)
    requires
        t.wf(),
        t.has(s as int),
    ensures
        r@ == struct_model(t, s as int),
        views(final(diagnostics)@) == views(old(diagnostics)@) + struct_diags(t, s as int),
{
    let ghost d0 = views(diagnostics@);
    let name = t.child_text(s, 3);
    let members = parse_item_struct_members(t, s, diagnostics);
    let visibility = visibility_in(t, s, 1);
    let attrs = query_attr(t, s, "derive");
    let derives = extract_derive_attr_names(t, &attrs, diagnostics);
    let generic_params = generic_params_in(t, s, 4);
    let r = CairoStruct { derives, visibility, name, generic_params, members, ast: s };
    proof {
        assert(d0 + concat(member_diag_lists(t, s as int)) + derive_diags(t, attrs@) =~= d0
            + struct_diags(t, s as int));
    }
    r
}

/// Reads one enum variant: its name, and its payload type where it has a type clause.
pub fn parse_item_variant(t: &SyntaxTree, v: usize, diagnostics: &mut Vec<Diagnostic>) -> (r:
    Variant)
    requires
        t.wf(),
        t.has(v as int),
    ensures
        r@ == variant_model(t, v as int),
        views(final(diagnostics)@) == views(old(diagnostics)@) + variant_diags(t, v as int),
{
    let name = t.child_text(v, 1);
    let ty = match t.child(v, 2) {
        Some(c) => {
            if t.is_kind(c, "TypeClause") {
                Some(parse_type_clause(t, c, diagnostics))
            } else {
                assert(views(diagnostics@) + variant_diags(t, v as int) =~= views(diagnostics@));
                None
            }
        },
        None => {
            assert(views(diagnostics@) + variant_diags(t, v as int) =~= views(diagnostics@));
            None
        },
    };
    Variant { name, ty, ast: v }
}

/// Reads the variants of enum node `e`, in source order.
pub fn parse_item_variants(t: &SyntaxTree, e: usize, diagnostics: &mut Vec<Diagnostic>) -> (r: Vec<
    Variant,
>)
    requires
        t.wf(),
        t.has(e as int),
    ensures
        r@.map_values(|v: Variant| v@) == variant_models(t, e as int),
        views(final(diagnostics)@) == views(old(diagnostics)@) + concat(
            variant_diag_lists(t, e as int),
        ),
{
    let vs = t.child_list(e, 6);
    let ghost d0 = views(diagnostics@);
    let ghost ds = variant_diag_lists(t, e as int);
    let mut r: Vec<Variant> = Vec::new();
    let mut k: usize = 0;
    while k < vs.len()
        invariant
            t.wf(),
            t.has(e as int),
            vs@ == t.slot_list(e as int, 6),
            forall|j: int| 0 <= j < vs.len() ==> e < #[trigger] vs@[j] < t.nodes.len(),
            ds == variant_diag_lists(t, e as int),
            k <= vs.len(),
            r.len() == k,
            forall|j: int| 0 <= j < k ==> (#[trigger] r@[j])@ == variant_model(t, vs@[j] as int),
            views(diagnostics@) == d0 + concat(ds.take(k as int)),
        decreases vs.len() - k,
    {
        let v = parse_item_variant(t, vs[k], diagnostics);
        proof {
            assert(ds.take(k + 1) =~= ds.take(k as int).push(ds[k as int]));
            lemma_concat_push(ds.take(k as int), ds[k as int]);
        }
        r.push(v);
        k = k + 1;
    }
    proof {
        assert(ds.take(vs.len() as int) =~= ds);
        assert(r@.map_values(|v: Variant| v@) =~= variant_models(t, e as int));
    }
    r
}

/// Reads enum node `e`: its name, visibility, generic parameter names, variants in source
/// order and derive names. `default` stays empty.
pub fn parse_item_enum(t: &SyntaxTree, e: usize, diagnostics: &mut Vec<Diagnostic>) -> (r:
    CairoEnum)
    requires
        t.wf(),
        t.has(e as int),
    ensures
        r@ == enum_model(t, e as int),
        views(final(diagnostics)@) == views(old(diagnostics)@) + enum_diags(t, e as int),
{
    let ghost d0 = views(diagnostics@);
    let name = t.child_text(e, 3);
    let variants = parse_item_variants(t, e, diagnostics);
    let visibility = visibility_in(t, e, 1);
    let attrs = query_attr(t, e, "derive");
    let derives = extract_derive_attr_names(t, &attrs, diagnostics);
    let generic_params = generic_params_in(t, e, 4);
    let r = CairoEnum { derives, visibility, name, generic_params, variants, default: None, ast: e };
    proof {
        assert(d0 + concat(variant_diag_lists(t, e as int)) + derive_diags(t, attrs@) =~= d0
            + enum_diags(t, e as int));
    }
    r
}

/// Reads node `node` as a struct declaration.
///
/// Fails with `WrongKind`, appending nothing, where the node is not a struct declaration.
pub fn extract_struct(t: &SyntaxTree, node: usize, diagnostics: &mut Vec<Diagnostic>) -> (r:
    Result<CairoStruct, ExtractError>)
    requires
        t.wf(),
        t.has(node as int),
    ensures
        t.kind_of(node as int) == "ItemStruct"@ ==> (r matches Ok(s) && s@ == struct_model(
            t,
            node as int,
        ) && views(final(diagnostics)@) == views(old(diagnostics)@) + struct_diags(t, node as int)),
        t.kind_of(node as int) != "ItemStruct"@ ==> r == Err::<CairoStruct, ExtractError>(
            ExtractError::WrongKind,
        ) && final(diagnostics)@ == old(diagnostics)@,
{
    if t.is_kind(node, "ItemStruct") {
        Ok(parse_item_struct(t, node, diagnostics))
    } else {
        Err(ExtractError::WrongKind)
    }
}

/// Reads node `node` as an enum declaration.
///
/// Fails with `WrongKind`, appending nothing, where the node is not an enum declaration.
pub fn extract_enum(t: &SyntaxTree, node: usize, diagnostics: &mut Vec<Diagnostic>) -> (r: Result<
    CairoEnum,
    ExtractError,
>)
    requires
        t.wf(),
        t.has(node as int),
    ensures
        t.kind_of(node as int) == "ItemEnum"@ ==> (r matches Ok(e) && e@ == enum_model(
            t,
            node as int,
        ) && views(final(diagnostics)@) == views(old(diagnostics)@) + enum_diags(t, node as int)),
        t.kind_of(node as int) != "ItemEnum"@ ==> r == Err::<CairoEnum, ExtractError>(
            ExtractError::WrongKind,
        ) && final(diagnostics)@ == old(diagnostics)@,
{
    if t.is_kind(node, "ItemEnum") {
        Ok(parse_item_enum(t, node, diagnostics))
    } else {
        Err(ExtractError::WrongKind)
    }
}

/// The first node of the arena, in index order, whose kind is `kind`.
pub fn first_of_kind(t: &SyntaxTree, kind: &str) -> (r: Option<usize>)
    ensures
        match r {
            Some(i) => t.has(i as int) && t.kind_of(i as int) == kind@ && forall|j: int|
                0 <= j < i ==> t.kind_of(j) != kind@,
            None => forall|j: int| 0 <= j < t.nodes.len() ==> t.kind_of(j) != kind@,
        },
{
    let mut i: usize = 0;
    while i < t.node_count()
        invariant
            i <= t.nodes.len(),
            forall|j: int| 0 <= j < i ==> t.kind_of(j) != kind@,
        decreases t.nodes.len() - i,
    {
        if t.is_kind(i, kind) {
            return Some(i);
        }
        i = i + 1;
    }
    None
}

/// Reads the first struct declaration of the tree, in pre-order; `None` where there is none.
pub fn parse_struct(t: &SyntaxTree, diagnostics: &mut Vec<Diagnostic>) -> (r: Option<CairoStruct>)
    requires
        t.wf(),
    ensures
        match first_struct(t) {
            Some(i) => r matches Some(s) && s@ == struct_model(t, i as int) && views(
                final(diagnostics)@,
            ) == views(old(diagnostics)@) + struct_diags(t, i as int),
            None => r is None && final(diagnostics)@ == old(diagnostics)@,
        },
{
    match first_of_kind(t, "ItemStruct") {
        Some(i) => {
            proof {
                lemma_first_kind(t, "ItemStruct"@, i as int);
            }
            Some(parse_item_struct(t, i, diagnostics))
        },
        None => {
            proof {
                lemma_no_kind(t, "ItemStruct"@);
            }
            None
        },
    }
}

/// Reads the first enum declaration of the tree, in pre-order; `None` where there is none.
pub fn parse_enum(t: &SyntaxTree, diagnostics: &mut Vec<Diagnostic>) -> (r: Option<CairoEnum>)
    requires
        t.wf(),
    ensures
        match first_enum(t) {
            Some(i) => r matches Some(e) && e@ == enum_model(t, i as int) && views(
                final(diagnostics)@,
            ) == views(old(diagnostics)@) + enum_diags(t, i as int),
            None => r is None && final(diagnostics)@ == old(diagnostics)@,
        },
{
    match first_of_kind(t, "ItemEnum") {
        Some(i) => {
            proof {
                lemma_first_kind(t, "ItemEnum"@, i as int);
            }
            Some(parse_item_enum(t, i, diagnostics))
        },
        None => {
            proof {
                lemma_no_kind(t, "ItemEnum"@);
            }
            None
        },
    }
}

/// The index of the first node of kind `kind`, if any.
pub open spec fn first_kind(t: &SyntaxTree, kind: Seq<char>) -> Option<usize> {
    if exists|i: int| 0 <= i < t.nodes.len() && t.kind_of(i) == kind {
        Some(
            (choose|i: int|
                0 <= i < t.nodes.len() && t.kind_of(i) == kind && forall|j: int|
                    0 <= j < i ==> t.kind_of(j) != kind) as usize,
        )
    } else {
        None
    }
}

pub open spec fn first_struct(t: &SyntaxTree) -> Option<usize> {
    first_kind(t, "ItemStruct"@)
}

pub open spec fn first_enum(t: &SyntaxTree) -> Option<usize> {
    first_kind(t, "ItemEnum"@)
}

proof fn lemma_first_kind(t: &SyntaxTree, kind: Seq<char>, i: int)
    requires
        0 <= i < t.nodes.len(),
        t.kind_of(i) == kind,
        forall|j: int| 0 <= j < i ==> t.kind_of(j) != kind,
    ensures
        first_kind(t, kind) == Some(i as usize),
{
    let c = choose|c: int|
        0 <= c < t.nodes.len() && t.kind_of(c) == kind && forall|j: int|
            0 <= j < c ==> t.kind_of(j) != kind;
    if c < i {
        assert(t.kind_of(c) != kind);
    } else if c > i {
        assert(t.kind_of(i) != kind);
    }
}

proof fn lemma_no_kind(t: &SyntaxTree, kind: Seq<char>)
    requires
        forall|j: int| 0 <= j < t.nodes.len() ==> t.kind_of(j) != kind,
    ensures
        first_kind(t, kind) is None,
{
}

/// Reads every attribute of a declaration: its path text and its argument nodes.
pub fn parse_attributes(t: &SyntaxTree, item: usize) -> (r: Vec<Attribute>)
    requires
        t.wf(),
        t.has(item as int),
    ensures
        r.len() == attributes_of(t, item as int).len(),
        forall|k: int|
            0 <= k < r.len() ==> {
                let a = attributes_of(t, item as int)[k];
                &&& (#[trigger] r@[k]).ast == a
                &&& r@[k].name@ == t.slot_text(a as int, 2)
                &&& r@[k].args@ == attr_args(t, a as int)
            },
{
    let attrs = attribute_nodes(t, item);
    let mut r: Vec<Attribute> = Vec::new();
    let mut k: usize = 0;
    while k < attrs.len()
        invariant
            t.wf(),
            attrs@ == attributes_of(t, item as int),
            forall|j: int| 0 <= j < attrs.len() ==> item < #[trigger] attrs@[j] < t.nodes.len(),
            k <= attrs.len(),
            r.len() == k,
            forall|j: int|
                0 <= j < k ==> {
                    let a = attrs@[j];
                    &&& (#[trigger] r@[j]).ast == a
                    &&& r@[j].name@ == t.slot_text(a as int, 2)
                    &&& r@[j].args@ == attr_args(t, a as int)
                },
        decreases attrs.len() - k,
    {
        let a = attrs[k];
        r.push(Attribute { name: t.child_text(a, 2), args: attr_arg_nodes(t, a), ast: a });
        k = k + 1;
    }
    r
}

/// The derive names of a declaration, without reporting attributes that lack arguments.
pub fn derive_attrs(t: &SyntaxTree, item: usize) -> (r: Vec<String>)
    requires
        t.wf(),
        t.has(item as int),
    ensures
        strings(r@) == derive_names(t, attrs_named(t, item as int, "derive"@)),
{
    let attrs = query_attr(t, item, "derive");
    let mut ignored: Vec<Diagnostic> = Vec::new();
    extract_derive_attr_names(t, &attrs, &mut ignored)
}


/// Texts joined with `", "` between neighbours.
pub open spec fn join(parts: Seq<Seq<char>>) -> Seq<char>
    decreases parts.len(),
{
    if parts.len() == 0 {
        Seq::empty()
    } else if parts.len() == 1 {
        parts[0]
    } else {
        join(parts.drop_last()) + ", "@ + parts.last()
    }
}

/// The canonical text of a type: a path is its text, a tuple is its elements' texts joined
/// by `", "` inside parentheses, so unit is `()`.
pub open spec fn type_text(t: TyView) -> Seq<char>
    decreases t,
{
    match t {
        TyView::Path(s) => s,
        TyView::Tuple(ts) => "("@ + join(type_texts(ts)) + ")"@,
    }
}

pub open spec fn type_texts(ts: Seq<TyView>) -> Seq<Seq<char>>
    decreases ts,
{
    Seq::new(
        ts.len(),
        |i: int|
            if 0 <= i < ts.len() {
                type_text(ts[i])
            } else {
                Seq::empty()
            },
    )
}

impl Ty {
    /// The canonical text of the type.
    pub fn render(&self) -> (r: String)
        ensures
            r@ == type_text(self@),
        decreases self,
    {
        match self {
            Ty::Path(s) => s.clone(),
            Ty::Tuple(items) => {
                let ghost parts = type_texts(self@->Tuple_0);
                let mut r = String::from_str("(");
                let mut k: usize = 0;
                while k < items.len()
                    invariant
                        *self == Ty::Tuple(*items),
                        parts == type_texts(self@->Tuple_0),
                        parts.len() == items.len(),
                        k <= items.len(),
                        r@ == "("@ + join(parts.take(k as int)),
                    decreases items.len() - k,
                {
                    proof {
                        assert(parts[k as int] == type_text(items@[k as int]@));
                    }
                    if k > 0 {
                        r.append(", ");
                    }
                    let p = items[k].render();
                    r.append(p.as_str());
                    proof {
                        let pre = parts.take(k as int);
                        assert(parts.take(k + 1).drop_last() =~= pre);
                        if k > 0 {
                            assert(r@ =~= "("@ + (join(pre) + ", "@ + p@));
                        } else {
                            assert(r@ =~= "("@ + p@);
                        }
                    }
                    k = k + 1;
                }
                proof {
                    assert(parts.take(items.len() as int) =~= parts);
                }
                r.append(")");
                r
            },
        }
    }
}

} // verus!
