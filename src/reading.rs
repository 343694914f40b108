//! Typed views of the nodes of a parse tree, and reading one declaration from source text.
use vstd::prelude::*;

use crate::diagnostic::{views, Diagnostic};
use crate::parse::{
    counts_of, describes_one_tree, matches_records, node_view, parse_token_stream_to_syntax_file,
    parsed_nodes_of, parser_diagnostic_views,
};
use crate::parsers::{
    enum_diags, enum_model, extract_enum, extract_struct, slot_generic_params,
    slot_visibility, strings, struct_diags, struct_model, CairoEnum, CairoStruct, ExtractError,
    Visibility,
};
use crate::tree::SyntaxTree;

verus! {

/// A node of a tree, seen without regard to its kind.
pub struct DbAst<'a> {
    pub tree: &'a SyntaxTree,
    pub node: usize,
}

impl<'a> DbAst<'a> {
    pub open spec fn inv(&self) -> bool {
        self.tree.wf() && self.tree.has(self.node as int)
    }

    pub fn kind(&self) -> (r: &'a str)
        requires
            self.inv(),
        ensures
            r@ == self.tree.kind_of(self.node as int),
    {
        self.tree.kind(self.node)
    }

    pub fn span(&self) -> (r: (usize, usize))
        requires
            self.inv(),
        ensures
            r == self.tree.nodes@[self.node as int].span,
    {
        self.tree.span(self.node)
    }

    pub fn span_without_trivia(&self) -> (r: (usize, usize))
        requires
            self.inv(),
        ensures
            r == self.tree.nodes@[self.node as int].span_without_trivia,
    {
        self.tree.span_without_trivia(self.node)
    }

    pub fn get_text(&self) -> (r: &'a str)
        requires
            self.inv(),
        ensures
            r@ == self.tree.text_of(self.node as int),
    {
        self.tree.text(self.node)
    }

    pub fn get_text_without_trivia(&self) -> (r: &'a str)
        requires
            self.inv(),
        ensures
            r@ == self.tree.trimmed_of(self.node as int),
    {
        self.tree.text_without_trivia(self.node)
    }
}

/// A struct declaration.
pub struct Struct<'a> {
    pub tree: &'a SyntaxTree,
    pub node: usize,
}

/// An enum declaration.
pub struct Enum<'a> {
    pub tree: &'a SyntaxTree,
    pub node: usize,
}

/// A member of a struct declaration.
pub struct Member<'a> {
    pub tree: &'a SyntaxTree,
    pub node: usize,
}

/// A variant of an enum declaration.
pub struct Variant<'a> {
    pub tree: &'a SyntaxTree,
    pub node: usize,
}

/// A top-level declaration, by kind.
pub enum Item<'a> {
    Struct(Struct<'a>),
    Enum(Enum<'a>),
    Other(DbAst<'a>),
}

/// An expression, by the kinds that can stand for a type.
pub enum Expression<'a> {
    Path(DbAst<'a>),
    Tuple(DbAst<'a>),
    Other(DbAst<'a>),
}

/// The view of node `node` by its kind.
pub open spec fn item_of<'a>(tree: &'a SyntaxTree, node: usize) -> Item<'a> {
    if tree.kind_of(node as int) == "ItemStruct"@ {
        Item::Struct(Struct { tree, node })
    } else if tree.kind_of(node as int) == "ItemEnum"@ {
        Item::Enum(Enum { tree, node })
    } else {
        Item::Other(DbAst { tree, node })
    }
}

/// The view of expression node `node` by its kind.
pub open spec fn expression_of<'a>(tree: &'a SyntaxTree, node: usize) -> Expression<'a> {
    if tree.kind_of(node as int) == "ExprPath"@ {
        Expression::Path(DbAst { tree, node })
    } else if tree.kind_of(node as int) == "ExprListParenthesized"@ {
        Expression::Tuple(DbAst { tree, node })
    } else {
        Expression::Other(DbAst { tree, node })
    }
}

/// The expression of the type clause in slot `slot` of node `i`: the clause's second child;
/// `None` where there is no type clause or it holds no type.
pub open spec fn clause_of<'a>(tree: &'a SyntaxTree, i: int, slot: int) -> Option<Expression<'a>> {
    if tree.slot_is(i, slot, "TypeClause"@) && tree.slot(tree.slot(i, slot)->0 as int, 1) is Some {
        Some(expression_of(tree, tree.slot(tree.slot(i, slot)->0 as int, 1)->0))
    } else {
        None
    }
}

impl<'a> Item<'a> {
    /// Classifies node `node` by its kind.
    pub fn new(tree: &'a SyntaxTree, node: usize) -> (r: Item<'a>)
        requires
            tree.wf(),
            tree.has(node as int),
        ensures
            r == item_of(tree, node),
    {
        proof {
            reveal_strlit("ItemStruct");
            reveal_strlit("ItemEnum");
            assert("ItemStruct"@.len() == 10);
            assert("ItemEnum"@.len() == 8);
        }
        if tree.is_kind(node, "ItemStruct") {
            Item::Struct(Struct { tree, node })
        } else if tree.is_kind(node, "ItemEnum") {
            Item::Enum(Enum { tree, node })
        } else {
            Item::Other(DbAst { tree, node })
        }
    }
}

impl<'a> Expression<'a> {
    /// Classifies node `node` by its kind.
    pub fn new(tree: &'a SyntaxTree, node: usize) -> (r: Expression<'a>)
        requires
            tree.wf(),
            tree.has(node as int),
        ensures
            r == expression_of(tree, node),
    {
        proof {
            reveal_strlit("ExprPath");
            reveal_strlit("ExprListParenthesized");
            assert("ExprPath"@.len() == 8);
            assert("ExprListParenthesized"@.len() == 21);
        }
        if tree.is_kind(node, "ExprPath") {
            Expression::Path(DbAst { tree, node })
        } else if tree.is_kind(node, "ExprListParenthesized") {
            Expression::Tuple(DbAst { tree, node })
        } else {
            Expression::Other(DbAst { tree, node })
        }
    }
}

/// The expression in the type clause of node `i`, slot `slot`; `None` where the clause is
/// absent or holds no type.
fn clause_expression<'a>(tree: &'a SyntaxTree, i: usize, slot: usize) -> (r: Option<Expression<'a>>)
    requires
        tree.wf(),
        tree.has(i as int),
    ensures
        r == clause_of(tree, i as int, slot as int),
{
    match tree.child(i, slot) {
        Some(c) => {
            if tree.is_kind(c, "TypeClause") {
                match tree.child(c, 1) {
                    Some(e) => Some(Expression::new(tree, e)),
                    None => None,
                }
            } else {
                None
            }
        },
        None => None,
    }
}

impl<'a> Struct<'a> {
    pub open spec fn inv(&self) -> bool {
        self.tree.wf() && self.tree.has(self.node as int)
    }

    pub fn visibility(&self) -> (r: Visibility)
        requires
            self.inv(),
        ensures
            r == slot_visibility(self.tree, self.node as int, 1),
    {
        match self.tree.child(self.node, 1) {
            Some(v) => crate::parsers::parse_visibility(self.tree, v),
            None => Visibility::Default,
        }
    }

    pub fn name(&self) -> (r: String)
        requires
            self.inv(),
        ensures
            r@ == self.tree.slot_text(self.node as int, 3),
    {
        self.tree.child_text(self.node, 3)
    }

    /// The names of the generic parameters, in declared order.
    pub fn generic_params(&self) -> (r: Vec<String>)
        requires
            self.inv(),
        ensures
            strings(r@) == slot_generic_params(self.tree, self.node as int, 4),
    {
        match self.tree.child(self.node, 4) {
            Some(g) => crate::parsers::parse_generic_params(self.tree, g),
            None => {
                let r: Vec<String> = Vec::new();
                assert(strings(r@) =~= Seq::<Seq<char>>::empty());
                r
            },
        }
    }

    /// The members, in source order.
    pub fn members(&self) -> (r: Vec<Member<'a>>)
        requires
            self.inv(),
        ensures
            r.len() == self.tree.slot_list(self.node as int, 6).len(),
            forall|k: int|
                0 <= k < r.len() ==> (#[trigger] r@[k]).tree == self.tree && r@[k].node
                    == self.tree.slot_list(self.node as int, 6)[k] && r@[k].inv(),
    {
        let ms = self.tree.child_list(self.node, 6);
        let mut r: Vec<Member<'a>> = Vec::new();
        let mut k: usize = 0;
        while k < ms.len()
            invariant
                self.inv(),
                ms@ == self.tree.slot_list(self.node as int, 6),
                forall|j: int| 0 <= j < ms.len() ==> #[trigger] ms@[j] < self.tree.nodes.len(),
                k <= ms.len(),
                r.len() == k,
                forall|j: int|
                    0 <= j < k ==> (#[trigger] r@[j]).tree == self.tree && r@[j].node == ms@[j]
                        && r@[j].inv(),
            decreases ms.len() - k,
        {
            r.push(Member { tree: self.tree, node: ms[k] });
            k = k + 1;
        }
        r
    }
}

impl<'a> Member<'a> {
    pub open spec fn inv(&self) -> bool {
        self.tree.wf() && self.tree.has(self.node as int)
    }

    pub fn visibility(&self) -> (r: Visibility)
        requires
            self.inv(),
        ensures
            r == slot_visibility(self.tree, self.node as int, 1),
    {
        match self.tree.child(self.node, 1) {
            Some(v) => crate::parsers::parse_visibility(self.tree, v),
            None => Visibility::Default,
        }
    }

    pub fn name(&self) -> (r: String)
        requires
            self.inv(),
        ensures
            r@ == self.tree.slot_text(self.node as int, 2),
    {
        self.tree.child_text(self.node, 2)
    }

    /// The expression after the colon.
    pub fn ty(&self) -> (r: Option<Expression<'a>>)
        requires
            self.inv(),
        ensures
            r == clause_of(self.tree, self.node as int, 3),
    {
        clause_expression(self.tree, self.node, 3)
    }
}

impl<'a> Enum<'a> {
    pub open spec fn inv(&self) -> bool {
        self.tree.wf() && self.tree.has(self.node as int)
    }

    pub fn visibility(&self) -> (r: Visibility)
        requires
            self.inv(),
        ensures
            r == slot_visibility(self.tree, self.node as int, 1),
    {
        match self.tree.child(self.node, 1) {
            Some(v) => crate::parsers::parse_visibility(self.tree, v),
            None => Visibility::Default,
        }
    }

    pub fn name(&self) -> (r: String)
        requires
            self.inv(),
        ensures
            r@ == self.tree.slot_text(self.node as int, 3),
    {
        self.tree.child_text(self.node, 3)
    }

    /// The names of the generic parameters, in declared order.
    pub fn generic_params(&self) -> (r: Vec<String>)
        requires
            self.inv(),
        ensures
            strings(r@) == slot_generic_params(self.tree, self.node as int, 4),
    {
        match self.tree.child(self.node, 4) {
            Some(g) => crate::parsers::parse_generic_params(self.tree, g),
            None => {
                let r: Vec<String> = Vec::new();
                assert(strings(r@) =~= Seq::<Seq<char>>::empty());
                r
            },
        }
    }

    /// The variants, in source order.
    pub fn variants(&self) -> (r: Vec<Variant<'a>>)
        requires
            self.inv(),
        ensures
            r.len() == self.tree.slot_list(self.node as int, 6).len(),
            forall|k: int|
                0 <= k < r.len() ==> (#[trigger] r@[k]).tree == self.tree && r@[k].node
                    == self.tree.slot_list(self.node as int, 6)[k] && r@[k].inv(),
    {
        let vs = self.tree.child_list(self.node, 6);
        let mut r: Vec<Variant<'a>> = Vec::new();
        let mut k: usize = 0;
        while k < vs.len()
            invariant
                self.inv(),
                vs@ == self.tree.slot_list(self.node as int, 6),
                forall|j: int| 0 <= j < vs.len() ==> #[trigger] vs@[j] < self.tree.nodes.len(),
                k <= vs.len(),
                r.len() == k,
                forall|j: int|
                    0 <= j < k ==> (#[trigger] r@[j]).tree == self.tree && r@[j].node == vs@[j]
                        && r@[j].inv(),
            decreases vs.len() - k,
        {
            r.push(Variant { tree: self.tree, node: vs[k] });
            k = k + 1;
        }
        r
    }
}

impl<'a> Variant<'a> {
    pub open spec fn inv(&self) -> bool {
        self.tree.wf() && self.tree.has(self.node as int)
    }

    pub fn name(&self) -> (r: String)
        requires
            self.inv(),
        ensures
            r@ == self.tree.slot_text(self.node as int, 1),
    {
        self.tree.child_text(self.node, 1)
    }

    /// The payload expression; `None` where the variant has no type clause.
    pub fn ty(&self) -> (r: Option<Expression<'a>>)
        requires
            self.inv(),
        ensures
            r == clause_of(self.tree, self.node as int, 2),
    {
        clause_expression(self.tree, self.node, 2)
    }
}

// ---------------------------------------------------------------- reading a declaration

/// The top-level items of a parsed file, in source order.
pub open spec fn items_of(t: &SyntaxTree) -> Seq<usize> {
    match t.slot(0, 0) {
        Some(l) => t.children_of(l as int),
        None => Seq::empty(),
    }
}

/// Why no declaration could be read.
#[derive(Clone, Copy, Debug, PartialEq, Eq, Structural)]
pub enum ReadError {
    /// The text holds no top-level item.
    EmptyInput,
    /// The parser's nodes did not form one tree.
    MalformedTree,
}

/// The first top-level item of a parsed file; `EmptyInput` where the file has none.
pub fn first_item(t: &SyntaxTree) -> (r: Result<usize, ReadError>)
    requires
        t.wf(),
    ensures
        items_of(t).len() == 0 <==> r == Err::<usize, ReadError>(ReadError::EmptyInput),
        items_of(t).len() > 0 ==> r == Ok::<usize, ReadError>(items_of(t)[0]),
{
    match t.child(0, 0) {
        Some(l) => {
            let items = t.children(l);
            if items.len() == 0 {
                Err(ReadError::EmptyInput)
            } else {
                Ok(items[0])
            }
        },
        None => Err(ReadError::EmptyInput),
    }
}

/// The first top-level item of a parsed file, by its kind; `EmptyInput` where the file has
/// none.
pub fn item<'a>(t: &'a SyntaxTree) -> (r: Result<Item<'a>, ReadError>)
    requires
        t.wf(),
    ensures
        items_of(t).len() == 0 ==> r == Err::<Item<'a>, ReadError>(ReadError::EmptyInput),
        items_of(t).len() > 0 ==> r == Ok::<Item<'a>, ReadError>(item_of(t, items_of(t)[0])),
{
    match first_item(t) {
        Ok(i) => {
            proof {
                lemma_items_in_tree(t);
            }
            Ok(Item::new(t, i))
        },
        Err(e) => Err(e),
    }
}

proof fn lemma_items_in_tree(t: &SyntaxTree)
    requires
        t.wf(),
    ensures
        forall|k: int| 0 <= k < items_of(t).len() ==> t.has(#[trigger] items_of(t)[k] as int),
{
    if t.slot(0, 0) is Some {
        let l = t.slot(0, 0)->0;
        t.lemma_child_bounds(0, 0);
        assert forall|k: int| 0 <= k < items_of(t).len() implies t.has(
            #[trigger] items_of(t)[k] as int,
        ) by {
            t.lemma_child_bounds(l as int, k);
        }
    }
}

/// All top-level items of a parsed file, in source order, each by its kind.
pub fn items<'a>(t: &'a SyntaxTree) -> (r: Vec<Item<'a>>)
    requires
        t.wf(),
    ensures
        r.len() == items_of(t).len(),
        forall|k: int| 0 <= k < r.len() ==> #[trigger] r@[k] == item_of(t, items_of(t)[k]),
{
    let mut r: Vec<Item<'a>> = Vec::new();
    let l = match t.child(0, 0) {
        Some(l) => l,
        None => {
            return r;
        },
    };
    proof {
        lemma_items_in_tree(t);
    }
    let nodes = t.children(l);
    let mut k: usize = 0;
    while k < nodes.len()
        invariant
            t.wf(),
            nodes@ == items_of(t),
            forall|j: int| 0 <= j < items_of(t).len() ==> t.has(#[trigger] items_of(t)[j] as int),
            k <= nodes.len(),
            r.len() == k,
            forall|j: int| 0 <= j < k ==> #[trigger] r@[j] == item_of(t, items_of(t)[j]),
        decreases nodes.len() - k,
    {
        r.push(Item::new(t, nodes[k]));
        k = k + 1;
    }
    r
}

/// Whether pre-order child counts, read as a Cairo file, hold a top-level item: the file
/// node has children, and its first child, the item list, has children too.
pub open spec fn file_has_item(counts: Seq<usize>) -> bool {
    &&& counts.len() > 1
    &&& counts[0] > 0
    &&& counts[1] > 0
}

/// A parsed text and its first top-level item, with the diagnostics gathered so far.
pub struct Declaration {
    pub tree: SyntaxTree,
    pub item: usize,
    pub diagnostics: Vec<Diagnostic>,
}

impl Declaration {
    pub open spec fn inv(&self) -> bool {
        &&& self.tree.wf()
        &&& items_of(&self.tree).len() > 0
        &&& self.item == items_of(&self.tree)[0]
    }

    /// The declaration, classified by its kind.
    pub fn item(&self) -> (r: Item<'_>)
        requires
            self.inv(),
        ensures
            r == item_of(&self.tree, self.item),
    {
        proof {
            let l = self.tree.slot(0, 0)->0;
            self.tree.lemma_child_bounds(0, 0);
            self.tree.lemma_child_bounds(l as int, 0);
        }
        Item::new(&self.tree, self.item)
    }

    /// Reads the declaration as a struct, appending its diagnostics after those gathered so far.
    /// Fails with `WrongKind`, appending nothing, where it is not a struct.
    pub fn extract_struct(&mut self) -> (r: Result<CairoStruct, ExtractError>)
        requires
            old(self).inv(),
        ensures
            final(self).tree == old(self).tree,
            final(self).item == old(self).item,
            old(self).tree.kind_of(old(self).item as int) == "ItemStruct"@ ==> (r matches Ok(s)
                && s@ == struct_model(&old(self).tree, old(self).item as int) && views(
                final(self).diagnostics@,
            ) == views(old(self).diagnostics@) + struct_diags(
                &old(self).tree,
                old(self).item as int,
            )),
            old(self).tree.kind_of(old(self).item as int) != "ItemStruct"@ ==> (r
                == Err::<CairoStruct, ExtractError>(ExtractError::WrongKind)
                && final(self).diagnostics@ == old(self).diagnostics@),
    {
        proof {
            let l = self.tree.slot(0, 0)->0;
            self.tree.lemma_child_bounds(0, 0);
            self.tree.lemma_child_bounds(l as int, 0);
        }
        extract_struct(&self.tree, self.item, &mut self.diagnostics)
    }

    /// Reads the declaration as an enum, appending its diagnostics after those gathered so far.
    /// Fails with `WrongKind`, appending nothing, where it is not an enum.
    pub fn extract_enum(&mut self) -> (r: Result<CairoEnum, ExtractError>)
        requires
            old(self).inv(),
        ensures
            final(self).tree == old(self).tree,
            final(self).item == old(self).item,
            old(self).tree.kind_of(old(self).item as int) == "ItemEnum"@ ==> (r matches Ok(e)
                && e@ == enum_model(&old(self).tree, old(self).item as int) && views(
                final(self).diagnostics@,
            ) == views(old(self).diagnostics@) + enum_diags(&old(self).tree, old(self).item as int)),
            old(self).tree.kind_of(old(self).item as int) != "ItemEnum"@ ==> (r
                == Err::<CairoEnum, ExtractError>(ExtractError::WrongKind)
                && final(self).diagnostics@ == old(self).diagnostics@),
    {
        proof {
            let l = self.tree.slot(0, 0)->0;
            self.tree.lemma_child_bounds(0, 0);
            self.tree.lemma_child_bounds(l as int, 0);
        }
        extract_enum(&self.tree, self.item, &mut self.diagnostics)
    }
}

/// Parses `text` and takes its first top-level item as the declaration to read.
///
/// Fails with `MalformedTree` exactly where the parser's nodes do not form one tree, and
/// with `EmptyInput`, before anything is extracted, exactly where they do but the file has no
/// item. Otherwise the declaration holds the parser's nodes one for one, its first item
/// (node 2: the file is node 0 and its item list node 1), and the parser's diagnostics as
/// errors.
pub fn derive_token_stream_to_type(text: &str) -> (r: Result<Declaration, ReadError>)
    ensures
        !describes_one_tree(counts_of(parsed_nodes_of(text@))) ==> r == Err::<
            Declaration,
            ReadError,
        >(ReadError::MalformedTree),
        describes_one_tree(counts_of(parsed_nodes_of(text@))) && !file_has_item(
            counts_of(parsed_nodes_of(text@)),
        ) ==> r == Err::<Declaration, ReadError>(ReadError::EmptyInput),
        describes_one_tree(counts_of(parsed_nodes_of(text@))) && file_has_item(
            counts_of(parsed_nodes_of(text@)),
        ) ==> (r matches Ok(d) && d.inv() && matches_records(d.tree, parsed_nodes_of(text@))
            && d.item == 2 && views(d.diagnostics@) == parser_diagnostic_views(text@)),
{
    let (tree, diagnostics) = match parse_token_stream_to_syntax_file(text) {
        Some(parsed) => parsed,
        None => {
            return Err(ReadError::MalformedTree);
        },
    };
    proof {
        let vs = parsed_nodes_of(text@);
        let cnt = counts_of(vs);
        assert(node_view(tree.nodes@[0]) == vs[0]);
        assert(cnt[0] == vs[0].5);
        if tree.nodes@[0].children.len() > 0 {
            assert(tree.nodes@[0].children@[0] == 1);
            tree.lemma_child_bounds(0, 0);
            assert(node_view(tree.nodes@[1]) == vs[1]);
            assert(cnt[1] == vs[1].5);
            if tree.nodes@[1].children.len() > 0 {
                assert(tree.nodes@[1].children@[0] == 2);
            }
        }
    }
    let item = match first_item(&tree) {
        Ok(i) => i,
        Err(e) => {
            return Err(e);
        },
    };
    Ok(Declaration { tree, item, diagnostics })
}

} // verus!
