//! Parsing source text with the Cairo parser and copying its tree into a [`SyntaxTree`].
use vstd::prelude::*;

use crate::diagnostic::{views, Diagnostic, DiagnosticView, Severity};
use crate::tree::{NodeData, SyntaxTree};
use cairo_lang_diagnostics::DiagnosticEntry;
use cairo_lang_filesystem::span::TextSpan;
use cairo_lang_parser::utils::SimpleParserDatabase;
use cairo_lang_syntax::node::db::SyntaxGroup;

verus! {

/// The nodes of the Cairo parser's tree for a text, in pre-order: for each, the name of its
/// kind, its span, its span without trivia, its text, its text without trivia and its number
/// of children.
pub uninterp spec fn parsed_nodes_of(text: Seq<char>) -> Seq<
    (Seq<char>, (usize, usize), (usize, usize), Seq<char>, Seq<char>, usize),
>;

/// The Cairo parser's diagnostics for a text, in order: where each starts and what it says.
pub uninterp spec fn parser_diagnostics_of(text: Seq<char>) -> Seq<(usize, Seq<char>)>;

/// Relies on `SimpleParserDatabase::parse_virtual_with_diagnostics`, `SyntaxNode::descendants`
/// (pre-order) and, for each node, `kind` with the `Display` of `SyntaxKind`, `span`,
/// `span_without_trivia`, `get_text`, `get_text_without_trivia` and
/// `SyntaxGroup::get_children`.
#[verifier::external_body]
fn parse_nodes(text: &str) -> (r: Vec<NodeRecord>)
    ensures
        records_view(r@) == parsed_nodes_of(text@),
{
    let db = SimpleParserDatabase::default();
    let (root, _) = db.parse_virtual_with_diagnostics(text);
    let offsets = |s: TextSpan| (s.start.as_u32() as usize, s.end.as_u32() as usize);
    root.descendants(&db).map(|n| NodeRecord {
        kind: n.kind(&db).to_string(),
        span: offsets(n.span(&db)),
        span_without_trivia: offsets(n.span_without_trivia(&db)),
        text: n.get_text(&db),
        text_without_trivia: n.clone().get_text_without_trivia(&db),
        child_count: db.get_children(n.clone()).len(),
    }).collect()
}

/// Relies on `SimpleParserDatabase::parse_virtual_with_diagnostics`, `Diagnostics::get_all`,
/// and the `span` field and `DiagnosticEntry::format` of each parser diagnostic.
#[verifier::external_body]
fn parse_diagnostics(text: &str) -> (r: Vec<(usize, String)>)
    ensures
        diagnostic_entries(r@) == parser_diagnostics_of(text@),
{
    let db = SimpleParserDatabase::default();
    let (_, diagnostics) = db.parse_virtual_with_diagnostics(text);
    diagnostics.get_all().iter().map(|d| (d.span.start.as_u32() as usize, d.format(&db))).collect()
}

/// The values of diagnostic entries.
pub open spec fn diagnostic_entries(es: Seq<(usize, String)>) -> Seq<(usize, Seq<char>)> {
    es.map_values(|e: (usize, String)| (e.0, e.1@))
}

/// The parser's diagnostics for a text, each as an error.
pub open spec fn parser_diagnostic_views(text: Seq<char>) -> Seq<DiagnosticView> {
    parser_diagnostics_of(text).map_values(
        |e: (usize, Seq<char>)|
            DiagnosticView { position: e.0 as nat, message: e.1, severity: Severity::Error },
    )
}

/// What the parser tells of one node, before the tree is assembled.
pub struct NodeRecord {
    pub kind: String,
    pub span: (usize, usize),
    pub span_without_trivia: (usize, usize),
    pub text: String,
    pub text_without_trivia: String,
    pub child_count: usize,
}

/// Whether a node of the arena holds what its record says.
pub open spec fn node_matches(n: NodeData, rec: NodeRecord) -> bool {
    &&& n.kind == rec.kind
    &&& n.span == rec.span
    &&& n.span_without_trivia == rec.span_without_trivia
    &&& n.text == rec.text
    &&& n.text_without_trivia == rec.text_without_trivia
    &&& n.children.len() == rec.child_count
}

/// The values of a record.
pub open spec fn record_view(r: NodeRecord) -> (
    Seq<char>,
    (usize, usize),
    (usize, usize),
    Seq<char>,
    Seq<char>,
    usize,
) {
    (r.kind@, r.span, r.span_without_trivia, r.text@, r.text_without_trivia@, r.child_count)
}

pub open spec fn records_view(rs: Seq<NodeRecord>) -> Seq<
    (Seq<char>, (usize, usize), (usize, usize), Seq<char>, Seq<char>, usize),
> {
    rs.map_values(|r: NodeRecord| record_view(r))
}

/// The values of an arena node, in the form of a record.
pub open spec fn node_view(n: NodeData) -> (
    Seq<char>,
    (usize, usize),
    (usize, usize),
    Seq<char>,
    Seq<char>,
    usize,
) {
    (
        n.kind@,
        n.span,
        n.span_without_trivia,
        n.text@,
        n.text_without_trivia@,
        n.children.len() as usize,
    )
}

/// The numbers of children of a list of records.
pub open spec fn counts_of(
    vs: Seq<(Seq<char>, (usize, usize), (usize, usize), Seq<char>, Seq<char>, usize)>,
) -> Seq<usize> {
    vs.map_values(|v: (Seq<char>, (usize, usize), (usize, usize), Seq<char>, Seq<char>, usize)| v.5)
}

/// Whether tree `t` holds exactly the given records, node by node in pre-order: each node
/// with its record's values, and the first child of a node right after it.
pub open spec fn matches_records(
    t: SyntaxTree,
    vs: Seq<(Seq<char>, (usize, usize), (usize, usize), Seq<char>, Seq<char>, usize)>,
) -> bool {
    &&& t.wf()
    &&& t.nodes.len() == vs.len()
    &&& forall|k: int| 0 <= k < vs.len() ==> node_view(#[trigger] t.nodes@[k]) == vs[k]
    &&& forall|k: int|
        0 <= k < vs.len() && t.nodes@[k].children.len() > 0 ==> #[trigger] t.nodes@[k].children@[0]
            == k + 1
}

/// Whether the children of node `i` lie past it and inside an arena of `n` nodes, the first
/// one right after it.
pub open spec fn children_within(nd: NodeData, i: int, n: int) -> bool {
    &&& forall|j: int| 0 <= j < nd.children.len() ==> i < #[trigger] nd.children@[j] < n
    &&& nd.children.len() > 0 ==> nd.children@[0] == i + 1
}

/// The number of complete subtrees that nodes `i..` form when read in pre-order, given the
/// number of children of each node.
pub open spec fn subtrees_from(counts: Seq<usize>, i: int) -> int
    decreases counts.len() - i,
{
    if i >= counts.len() || i < 0 {
        0
    } else {
        subtrees_from(counts, i + 1) - counts[i] + 1
    }
}

/// Whether child counts listed in pre-order describe exactly one tree: each node finds its
/// children among the subtrees that follow it, and one subtree remains.
pub open spec fn describes_one_tree(counts: Seq<usize>) -> bool {
    &&& counts.len() > 0
    &&& forall|i: int| 0 <= i < counts.len() ==> #[trigger] counts[i] <= subtrees_from(counts, i + 1)
    &&& subtrees_from(counts, 0) == 1
}

/// Assembles a tree from records listed in pre-order, each with its number of children.
///
/// Returns `None` exactly where the counts do not describe one tree in pre-order.
pub fn tree_from_preorder(records: Vec<NodeRecord>) -> (r: Option<SyntaxTree>)
    ensures
        (r is Some) <==> describes_one_tree(counts_of(records_view(records@))),
        (r is Some) ==> matches_records(r->0, records_view(records@)),
        records.len() == 0 ==> r is None,
{
    let ghost orig = records@;
    let ghost cs = counts_of(records_view(orig));
    let n = records.len();
    if n == 0 {
        return None;
    }
    let mut pending = records;
    let mut rev: Vec<NodeData> = Vec::new();
    let mut stack: Vec<usize> = Vec::new();
    while pending.len() > 0
        invariant
            orig == records@,
            n == orig.len(),
            pending.len() + rev.len() == n,
            pending@ == orig.take(pending.len() as int),
            forall|k: int|
                0 <= k < rev.len() ==> node_matches(#[trigger] rev@[k], orig[n - 1 - k]),
            forall|k: int| 0 <= k < rev.len() ==> children_within(#[trigger] rev@[k], n - 1 - k, n as int),
            forall|k: int| 0 <= k < stack.len() ==> pending.len() <= #[trigger] stack@[k] < n,
            cs == counts_of(records_view(orig)),
            cs.len() == n,
            forall|i: int| 0 <= i < n ==> #[trigger] cs[i] == orig[i].child_count,
            stack.len() == subtrees_from(cs, pending.len() as int),
            stack.len() > 0 ==> stack@[stack.len() - 1] == pending.len(),
            forall|i: int|
                pending.len() <= i < n ==> #[trigger] cs[i] <= subtrees_from(cs, i + 1),
        decreases pending.len(),
    {
        let rec = pending.pop().unwrap();
        let i = pending.len();
        assert(rec == orig[i as int]);
        if rec.child_count > stack.len() {
            assert(cs[i as int] > subtrees_from(cs, i + 1));
            assert(!describes_one_tree(cs));
            return None;
        }
        let mut kids: Vec<usize> = Vec::new();
        let mut j: usize = 0;
        let ghost h = stack.len();
        while j < rec.child_count
            invariant
                stack.len() + j == h,
                kids.len() == j,
                j <= rec.child_count,
                rec.child_count <= stack.len() + j,
                forall|k: int| 0 <= k < stack.len() ==> i < #[trigger] stack@[k] < n,
                forall|k: int| 0 <= k < kids.len() ==> i < #[trigger] kids@[k] < n,
                j == 0 ==> (stack.len() > 0 ==> stack@[stack.len() - 1] == i + 1),
                j > 0 ==> kids@[0] == i + 1,
            decreases rec.child_count - j,
        {
            let c = stack.pop().unwrap();
            kids.push(c);
            j = j + 1;
        }
        let nd = NodeData {
            kind: rec.kind,
            span: rec.span,
            span_without_trivia: rec.span_without_trivia,
            text: rec.text,
            text_without_trivia: rec.text_without_trivia,
            children: kids,
        };
        assert(children_within(nd, i as int, n as int));
        rev.push(nd);
        stack.push(i);
    }
    if stack.len() != 1 {
        return None;
    }
    assert(describes_one_tree(cs));
    let ghost all = rev@;
    let mut nodes: Vec<NodeData> = Vec::new();
    while rev.len() > 0
        invariant
            n == orig.len(),
            all.len() == n,
            nodes.len() + rev.len() == n,
            rev@ == all.take(rev.len() as int),
            forall|k: int| 0 <= k < n ==> node_matches(#[trigger] all[k], orig[n - 1 - k]),
            forall|k: int| 0 <= k < n ==> children_within(#[trigger] all[k], n - 1 - k, n as int),
            forall|k: int| 0 <= k < nodes.len() ==> #[trigger] nodes@[k] == all[n - 1 - k],
        decreases rev.len(),
    {
        let x = rev.pop().unwrap();
        nodes.push(x);
    }
    let t = SyntaxTree { nodes };
    assert forall|k: int| 0 <= k < n implies node_matches(#[trigger] t.nodes@[k], orig[k]) by {
        assert(t.nodes@[k] == all[n - 1 - k]);
        assert(n - 1 - (n - 1 - k) == k);
    }
    assert forall|i: int, j: int|
        0 <= i < t.nodes.len() && 0 <= j < t.nodes@[i].children.len() implies i
            < #[trigger] t.nodes@[i].children@[j] < t.nodes.len() by {
        assert(t.nodes@[i] == all[n - 1 - i]);
        assert(children_within(all[n - 1 - i], n - 1 - (n - 1 - i), n as int));
    }
    let ghost vs = records_view(orig);
    assert forall|k: int| 0 <= k < n implies node_view(#[trigger] t.nodes@[k]) == vs[k] by {
        assert(node_matches(t.nodes@[k], orig[k]));
    }
    assert forall|k: int|
        0 <= k < n && t.nodes@[k].children.len() > 0 implies #[trigger] t.nodes@[k].children@[0]
        == k + 1 by {
        assert(t.nodes@[k] == all[n - 1 - k]);
        assert(children_within(all[n - 1 - k], n - 1 - (n - 1 - k), n as int));
    }
    Some(t)
}

/// Parses `text` with the Cairo parser and copies the resulting tree into an arena.
///
/// Returns `None` exactly where the parser's nodes do not form one tree. Otherwise returns
/// the tree, holding the parser's nodes one for one, and the parser's diagnostics, each as
/// an error at the offset where it starts.
pub fn parse_token_stream_to_syntax_file(text: &str) -> (r: Option<(SyntaxTree, Vec<Diagnostic>)>)
    ensures
        match r {
            Some((tree, diagnostics)) => {
                &&& describes_one_tree(counts_of(parsed_nodes_of(text@)))
                &&& matches_records(tree, parsed_nodes_of(text@))
                &&& views(diagnostics@) == parser_diagnostic_views(text@)
            },
            None => !describes_one_tree(counts_of(parsed_nodes_of(text@))),
        },
{
    let records = parse_nodes(text);
    let tree = match tree_from_preorder(records) {
        Some(t) => t,
        None => {
            return None;
        },
    };
    let entries = parse_diagnostics(text);
    let ghost pd = parser_diagnostic_views(text@);
    let mut diagnostics: Vec<Diagnostic> = Vec::new();
    let mut k: usize = 0;
    while k < entries.len()
        invariant
            pd == parser_diagnostic_views(text@),
            diagnostic_entries(entries@) == parser_diagnostics_of(text@),
            pd.len() == entries.len(),
            k <= entries.len(),
            diagnostics.len() == k,
            forall|m: int| 0 <= m < k ==> (#[trigger] diagnostics@[m])@ == pd[m],
        decreases entries.len() - k,
    {
        let position = entries[k].0;
        let message = entries[k].1.clone();
        proof {
            assert(diagnostic_entries(entries@)[k as int] == (position, message@));
        }
        diagnostics.push(Diagnostic { position, message, severity: Severity::Error });
        k = k + 1;
    }
    assert(views(diagnostics@) =~= pd);
    Some((tree, diagnostics))
}

} // verus!
