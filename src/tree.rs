//! An immutable parse tree held in an arena.
//!
//! Every node is addressed by its index in `SyntaxTree::nodes`. A node records
//! the name of its grammar kind, its byte spans with and without the
//! surrounding trivia, the matching source texts, and the indices of its
//! children in order. Children always come after their parent, so walking
//! towards the leaves always terminates.
use vstd::prelude::*;

verus! {

/// One node of the arena.
pub struct NodeData {
    /// Name of the node's grammar kind, e.g. `ItemStruct` or `ExprPath`.
    pub kind: String,
    /// Byte range of the node, trivia included.
    pub span: (usize, usize),
    /// Byte range of the node without its leading and trailing trivia.
    pub span_without_trivia: (usize, usize),
    /// Source text of `span`.
    pub text: String,
    /// Source text of `span_without_trivia`.
    pub text_without_trivia: String,
    /// Indices of the children, in syntactic order.
    pub children: Vec<usize>,
}

/// A parse tree. Node `0` is the root.
pub struct SyntaxTree {
    pub nodes: Vec<NodeData>,
}

/// The elements of a separated list (`a , b , c`): every other child, starting with the first.
pub open spec fn separated(cs: Seq<usize>) -> Seq<usize> {
    Seq::new(((cs.len() + 1) / 2) as nat, |k: int| cs[2 * k])
}

impl SyntaxTree {
    /// The arena is non-empty and every child index points past its parent and into the arena.
    pub open spec fn wf(&self) -> bool {
        &&& self.nodes.len() > 0
        &&& forall|i: int, j: int|
            0 <= i < self.nodes.len() && 0 <= j < self.nodes@[i].children.len() ==> i
                < #[trigger] self.nodes@[i].children@[j] < self.nodes.len()
    }

    pub open spec fn has(&self, i: int) -> bool {
        0 <= i < self.nodes.len()
    }

    pub open spec fn kind_of(&self, i: int) -> Seq<char> {
        self.nodes@[i].kind@
    }

    pub open spec fn children_of(&self, i: int) -> Seq<usize> {
        self.nodes@[i].children@
    }

    pub open spec fn trimmed_of(&self, i: int) -> Seq<char> {
        self.nodes@[i].text_without_trivia@
    }

    pub open spec fn text_of(&self, i: int) -> Seq<char> {
        self.nodes@[i].text@
    }

    /// The node in child slot `slot` of node `i`; `None` marks a missing node.
    pub open spec fn slot(&self, i: int, slot: int) -> Option<usize> {
        if 0 <= slot < self.children_of(i).len() {
            Some(self.children_of(i)[slot])
        } else {
            None
        }
    }

    /// The trimmed text of the node in a slot, empty where the slot is missing.
    pub open spec fn slot_text(&self, i: int, slot: int) -> Seq<char> {
        match self.slot(i, slot) {
            Some(c) => self.trimmed_of(c as int),
            None => Seq::empty(),
        }
    }

    /// Whether the node in a slot exists and has the given kind.
    pub open spec fn slot_is(&self, i: int, slot: int, kind: Seq<char>) -> bool {
        match self.slot(i, slot) {
            Some(c) => self.kind_of(c as int) == kind,
            None => false,
        }
    }

    /// The elements of the separated list that sits in a slot; empty where it is missing.
    pub open spec fn slot_list(&self, i: int, slot: int) -> Seq<usize> {
        match self.slot(i, slot) {
            Some(l) => separated(self.children_of(l as int)),
            None => Seq::empty(),
        }
    }

    pub proof fn lemma_child_bounds(&self, i: int, j: int)
        requires
            self.wf(),
            self.has(i),
            0 <= j < self.children_of(i).len(),
        ensures
            i < self.children_of(i)[j] < self.nodes.len(),
    {
        assert(i < self.nodes@[i].children@[j] < self.nodes.len());
    }

    pub proof fn lemma_separated_bounds(&self, l: int, k: int)
        requires
            self.wf(),
            self.has(l),
            0 <= k < separated(self.children_of(l)).len(),
        ensures
            l < separated(self.children_of(l))[k] < self.nodes.len(),
    {
        self.lemma_child_bounds(l, 2 * k);
    }

    pub fn node_count(&self) -> (r: usize)
        ensures
            r == self.nodes.len(),
    {
        self.nodes.len()
    }

    /// The name of the node's kind.
    pub fn kind(&self, i: usize) -> (r: &str)
        requires
            self.has(i as int),
        ensures
            r@ == self.kind_of(i as int),
    {
        self.nodes[i].kind.as_str()
    }

    /// Whether node `i` has the named kind.
    pub fn is_kind(&self, i: usize, kind: &str) -> (r: bool)
        requires
            self.has(i as int),
        ensures
            r == (self.kind_of(i as int) == kind@),
    {
        str_eq(self.nodes[i].kind.as_str(), kind)
    }

    pub fn span(&self, i: usize) -> (r: (usize, usize))
        requires
            self.has(i as int),
        ensures
            r == self.nodes@[i as int].span,
    {
        self.nodes[i].span
    }

    pub fn span_without_trivia(&self, i: usize) -> (r: (usize, usize))
        requires
            self.has(i as int),
        ensures
            r == self.nodes@[i as int].span_without_trivia,
    {
        self.nodes[i].span_without_trivia
    }

    pub fn text(&self, i: usize) -> (r: &str)
        requires
            self.has(i as int),
        ensures
            r@ == self.text_of(i as int),
    {
        self.nodes[i].text.as_str()
    }

    pub fn text_without_trivia(&self, i: usize) -> (r: &str)
        requires
            self.has(i as int),
        ensures
            r@ == self.trimmed_of(i as int),
    {
        self.nodes[i].text_without_trivia.as_str()
    }

    pub fn children(&self, i: usize) -> (r: &Vec<usize>)
        requires
            self.has(i as int),
        ensures
            r@ == self.children_of(i as int),
    {
        &self.nodes[i].children
    }

    /// The node in child slot `slot` of node `i`, or `None` where that slot is missing.
    pub fn child(&self, i: usize, slot: usize) -> (r: Option<usize>)
        requires
            self.wf(),
            self.has(i as int),
        ensures
            r == self.slot(i as int, slot as int),
            (r is Some) ==> i < r->0 < self.nodes.len(),
    {
        let cs = &self.nodes[i].children;
        if slot < cs.len() {
            proof {
                self.lemma_child_bounds(i as int, slot as int);
            }
            Some(cs[slot])
        } else {
            None
        }
    }

    /// Whether the node in a child slot exists and has the named kind.
    pub fn child_is(&self, i: usize, slot: usize, kind: &str) -> (r: bool)
        requires
            self.wf(),
            self.has(i as int),
        ensures
            r == self.slot_is(i as int, slot as int, kind@),
    {
        match self.child(i, slot) {
            Some(c) => self.is_kind(c, kind),
            None => false,
        }
    }

    /// The trimmed text of the node in a child slot; empty where the slot is missing.
    pub fn child_text(&self, i: usize, slot: usize) -> (r: String)
        requires
            self.wf(),
            self.has(i as int),
        ensures
            r@ == self.slot_text(i as int, slot as int),
    {
        match self.child(i, slot) {
            Some(c) => self.nodes[c].text_without_trivia.clone(),
            None => String::new(),
        }
    }

    /// The elements of the separated list in a child slot; empty where the slot is missing.
    pub fn child_list(&self, i: usize, slot: usize) -> (r: Vec<usize>)
        requires
            self.wf(),
            self.has(i as int),
        ensures
            r@ == self.slot_list(i as int, slot as int),
            forall|k: int| 0 <= k < r.len() ==> i < #[trigger] r@[k] < self.nodes.len(),
    {
        match self.child(i, slot) {
            Some(l) => {
                let r = self.separated_children(l);
                proof {
                    assert forall|k: int| 0 <= k < r.len() implies i < #[trigger] r@[k]
                        < self.nodes.len() by {
                        self.lemma_separated_bounds(l as int, k);
                    }
                }
                r
            },
            None => Vec::new(),
        }
    }

    /// The elements of a separated list node.
    pub fn separated_children(&self, l: usize) -> (r: Vec<usize>)
        requires
            self.wf(),
            self.has(l as int),
        ensures
            r@ == separated(self.children_of(l as int)),
            forall|k: int| 0 <= k < r.len() ==> l < #[trigger] r@[k] < self.nodes.len(),
    {
        let cs = &self.nodes[l].children;
        let mut r: Vec<usize> = Vec::new();
        if cs.len() == 0 {
            assert(r@ =~= separated(cs@));
            return r;
        }
        let mut j: usize = 0;
        loop
            invariant_except_break
                r.len() == j / 2,
            invariant
                self.wf(),
                self.has(l as int),
                cs@ == self.children_of(l as int),
                j % 2 == 0,
                j < cs.len(),
                r.len() <= j / 2 + 1,
                forall|k: int| 0 <= k < r.len() ==> r@[k] == cs@[2 * k],
                forall|k: int| 0 <= k < r.len() ==> l < #[trigger] r@[k] < self.nodes.len(),
            ensures
                r.len() == (cs.len() + 1) / 2,
                forall|k: int| 0 <= k < r.len() ==> r@[k] == cs@[2 * k],
                forall|k: int| 0 <= k < r.len() ==> l < #[trigger] r@[k] < self.nodes.len(),
            decreases cs.len() - j,
        {
            proof {
                self.lemma_child_bounds(l as int, j as int);
            }
            r.push(cs[j]);
            if cs.len() - j <= 2 {
                break;
            }
            j = j + 2;
        }
        assert(r@ =~= separated(cs@));
        r
    }
}

/// Character-wise equality of two strings.
pub fn str_eq(a: &str, b: &str) -> (r: bool)
    ensures
        r == (a@ == b@),
{
    let n = a.unicode_len();
    if n != b.unicode_len() {
        return false;
    }
    let mut i: usize = 0;
    while i < n
        invariant
            n == a@.len(),
            n == b@.len(),
            i <= n,
            forall|k: int| 0 <= k < i ==> a@[k] == b@[k],
        decreases n - i,
    {
        if a.get_char(i) != b.get_char(i) {
            return false;
        }
        i = i + 1;
    }
    assert(a@ =~= b@);
    true
}

} // verus!
