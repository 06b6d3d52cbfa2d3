//! Syntax trees held in an arena, and the offset-driven search for the node
//! under a cursor.

use vstd::prelude::*;

verus! {

/// One node of a parsed text. Links are indices into the arena that holds
/// the node.
#[derive(Clone, Debug)]
pub struct SyntaxNode {
    pub kind: String,
    pub named: bool,
    pub start_byte: usize,
    pub end_byte: usize,
    pub parent: Option<usize>,
    pub first_child: Option<usize>,
    pub next_sibling: Option<usize>,
}

/// A parsed text: its nodes in document order, the root first.
#[derive(Clone, Debug)]
pub struct SyntaxTree {
    pub nodes: Vec<SyntaxNode>,
}

/// Whether `kind` is one of `kinds`.
pub open spec fn kind_listed(kinds: Seq<Seq<char>>, kind: Seq<char>) -> bool {
    kinds.contains(kind)
}

/// The texts of a list of strings.
pub open spec fn texts(names: Seq<String>) -> Seq<Seq<char>> {
    Seq::new(names.len(), |k: int| names[k]@)
}

impl SyntaxTree {
    /// The links of node `i` point to later nodes of the arena.
    pub open spec fn links_forward(&self, i: usize) -> bool {
        &&& i < self.nodes@.len()
        &&& (self.nodes@[i as int].first_child matches Some(c) ==> i < c < self.nodes@.len())
        &&& (self.nodes@[i as int].next_sibling matches Some(s) ==> i < s < self.nodes@.len())
    }

    /// Node `i` agrees with its neighbours: it lies inside its parent, its
    /// first child names it as parent, and its next sibling shares its
    /// parent and starts no earlier than it ends.
    pub open spec fn placed(&self, i: usize) -> bool {
        let n = self.nodes@[i as int];
        &&& self.links_forward(i)
        &&& n.start_byte <= n.end_byte
        &&& (n.first_child matches Some(c) ==> self.nodes@[c as int].parent == Some(i))
        &&& (n.next_sibling matches Some(s) ==> self.nodes@[s as int].parent == n.parent
            && n.end_byte <= self.nodes@[s as int].start_byte)
        &&& (n.parent matches Some(p) ==> p < i && self.nodes@[p as int].start_byte
            <= n.start_byte && n.end_byte <= self.nodes@[p as int].end_byte)
    }

    /// Every node is placed: the arena is a tree whose spans nest and whose
    /// siblings follow each other in the text.
    pub open spec fn laid_out(&self) -> bool {
        forall|i: usize| i < self.nodes@.len() ==> #[trigger] self.placed(i)
    }

    /// The span of node `i` holds `offset`, both ends included.
    pub open spec fn covers(&self, i: usize, offset: usize) -> bool {
        self.nodes@[i as int].start_byte <= offset <= self.nodes@[i as int].end_byte
    }

    /// The node that the search from `at` arrives at. A node that covers
    /// `offset` is the answer if its kind is listed, and is otherwise left
    /// for its first child; one that does not is left for its next sibling,
    /// which the node where the search began (`top`) does not have.
    pub open spec fn locate(&self, at: usize, top: bool, offset: usize, kinds: Seq<Seq<char>>)
        -> Option<usize>
        decreases self.nodes@.len() - at,
    {
        if !self.links_forward(at) {
            None
        } else if self.covers(at, offset) {
            if kind_listed(kinds, self.nodes@[at as int].kind@) {
                Some(at)
            } else {
                match self.nodes@[at as int].first_child {
                    Some(c) => self.locate(c, false, offset, kinds),
                    None => None,
                }
            }
        } else if top {
            None
        } else {
            match self.nodes@[at as int].next_sibling {
                Some(s) => self.locate(s, false, offset, kinds),
                None => None,
            }
        }
    }

    /// `n` is node `i`, one of its later siblings, or a descendant of any
    /// of these.
    pub open spec fn in_forest(&self, i: usize, n: usize) -> bool
        decreases self.nodes@.len() - i,
    {
        if !self.links_forward(i) {
            false
        } else {
            ||| i == n
            ||| (self.nodes@[i as int].first_child matches Some(c) && self.in_forest(c, n))
            ||| (self.nodes@[i as int].next_sibling matches Some(s) && self.in_forest(s, n))
        }
    }

    /// `n` is node `r` or one of its descendants.
    pub open spec fn in_subtree(&self, r: usize, n: usize) -> bool {
        &&& self.links_forward(r)
        &&& (r == n || (self.nodes@[r as int].first_child matches Some(c) && self.in_forest(
            c,
            n,
        )))
    }

    /// The first named child of node `i`, searched from child `at` on.
    pub open spec fn named_from(&self, at: usize) -> Option<usize>
        decreases self.nodes@.len() - at,
    {
        if !self.links_forward(at) {
            None
        } else if self.nodes@[at as int].named {
            Some(at)
        } else {
            match self.nodes@[at as int].next_sibling {
                Some(s) => self.named_from(s),
                None => None,
            }
        }
    }

    /// The first named child of node `i`.
    pub open spec fn first_named_child(&self, i: usize) -> Option<usize> {
        if !self.links_forward(i) {
            None
        } else {
            match self.nodes@[i as int].first_child {
                Some(c) => self.named_from(c),
                None => None,
            }
        }
    }

    /// Whether the links of node `i` point forward.
    pub fn has_forward_links(&self, i: usize) -> (r: bool)
        ensures
            r == self.links_forward(i),
    {
        if i >= self.nodes.len() {
            return false;
        }
        let node = &self.nodes[i];
        let child_ok = match node.first_child {
            Some(c) => i < c && c < self.nodes.len(),
            None => true,
        };
        let sibling_ok = match node.next_sibling {
            Some(s) => i < s && s < self.nodes.len(),
            None => true,
        };
        child_ok && sibling_ok
    }

    /// Whether node `i` agrees with its neighbours.
    pub fn is_placed(&self, i: usize) -> (r: bool)
        ensures
            r == (i < self.nodes@.len() && self.placed(i)),
    {
        if !self.has_forward_links(i) {
            return false;
        }
        let node = &self.nodes[i];
        let child_ok = match node.first_child {
            Some(c) => match self.nodes[c].parent {
                Some(p) => p == i,
                None => false,
            },
            None => true,
        };
        let sibling_ok = match node.next_sibling {
            Some(s) => {
                let same = match (self.nodes[s].parent, node.parent) {
                    (Some(a), Some(b)) => a == b,
                    (None, None) => true,
                    _ => false,
                };
                same && node.end_byte <= self.nodes[s].start_byte
            },
            None => true,
        };
        let parent_ok = match node.parent {
            Some(p) => p < i && self.nodes[p].start_byte <= node.start_byte && node.end_byte
                <= self.nodes[p].end_byte,
            None => true,
        };
        node.start_byte <= node.end_byte && child_ok && sibling_ok && parent_ok
    }

    /// Whether the arena is a tree whose spans nest and whose siblings
    /// follow each other in the text.
    pub fn is_laid_out(&self) -> (r: bool)
        ensures
            r == self.laid_out(),
    {
        let mut i: usize = 0;
        while i < self.nodes.len()
            invariant
                forall|j: usize| j < i ==> #[trigger] self.placed(j),
            decreases self.nodes@.len() - i,
        {
            if !self.is_placed(i) {
                return false;
            }
            i = i + 1;
        }
        true
    }

    /// Finds the first named child of node `i`.
    pub fn named_child(&self, i: usize) -> (r: Option<usize>)
        ensures
            r == self.first_named_child(i),
            r matches Some(c) ==> c < self.nodes@.len(),
    {
        if !self.has_forward_links(i) {
            return None;
        }
        let mut at: usize = match self.nodes[i].first_child {
            Some(c) => c,
            None => {
                return None;
            },
        };
        loop
            invariant
                self.named_from(at) == self.first_named_child(i),
            decreases self.nodes@.len() - at,
        {
            if !self.has_forward_links(at) {
                return None;
            }
            if self.nodes[at].named {
                return Some(at);
            }
            match self.nodes[at].next_sibling {
                Some(s) => {
                    at = s;
                },
                None => {
                    return None;
                },
            }
        }
    }
}

/// Whether `kind` is one of `kinds`.
pub fn is_listed(kinds: &Vec<String>, kind: &String) -> (r: bool)
    ensures
        r == kind_listed(texts(kinds@), kind@),
{
    let mut k: usize = 0;
    while k < kinds.len()
        invariant
            k <= kinds@.len(),
            forall|j: int| 0 <= j < k ==> (#[trigger] kinds@[j])@ != kind@,
        decreases kinds@.len() - k,
    {
        if kinds[k] == *kind {
            assert(texts(kinds@)[k as int] == kind@);
            return true;
        }
        k = k + 1;
    }
    false
}

/// Finds the node under `offset`, beginning at `root`: the first node on
/// the way down whose kind is listed. `None` if the way ends before one
/// is met.
pub fn find_node(
    tree: &SyntaxTree,
    root: usize,
    offset: usize,
    kinds: &Vec<String>,
) -> (found: Option<usize>)
    ensures
        found == tree.locate(root, true, offset, texts(kinds@)),
        found matches Some(n) ==> n < tree.nodes@.len() && tree.covers(n, offset) && kind_listed(
            texts(kinds@),
            tree.nodes@[n as int].kind@,
        ),
{
    let mut at: usize = root;
    let mut top: bool = true;
    loop
        invariant
            tree.locate(at, top, offset, texts(kinds@)) == tree.locate(
                root,
                true,
                offset,
                texts(kinds@),
            ),
        decreases tree.nodes@.len() - at,
    {
        if !tree.has_forward_links(at) {
            return None;
        }
        let node = &tree.nodes[at];
        if node.start_byte <= offset && offset <= node.end_byte {
            if is_listed(kinds, &node.kind) {
                return Some(at);
            }
            match node.first_child {
                Some(c) => {
                    at = c;
                    top = false;
                },
                None => {
                    return None;
                },
            }
        } else {
            if top {
                return None;
            }
            match node.next_sibling {
                Some(s) => {
                    at = s;
                },
                None => {
                    return None;
                },
            }
        }
    }
}

/// In a laid-out tree, a node reached through the forest at `i` starts no
/// earlier than `i`, and lies inside the parent of `i`.
proof fn lemma_forest_bounds(tree: &SyntaxTree, i: usize, n: usize)
    requires
        tree.laid_out(),
        tree.in_forest(i, n),
    ensures
        n < tree.nodes@.len(),
        tree.nodes@[i as int].start_byte <= tree.nodes@[n as int].start_byte,
        tree.nodes@[i as int].parent matches Some(p) ==> p < tree.nodes@.len()
            && tree.nodes@[p as int].start_byte <= tree.nodes@[n as int].start_byte
            && tree.nodes@[n as int].end_byte <= tree.nodes@[p as int].end_byte,
    decreases tree.nodes@.len() - i,
{
    assert(tree.placed(i));
    if i != n {
        let node = tree.nodes@[i as int];
        if node.first_child is Some && tree.in_forest(node.first_child->Some_0, n) {
            let c = node.first_child->Some_0;
            assert(tree.placed(c));
            lemma_forest_bounds(tree, c, n);
        } else {
            let s = node.next_sibling->Some_0;
            assert(tree.placed(s));
            lemma_forest_bounds(tree, s, n);
        }
    }
}

/// In a laid-out tree, the span of a node lies inside the span of each of
/// its ancestors.
pub proof fn lemma_subtree_bounds(tree: &SyntaxTree, r: usize, n: usize)
    requires
        tree.laid_out(),
        tree.in_subtree(r, n),
    ensures
        n < tree.nodes@.len(),
        tree.nodes@[r as int].start_byte <= tree.nodes@[n as int].start_byte,
        tree.nodes@[n as int].end_byte <= tree.nodes@[r as int].end_byte,
{
    assert(tree.placed(r));
    if r != n {
        let c = tree.nodes@[r as int].first_child->Some_0;
        assert(tree.placed(c));
        lemma_forest_bounds(tree, c, n);
    }
}

proof fn lemma_locate_reaches(
    tree: &SyntaxTree,
    i: usize,
    top: bool,
    n: usize,
    offset: usize,
    kinds: Seq<Seq<char>>,
)
    requires
        tree.laid_out(),
        if top {
            tree.in_subtree(i, n)
        } else {
            tree.in_forest(i, n)
        },
        n < tree.nodes@.len(),
        kind_listed(kinds, tree.nodes@[n as int].kind@),
        tree.nodes@[n as int].start_byte < offset < tree.nodes@[n as int].end_byte,
        forall|m: usize| #[trigger] tree.in_subtree(m, n) && m != n ==> !kind_listed(
            kinds,
            tree.nodes@[m as int].kind@,
        ),
    ensures
        tree.locate(i, top, offset, kinds) == Some(n),
    decreases tree.nodes@.len() - i,
{
    assert(tree.placed(i));
    if i != n {
        let node = tree.nodes@[i as int];
        if node.first_child is Some && tree.in_forest(node.first_child->Some_0, n) {
            let c = node.first_child->Some_0;
            assert(tree.in_subtree(i, n));
            lemma_subtree_bounds(tree, i, n);
            lemma_locate_reaches(tree, c, false, n, offset, kinds);
        } else {
            let s = node.next_sibling->Some_0;
            assert(tree.placed(s));
            lemma_forest_bounds(tree, s, n);
            lemma_locate_reaches(tree, s, false, n, offset, kinds);
        }
    }
}

/// In a laid-out tree, the search from `root` for an offset strictly inside
/// the span of a listed node `n` below `root` returns `n` itself, provided
/// that no ancestor of `n` has a listed kind too.
pub proof fn lemma_find_inside_span(
    tree: &SyntaxTree,
    root: usize,
    n: usize,
    offset: usize,
    kinds: Seq<Seq<char>>,
)
    requires
        tree.laid_out(),
        tree.in_subtree(root, n),
        kind_listed(kinds, tree.nodes@[n as int].kind@),
        tree.nodes@[n as int].start_byte < offset < tree.nodes@[n as int].end_byte,
        forall|m: usize| #[trigger] tree.in_subtree(m, n) && m != n ==> !kind_listed(
            kinds,
            tree.nodes@[m as int].kind@,
        ),
    ensures
        tree.locate(root, true, offset, kinds) == Some(n),
{
    lemma_subtree_bounds(tree, root, n);
    lemma_locate_reaches(tree, root, true, n, offset, kinds);
}

/// What the search from `at` finds stands below `at`: in its subtree where
/// the search began there, else in the forest that begins there.
pub proof fn lemma_found_below(
    tree: &SyntaxTree,
    at: usize,
    top: bool,
    offset: usize,
    kinds: Seq<Seq<char>>,
)
    ensures
        tree.locate(at, top, offset, kinds) matches Some(n) ==> n < tree.nodes@.len()
            && tree.covers(n, offset) && kind_listed(kinds, tree.nodes@[n as int].kind@) && (if top {
            tree.in_subtree(at, n)
        } else {
            tree.in_forest(at, n)
        }),
    decreases tree.nodes@.len() - at,
{
    if tree.links_forward(at) {
        if tree.covers(at, offset) {
            if !kind_listed(kinds, tree.nodes@[at as int].kind@) {
                if let Some(c) = tree.nodes@[at as int].first_child {
                    lemma_found_below(tree, c, false, offset, kinds);
                }
            }
        } else if !top {
            if let Some(s) = tree.nodes@[at as int].next_sibling {
                lemma_found_below(tree, s, false, offset, kinds);
            }
        }
    }
}

/// The search for an offset that no node's span holds finds nothing.
pub proof fn lemma_find_outside_spans(
    tree: &SyntaxTree,
    root: usize,
    offset: usize,
    kinds: Seq<Seq<char>>,
)
    requires
        forall|i: usize| i < tree.nodes@.len() ==> !#[trigger] tree.covers(i, offset),
    ensures
        tree.locate(root, true, offset, kinds) is None,
{
}

} // verus!
