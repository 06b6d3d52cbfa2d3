//! Parsing templates with `tree_sitter`: the nodes of a parse as plain rows,
//! the arena linked from them, and the document record that pairs a text
//! with its tree.

use vstd::prelude::*;
use crate::syntax::{SyntaxNode, SyntaxTree};
use crate::text::TextBuffer;
use tree_sitter::{Parser, Query, QueryCursor};

verus! {

/// One node of a parsed template as plain values: what it is, the bytes it
/// spans, and how many ancestors it has.
#[derive(Clone, Debug, PartialEq, Eq)]
pub struct NodeRow {
    pub kind: String,
    pub named: bool,
    pub start_byte: usize,
    pub end_byte: usize,
    pub depth: usize,
}

/// What a row says.
pub ghost struct RowModel {
    pub kind: Seq<char>,
    pub named: bool,
    pub start_byte: usize,
    pub end_byte: usize,
    pub depth: usize,
}

impl View for NodeRow {
    type V = RowModel;

    open spec fn view(&self) -> RowModel {
        RowModel {
            kind: self.kind@,
            named: self.named,
            start_byte: self.start_byte,
            end_byte: self.end_byte,
            depth: self.depth,
        }
    }
}

/// What a list of rows says.
pub open spec fn row_models(rows: Seq<NodeRow>) -> Seq<RowModel> {
    Seq::new(rows.len(), |k: int| rows[k]@)
}

/// The query pattern that matches every node, named or not.
pub const EVERY_NODE: &'static str = "_ @node";

/// What the pattern that matches every node finds in the parse of the
/// template `text`, in the order found: of each node what it is, the bytes
/// it spans and the number of its ancestors. `None` where the template
/// parser gives no tree.
pub uninterp spec fn template_rows(text: Seq<char>) -> Option<Seq<RowModel>>;

/// `Parser::new`, `Parser::set_language` with the grammar of
/// `tree_sitter_html::language`, and `Parser::parse` without an earlier
/// tree; then `Query::new` on the pattern that matches every node and
/// `QueryCursor::matches` from `Tree::root_node`, with the getters of
/// `Node` and a count of `Node::parent` steps: every node of the parse as
/// plain values, a function of the text alone.
#[verifier::external_body]
pub(crate) fn parse_template(pattern: &str, text: &str) -> (rows: Option<Vec<NodeRow>>)
    requires
        pattern@ == EVERY_NODE@,
    ensures
        rows is Some == template_rows(text@) is Some,
        rows matches Some(r) ==> template_rows(text@) == Some(row_models(r@)),
{
    let language = tree_sitter_html::language();
    let mut parser = Parser::new();
    parser.set_language(language).ok()?;
    let tree = parser.parse(text, None)?;
    let query = Query::new(language, pattern).ok()?;
    let mut cursor = QueryCursor::new();
    Some(cursor.matches(&query, tree.root_node(), text.as_bytes()).map(|m| m.captures[0].node).map(|n| NodeRow {
        kind: String::from(n.kind()), named: n.is_named(), start_byte: n.start_byte(), end_byte: n.end_byte(),
        depth: std::iter::successors(n.parent(), |p| p.parent()).count(),
    }).collect())
}

/// The parent of row `i`, searched from row `j` backwards: the nearest
/// earlier row that lies less deep.
pub open spec fn parent_from(rows: Seq<RowModel>, i: int, j: int) -> Option<usize>
    decreases j + 1,
{
    if j < 0 || j >= i || i >= rows.len() {
        None
    } else if rows[j].depth < rows[i].depth {
        Some(j as usize)
    } else {
        parent_from(rows, i, j - 1)
    }
}

/// The first child of row `i`: the next row, where it lies deeper.
pub open spec fn first_child_of(rows: Seq<RowModel>, i: int) -> Option<usize> {
    if 0 <= i && i + 1 < rows.len() && rows[i + 1].depth > rows[i].depth {
        Some((i + 1) as usize)
    } else {
        None
    }
}

/// The next sibling of row `i`, searched from row `j` on: the first later
/// row that lies no deeper, where it lies exactly as deep.
pub open spec fn sibling_from(rows: Seq<RowModel>, i: int, j: int) -> Option<usize>
    decreases rows.len() - j,
{
    if i < 0 || j <= i || j >= rows.len() {
        None
    } else if rows[j].depth <= rows[i].depth {
        if rows[j].depth == rows[i].depth {
            Some(j as usize)
        } else {
            None
        }
    } else {
        sibling_from(rows, i, j + 1)
    }
}

/// Node `node` is row `i` of `rows`, with the links that the depths of the
/// rows give it.
pub open spec fn node_reads(node: SyntaxNode, rows: Seq<RowModel>, i: int) -> bool {
    &&& node.kind@ == rows[i].kind
    &&& node.named == rows[i].named
    &&& node.start_byte == rows[i].start_byte
    &&& node.end_byte == rows[i].end_byte
    &&& node.parent == parent_from(rows, i, i - 1)
    &&& node.first_child == first_child_of(rows, i)
    &&& node.next_sibling == sibling_from(rows, i, i + 1)
}

/// The arena holds exactly the rows, node for node, linked as their depths
/// say.
pub open spec fn reads_rows(tree: SyntaxTree, rows: Seq<RowModel>) -> bool {
    &&& tree.nodes@.len() == rows.len()
    &&& forall|i: int| 0 <= i < rows.len() ==> node_reads(#[trigger] tree.nodes@[i], rows, i)
}

/// The spans of the rows nest: every arena that holds exactly these rows is
/// laid out.
pub open spec fn nests(rows: Seq<RowModel>) -> bool {
    forall|tree: SyntaxTree| reads_rows(tree, rows) ==> #[trigger] tree.laid_out()
}

/// Two arenas that hold the same rows are laid out alike.
pub proof fn lemma_same_rows_same_layout(first: SyntaxTree, second: SyntaxTree, rows: Seq<RowModel>)
    requires
        reads_rows(first, rows),
        reads_rows(second, rows),
        first.laid_out(),
    ensures
        second.laid_out(),
{
    assert forall|i: usize| i < second.nodes@.len() implies #[trigger] second.placed(i) by {
        assert(first.placed(i));
        assert(node_reads(first.nodes@[i as int], rows, i as int));
        assert(node_reads(second.nodes@[i as int], rows, i as int));
        if let Some(c) = first.nodes@[i as int].first_child {
            assert(node_reads(first.nodes@[c as int], rows, c as int));
            assert(node_reads(second.nodes@[c as int], rows, c as int));
        }
        if let Some(s) = first.nodes@[i as int].next_sibling {
            assert(node_reads(first.nodes@[s as int], rows, s as int));
            assert(node_reads(second.nodes@[s as int], rows, s as int));
        }
        if let Some(p) = first.nodes@[i as int].parent {
            assert(node_reads(first.nodes@[p as int], rows, p as int));
            assert(node_reads(second.nodes@[p as int], rows, p as int));
        }
    }
}

/// Finds the parent of row `i`.
fn find_parent(rows: &Vec<NodeRow>, i: usize) -> (parent: Option<usize>)
    requires
        i < rows@.len(),
    ensures
        parent == parent_from(row_models(rows@), i as int, i - 1),
{
    let mut j: usize = i;
    while j > 0
        invariant
            j <= i < rows@.len(),
            parent_from(row_models(rows@), i as int, i - 1) == parent_from(
                row_models(rows@),
                i as int,
                j - 1,
            ),
        decreases j,
    {
        j = j - 1;
        if rows[j].depth < rows[i].depth {
            return Some(j);
        }
    }
    None
}

/// Finds the next sibling of row `i`.
fn find_sibling(rows: &Vec<NodeRow>, i: usize) -> (sibling: Option<usize>)
    requires
        i < rows@.len(),
    ensures
        sibling == sibling_from(row_models(rows@), i as int, i + 1),
{
    let count = rows.len();
    let mut j: usize = i + 1;
    while j < count
        invariant
            i < j <= rows@.len(),
            count == rows@.len(),
            sibling_from(row_models(rows@), i as int, i + 1) == sibling_from(
                row_models(rows@),
                i as int,
                j as int,
            ),
        decreases rows@.len() - j,
    {
        if rows[j].depth <= rows[i].depth {
            if rows[j].depth == rows[i].depth {
                return Some(j);
            }
            return None;
        }
        j = j + 1;
    }
    None
}

/// Links the arena from the rows of a parse: node for node in document
/// order, each with the parent, first child and next sibling that the
/// depths of the rows give it.
pub fn link_rows(rows: &Vec<NodeRow>) -> (tree: SyntaxTree)
    ensures
        reads_rows(tree, row_models(rows@)),
{
    let mut nodes: Vec<SyntaxNode> = Vec::new();
    let mut i: usize = 0;
    while i < rows.len()
        invariant
            i <= rows@.len(),
            nodes@.len() == i,
            forall|k: int| 0 <= k < i ==> node_reads(#[trigger] nodes@[k], row_models(rows@), k),
        decreases rows@.len() - i,
    {
        let first_child = if i + 1 < rows.len() && rows[i + 1].depth > rows[i].depth {
            Some(i + 1)
        } else {
            None
        };
        nodes.push(
            SyntaxNode {
                kind: rows[i].kind.clone(),
                named: rows[i].named,
                start_byte: rows[i].start_byte,
                end_byte: rows[i].end_byte,
                parent: find_parent(rows, i),
                first_child: first_child,
                next_sibling: find_sibling(rows, i),
            },
        );
        i = i + 1;
    }
    SyntaxTree { nodes: nodes }
}

/// An open document: a text and the tree parsed from exactly that text.
#[derive(Clone)]
pub struct Document {
    text: TextBuffer,
    tree: SyntaxTree,
}

/// What an open document holds: the characters of its text, and its tree.
pub ghost struct DocumentModel {
    pub text: Seq<char>,
    pub tree: SyntaxTree,
}

impl View for Document {
    type V = DocumentModel;

    closed spec fn view(&self) -> DocumentModel {
        DocumentModel { text: self.text@, tree: self.tree }
    }
}

impl Document {
    /// The text of the document.
    pub fn text(&self) -> (text: &TextBuffer)
        ensures
            text@ == self@.text,
    {
        &self.text
    }

    /// The tree of the document.
    pub fn tree(&self) -> (tree: &SyntaxTree)
        ensures
            *tree == self@.tree,
    {
        &self.tree
    }

    /// The document for a full replacement text: a buffer that holds
    /// `text`, and the arena linked from the nodes of its parse. There is
    /// one exactly where the template parser gives a tree for the text and
    /// the spans of its nodes nest.
    pub fn open(text: &str) -> (document: Option<Document>)
        ensures
            document is Some == (template_rows(text@) is Some && nests(
                template_rows(text@)->Some_0,
            )),
            document matches Some(d) ==> d@.text == text@ && d@.tree.laid_out() && reads_rows(
                d@.tree,
                template_rows(text@)->Some_0,
            ),
    {
        Document::from_parsed(text, parse_template(EVERY_NODE, text))
    }

    /// The document for `text` and the rows that the parser gave for it:
    /// there is one where the parser gave rows whose spans nest, and it
    /// holds `text` and the arena linked from them.
    fn from_parsed(text: &str, parsed: Option<Vec<NodeRow>>) -> (document: Option<Document>)
        ensures
            document is Some == (parsed is Some && nests(row_models(parsed->Some_0@))),
            document matches Some(d) ==> d@.text == text@ && d@.tree.laid_out() && reads_rows(
                d@.tree,
                row_models(parsed->Some_0@),
            ),
    {
        match parsed {
            Some(rows) => {
                let tree = link_rows(&rows);
                if tree.is_laid_out() {
                    proof {
                        assert forall|other: SyntaxTree|
                            reads_rows(other, row_models(rows@)) implies #[trigger] other.laid_out() by {
                            lemma_same_rows_same_layout(tree, other, row_models(rows@));
                        }
                    }
                    Some(Document { text: TextBuffer::new(text), tree: tree })
                } else {
                    None
                }
            },
            None => None,
        }
    }
}

} // verus!
