//! Finding component declarations in a source file with structural queries
//! of `tree_sitter`, and filing what they declare.

use vstd::prelude::*;
use vstd::string::StringExecFns;
use crate::component::{keyed_by_selector, ComponentIndex};
use crate::extract::{
    capture_models, declared_components, file_components, filed_from, kept_declarations,
    kept_members, lemma_filed_by_models,
    marked_members, member_models, raw_member_models, raw_models, ComponentCapture, MemberCapture,
    MemberTexts, RawDeclaration, RawMember, RawModel,
};
use crate::geometry::{Point, SourceRange};
use tower_lsp::lsp_types::Url;
use tree_sitter::{Parser, Query, QueryCursor, Tree};

verus! {

/// A parsed tree of `tree_sitter`, taken as an opaque value.
#[verifier::external_type_specification]
#[verifier::external_body]
pub struct ExTree(Tree);

/// A compiled query of `tree_sitter`, taken as an opaque value.
#[verifier::external_type_specification]
#[verifier::external_body]
pub struct ExQuery(Query);

/// Matches an exported class that a `Component` decorator precedes, where
/// the decorator's argument is an object with a `selector` key whose value
/// is a string.
pub const FIND_COMPONENT_QUERY: &'static str = r#"
(export_statement
  decorator: (decorator
    (call_expression
      function: (identifier) @dec-name
      arguments: (arguments
        (object (pair
          key: (property_identifier) @prop-name
          value: (string (string_fragment) @prop-value))))
    )
  )
  declaration: (class_declaration name: (type_identifier) @class-name) @declaration
  (#eq? @dec-name Component)
  (#eq? @prop-name selector)
)"#;

/// Matches a field or method that a decorator named exactly `Input` or
/// `Output` immediately precedes.
pub const INOUT_QUERY: &'static str = r#"
(
  (decorator (call_expression function: (identifier) @dec-name))
  .
  [
    (public_field_definition name: (property_identifier) @prop-name)
    (method_definition name: (property_identifier) @prop-name)
  ]
  (#match? @dec-name "^(Input|Output)$")
)"#;

/// What a match of the component query holds, as plain values: the
/// selector's text, the span of the class name and the byte span of the
/// declaration, each where the match holds it.
pub struct DeclarationHead {
    pub selector: Option<String>,
    /// Start byte, end byte, start row, start column, end row, end column.
    pub class_name: Option<(usize, usize, usize, usize, usize, usize)>,
    pub declaration: Option<(usize, usize)>,
}

/// What a match of the component query holds.
pub ghost struct HeadModel {
    pub selector: Option<Seq<char>>,
    pub class_name: Option<(usize, usize, usize, usize, usize, usize)>,
    pub declaration: Option<(usize, usize)>,
}

impl View for DeclarationHead {
    type V = HeadModel;

    open spec fn view(&self) -> HeadModel {
        HeadModel {
            selector: match self.selector {
                Some(t) => Some(t@),
                None => None,
            },
            class_name: self.class_name,
            declaration: self.declaration,
        }
    }
}

/// What a list of matches of the component query holds.
pub open spec fn head_models(heads: Seq<DeclarationHead>) -> Seq<HeadModel> {
    Seq::new(heads.len(), |k: int| heads[k]@)
}

/// The range that six numbers give: start byte, end byte, start row, start
/// column, end row, end column.
pub open spec fn range_from(n: Option<(usize, usize, usize, usize, usize, usize)>) -> Option<
    SourceRange,
> {
    match n {
        Some(n) => Some(
            SourceRange {
                start_byte: n.0,
                end_byte: n.1,
                start_point: Point { row: n.2, column: n.3 },
                end_point: Point { row: n.4, column: n.5 },
            },
        ),
        None => None,
    }
}

/// Makes a range of six numbers.
fn to_source_range(n: Option<(usize, usize, usize, usize, usize, usize)>) -> (range: Option<
    SourceRange,
>)
    ensures
        range == range_from(n),
{
    match n {
        Some(n) => Some(
            SourceRange {
                start_byte: n.0,
                end_byte: n.1,
                start_point: Point { row: n.2, column: n.3 },
                end_point: Point { row: n.4, column: n.5 },
            },
        ),
        None => None,
    }
}

/// Whether `pattern` compiles as a query for the grammar of component
/// sources.
pub uninterp spec fn source_pattern_compiles(pattern: Seq<char>) -> bool;

/// The pattern text that a compiled query holds.
pub uninterp spec fn query_pattern(query: Query) -> Seq<char>;

/// The number that the query compiled from `pattern` gives the capture
/// called `name`; `None` where it has no such capture.
pub uninterp spec fn capture_number(pattern: Seq<char>, name: Seq<char>) -> Option<u32>;

/// Whether the parser for component sources gives a tree for `text`.
pub uninterp spec fn source_parses(text: Seq<char>) -> bool;

/// The text that a tree of a component source holds.
pub uninterp spec fn source_text(tree: Tree) -> Seq<char>;

/// The matches of the query compiled from `pattern` in the source text
/// `contents`, in the order found: of each the first node of the captures
/// with the three given numbers.
pub uninterp spec fn declaration_heads_of(
    pattern: Seq<char>,
    contents: Seq<char>,
    selector: u32,
    class_name: u32,
    declaration: u32,
) -> Seq<HeadModel>;

/// The matches of the query compiled from `pattern` below the smallest
/// node of the source text `contents` that spans the bytes from `start` to
/// `end`, in the order found: of each the texts of the first node of the
/// captures with the two given numbers.
pub uninterp spec fn member_texts_of(
    pattern: Seq<char>,
    contents: Seq<char>,
    start: usize,
    end: usize,
    marker: u32,
    name: u32,
) -> Seq<MemberTexts>;

/// `Query::new` for the grammar of
/// `tree_sitter_typescript::language_typescript`, on one of the two
/// patterns of this file: the compiled pattern, there exactly where the
/// pattern compiles for that grammar.
#[verifier::external_body]
fn compile_query(pattern: &str) -> (query: Option<Query>)
    requires
        pattern@ == FIND_COMPONENT_QUERY@ || pattern@ == INOUT_QUERY@,
    ensures
        query is Some == source_pattern_compiles(pattern@),
        query matches Some(q) ==> query_pattern(q) == pattern@,
{
    Query::new(tree_sitter_typescript::language_typescript(), pattern).ok()
}

/// `Query::capture_index_for_name`: the number of the capture called
/// `name`, a function of the query's pattern and the name.
#[verifier::external_body]
fn capture_index(query: &Query, name: &str) -> (index: Option<u32>)
    ensures
        index == capture_number(query_pattern(*query), name@),
{
    query.capture_index_for_name(name)
}

/// `Parser::new`, `Parser::set_language` with the grammar of
/// `tree_sitter_typescript::language_typescript`, and `Parser::parse`
/// without an earlier tree: the tree for `text`. Whether there is one
/// depends on the text alone: the parser is fresh, with no timeout and no
/// cancellation.
#[verifier::external_body]
fn parse_source(text: &str) -> (tree: Option<Tree>)
    ensures
        tree is Some == source_parses(text@),
        tree matches Some(t) ==> source_text(t) == text@,
{
    let mut parser = Parser::new();
    parser.set_language(tree_sitter_typescript::language_typescript()).ok()?;
    parser.parse(text, None)
}

/// `QueryCursor::matches` on a fresh cursor from `Tree::root_node`, with
/// `QueryMatch::nodes_for_capture_index`, `Node::utf8_text`, `Node::range`,
/// `Node::start_byte` and `Node::end_byte`: every match as plain values, the
/// class name's range as six numbers. The
/// tree must be the parse of `contents`: the nodes' texts are cut from it.
#[verifier::external_body]
fn declaration_heads(query: &Query, tree: &Tree, contents: &str, s: u32, c: u32, d: u32) -> (heads:
    Vec<DeclarationHead>)
    requires
        source_text(*tree) == contents@,
    ensures
        head_models(heads@) == declaration_heads_of(query_pattern(*query), contents@, s, c, d),
{
    let (mut cursor, bytes) = (QueryCursor::new(), contents.as_bytes());
    cursor.matches(query, tree.root_node(), bytes).map(|m| DeclarationHead {
        selector: m.nodes_for_capture_index(s).next().and_then(|n| n.utf8_text(bytes).ok()).map(String::from),
        class_name: m.nodes_for_capture_index(c).next().map(|n| n.range()).map(|r| {
            (r.start_byte, r.end_byte, r.start_point.row, r.start_point.column, r.end_point.row, r.end_point.column)
        }),
        declaration: m.nodes_for_capture_index(d).next().map(|n| (n.start_byte(), n.end_byte())),
    }).collect()
}

/// `Node::descendant_for_byte_range` from `Tree::root_node`, then
/// `QueryCursor::matches` on a fresh cursor below the node found, with
/// `QueryMatch::nodes_for_capture_index` and `Node::utf8_text`: every match
/// as plain values, none where no node spans the range. The tree must be
/// the parse of `contents`: the nodes' texts are cut from it.
#[verifier::external_body]
fn member_texts(query: &Query, tree: &Tree, contents: &str, start: usize, end: usize, m: u32, n: u32) -> (found:
    Vec<RawMember>)
    requires
        source_text(*tree) == contents@,
    ensures
        raw_member_models(found@) == member_texts_of(
            query_pattern(*query),
            contents@,
            start,
            end,
            m,
            n,
        ),
{
    let (mut cursor, bytes) = (QueryCursor::new(), contents.as_bytes());
    tree.root_node().descendant_for_byte_range(start, end).map(|node| {
        cursor.matches(query, node, bytes).map(|f| RawMember {
            marker: f.nodes_for_capture_index(m).next().and_then(|x| x.utf8_text(bytes).ok()).map(String::from),
            name: f.nodes_for_capture_index(n).next().and_then(|x| x.utf8_text(bytes).ok()).map(String::from),
        }).collect()
    }).unwrap_or_default()
}

/// The absolute reference that `path` resolves to against `base`, as
/// `url` resolves references; `None` where `base` is no reference or `path`
/// does not resolve.
pub uninterp spec fn resolved_url(base: Seq<char>, path: Seq<char>) -> Option<Seq<char>>;

/// `Url::parse` for the base, then `Url::options`, `ParseOptions::base_url`
/// and `ParseOptions::parse` for `path`: the reference that `path` resolves
/// to, written out, a function of the two texts alone.
#[verifier::external_body]
fn resolve_url(base: &str, path: &str) -> (url: Option<String>)
    ensures
        url is Some == resolved_url(base@, path@) is Some,
        url matches Some(u) ==> resolved_url(base@, path@) == Some(u@),
{
    let base = Url::parse(base).ok();
    Url::options().base_url(base.as_ref()).parse(path).ok().map(String::from)
}

/// The pattern that finds the source files of the workspace at
/// `workspace_root`.
pub fn source_pattern(workspace_root: &str) -> (pattern: String)
    ensures
        pattern@ == workspace_root@ + "/src/**/*.ts"@,
{
    let mut pattern = String::from_str(workspace_root);
    pattern.append("/src/**/*.ts");
    pattern
}

/// The absolute file reference for a path of the file system.
pub fn file_reference(path: &str) -> (url: Option<String>)
    ensures
        url is Some == resolved_url("file://"@, path@) is Some,
        url matches Some(u) ==> resolved_url("file://"@, path@) == Some(u@),
{
    resolve_url("file://", path)
}

/// Finds component declarations in source files.
pub struct ComponentAnalyzer {
    component_query: Query,
    selector_idx: u32,
    class_name_idx: u32,
    class_dec_idx: u32,
    inout_query: Query,
    type_idx: u32,
    prop_idx: u32,
}

/// Whether an analyzer can be had: both patterns compile for the grammar of
/// component sources, and each capture that the analyzer reads has a number.
pub open spec fn analyzer_owed() -> bool {
    &&& source_pattern_compiles(FIND_COMPONENT_QUERY@)
    &&& source_pattern_compiles(INOUT_QUERY@)
    &&& capture_number(FIND_COMPONENT_QUERY@, "prop-value"@) is Some
    &&& capture_number(FIND_COMPONENT_QUERY@, "class-name"@) is Some
    &&& capture_number(FIND_COMPONENT_QUERY@, "declaration"@) is Some
    &&& capture_number(INOUT_QUERY@, "dec-name"@) is Some
    &&& capture_number(INOUT_QUERY@, "prop-name"@) is Some
}

/// The member matches below the declaration that spans the bytes from
/// `start` to `end` of `contents`.
pub open spec fn member_matches(contents: Seq<char>, start: usize, end: usize) -> Seq<MemberTexts> {
    member_texts_of(
        INOUT_QUERY@,
        contents,
        start,
        end,
        capture_number(INOUT_QUERY@, "dec-name"@)->Some_0,
        capture_number(INOUT_QUERY@, "prop-name"@)->Some_0,
    )
}

/// The component matches in `contents`, each with the complete member
/// matches below its declaration.
pub open spec fn raw_declarations(contents: Seq<char>) -> Seq<RawModel> {
    let heads = declaration_heads_of(
        FIND_COMPONENT_QUERY@,
        contents,
        capture_number(FIND_COMPONENT_QUERY@, "prop-value"@)->Some_0,
        capture_number(FIND_COMPONENT_QUERY@, "class-name"@)->Some_0,
        capture_number(FIND_COMPONENT_QUERY@, "declaration"@)->Some_0,
    );
    Seq::new(
        heads.len(),
        |k: int|
            RawModel {
                selector: heads[k].selector,
                class_name_range: range_from(heads[k].class_name),
                members: match heads[k].declaration {
                    Some(span) => Some(kept_members(member_matches(contents, span.0, span.1))),
                    None => None,
                },
            },
    )
}

/// The components that `contents` declares: what the complete component
/// matches hold.
pub open spec fn declarations_in(contents: Seq<char>) -> Seq<
    (Seq<char>, SourceRange, Seq<(Seq<char>, Seq<char>)>),
> {
    kept_declarations(raw_declarations(contents))
}

impl ComponentAnalyzer {
    #[verifier::type_invariant]
    closed spec fn reads_its_patterns(&self) -> bool {
        &&& query_pattern(self.component_query) == FIND_COMPONENT_QUERY@
        &&& query_pattern(self.inout_query) == INOUT_QUERY@
        &&& capture_number(FIND_COMPONENT_QUERY@, "prop-value"@) == Some(self.selector_idx)
        &&& capture_number(FIND_COMPONENT_QUERY@, "class-name"@) == Some(self.class_name_idx)
        &&& capture_number(FIND_COMPONENT_QUERY@, "declaration"@) == Some(self.class_dec_idx)
        &&& capture_number(INOUT_QUERY@, "dec-name"@) == Some(self.type_idx)
        &&& capture_number(INOUT_QUERY@, "prop-name"@) == Some(self.prop_idx)
    }

    /// An analyzer for component sources. There is one exactly where both
    /// patterns compile for the grammar and each capture that the analyzer
    /// reads has a number.
    pub fn new() -> (analyzer: Option<ComponentAnalyzer>)
        ensures
            analyzer is Some == analyzer_owed(),
    {
        let component_query = compile_query(FIND_COMPONENT_QUERY)?;
        let inout_query = compile_query(INOUT_QUERY)?;
        let selector_idx = capture_index(&component_query, "prop-value")?;
        let class_name_idx = capture_index(&component_query, "class-name")?;
        let class_dec_idx = capture_index(&component_query, "declaration")?;
        let type_idx = capture_index(&inout_query, "dec-name")?;
        let prop_idx = capture_index(&inout_query, "prop-name")?;
        Some(
            ComponentAnalyzer {
                component_query,
                selector_idx,
                class_name_idx,
                class_dec_idx,
                inout_query,
                type_idx,
                prop_idx,
            },
        )
    }

    /// The marked members below the declaration that spans the bytes from
    /// `start` to `end`, in source order. A match that lacks the marker or
    /// the member name is passed over.
    fn members_of(&self, tree: &Tree, contents: &str, start: usize, end: usize) -> (members: Vec<
        MemberCapture,
    >)
        requires
            source_text(*tree) == contents@,
        ensures
            member_models(members@) == kept_members(member_matches(contents@, start, end)),
    {
        proof {
            use_type_invariant(self);
        }
        let raw = member_texts(
            &self.inout_query,
            tree,
            contents,
            start,
            end,
            self.type_idx,
            self.prop_idx,
        );
        marked_members(&raw)
    }

    /// The matches of the component query in `contents`, in the order
    /// found, as plain values. There are some exactly where the parser
    /// gives a tree for `contents`.
    pub fn component_matches(&self, contents: &str) -> (raw: Option<Vec<RawDeclaration>>)
        ensures
            raw is Some == source_parses(contents@),
            raw matches Some(r) ==> raw_models(r@) == raw_declarations(contents@),
    {
        proof {
            use_type_invariant(self);
        }
        let tree = parse_source(contents)?;
        let heads = declaration_heads(
            &self.component_query,
            &tree,
            contents,
            self.selector_idx,
            self.class_name_idx,
            self.class_dec_idx,
        );
        let mut raw: Vec<RawDeclaration> = Vec::new();
        let mut k: usize = 0;
        while k < heads.len()
            invariant
                k <= heads@.len(),
                source_text(tree) == contents@,
                head_models(heads@) == declaration_heads_of(
                    FIND_COMPONENT_QUERY@,
                    contents@,
                    capture_number(FIND_COMPONENT_QUERY@, "prop-value"@)->Some_0,
                    capture_number(FIND_COMPONENT_QUERY@, "class-name"@)->Some_0,
                    capture_number(FIND_COMPONENT_QUERY@, "declaration"@)->Some_0,
                ),
                raw@.len() == k,
                forall|j: int| 0 <= j < k ==> (#[trigger] raw@[j])@ == raw_declarations(contents@)[j],
            decreases heads@.len() - k,
        {
            assert(head_models(heads@)[k as int] == heads@[k as int]@);
            let selector = match &heads[k].selector {
                Some(text) => Some(text.clone()),
                None => None,
            };
            let members = match heads[k].declaration {
                Some(span) => Some(self.members_of(&tree, contents, span.0, span.1)),
                None => None,
            };
            let class_name_range = to_source_range(heads[k].class_name);
            raw.push(RawDeclaration { selector, class_name_range, members });
            k = k + 1;
        }
        assert(raw_models(raw@) =~= raw_declarations(contents@));
        Some(raw)
    }

    /// The component declarations that the queries find in `contents`, in
    /// the order found: there are some exactly where the parser gives a
    /// tree for `contents`. A match that lacks the selector, the class name
    /// or the declaration is passed over.
    pub fn find_components(&self, contents: &str) -> (found: Option<Vec<ComponentCapture>>)
        ensures
            found is Some == source_parses(contents@),
            found matches Some(c) ==> capture_models(c@) == declarations_in(contents@),
    {
        match self.component_matches(contents) {
            Some(raw) => Some(declared_components(&raw)),
            None => None,
        }
    }

    /// Files every component that `contents`, the text of file `file`,
    /// declares: the index ends as the filing of those declarations, in
    /// the order found, leaves it. Where the parser gives no tree it is
    /// left as it was.
    pub fn analyze_file(&self, file: &str, contents: &str, components: &mut ComponentIndex)
        ensures
            keyed_by_selector(old(components)@) ==> keyed_by_selector(final(components)@),
            !source_parses(contents@) ==> final(components)@ == old(components)@,
            source_parses(contents@) ==> files_declarations(
                old(components)@,
                file@,
                contents@,
                final(components)@,
            ),
    {
        match self.find_components(contents) {
            Some(captures) => {
                file_components(components, file, &captures);
                proof {
                    lemma_filed_by_models(
                        old(components)@,
                        file@,
                        captures@,
                        captures@.len(),
                    );
                }
            },
            None => {},
        }
    }

    /// Files every component that `contents`, the text of the file at
    /// `path`, declares, under the file's absolute reference. Where the path
    /// resolves to no reference the index is left as it was, and `false`
    /// comes back.
    pub fn analyze_path(&self, path: &str, contents: &str, components: &mut ComponentIndex) -> (named:
        bool)
        ensures
            named == resolved_url("file://"@, path@) is Some,
            keyed_by_selector(old(components)@) ==> keyed_by_selector(final(components)@),
            !named || !source_parses(contents@) ==> final(components)@ == old(components)@,
            named && source_parses(contents@) ==> files_declarations(
                old(components)@,
                resolved_url("file://"@, path@)->Some_0,
                contents@,
                final(components)@,
            ),
    {
        match file_reference(path) {
            Some(url) => {
                self.analyze_file(url.as_str(), contents, components);
                true
            },
            None => false,
        }
    }
}

/// `after` is what filing the declarations of `contents`, found in file
/// `file`, makes of `before`.
pub open spec fn files_declarations(
    before: Map<Seq<char>, crate::component::ComponentModel>,
    file: Seq<char>,
    contents: Seq<char>,
    after: Map<Seq<char>, crate::component::ComponentModel>,
) -> bool {
    after == filed_from(
        before,
        file,
        declarations_in(contents),
        declarations_in(contents).len(),
    )
}

} // verus!
