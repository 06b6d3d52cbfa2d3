//! Completions inside a template: the known tags where a tag name is being
//! typed, the bindable members of the tag's component where an attribute
//! name is.

use vstd::prelude::*;
use vstd::string::StringExecFns;
use crate::component::{Component, ComponentIndex, ComponentModel};
use crate::syntax::{find_node, texts, SyntaxTree};
use crate::geometry::Position;
use crate::text::{byte_offset_after, byte_span_text, line_start, TextBuffer};

verus! {

/// How an editor presents a completion.
#[derive(Clone, Copy, Debug, PartialEq, Eq)]
pub enum CompletionKind {
    Keyword,
    Field,
}

/// One completion offered to the editor. `insert_text`, where present, is
/// what the editor inserts in place of the label; with `snippet` set it is a
/// snippet in which `$0` marks where the cursor lands.
#[derive(Clone, Debug, PartialEq, Eq)]
pub struct CompletionItem {
    pub label: String,
    pub kind: CompletionKind,
    pub insert_text: Option<String>,
    pub snippet: bool,
}

/// What a completion says, as plain values.
pub ghost struct CompletionModel {
    pub label: Seq<char>,
    pub kind: CompletionKind,
    pub insert_text: Option<Seq<char>>,
    pub snippet: bool,
}

impl View for CompletionItem {
    type V = CompletionModel;

    open spec fn view(&self) -> CompletionModel {
        CompletionModel {
            label: self.label@,
            kind: self.kind,
            insert_text: match self.insert_text {
                Some(t) => Some(t@),
                None => None,
            },
            snippet: self.snippet,
        }
    }
}

/// What a list of completions says.
pub open spec fn models(items: Seq<CompletionItem>) -> Seq<CompletionModel> {
    Seq::new(items.len(), |k: int| items[k]@)
}

/// The completion that offers a tag.
pub open spec fn tag_item(selector: Seq<char>) -> CompletionModel {
    CompletionModel {
        label: selector,
        kind: CompletionKind::Keyword,
        insert_text: None,
        snippet: false,
    }
}

/// The completion that offers a member, inserted between `prefix` and
/// `suffix`.
pub open spec fn member_item(name: Seq<char>, prefix: Seq<char>, suffix: Seq<char>)
    -> CompletionModel {
    CompletionModel {
        label: name,
        kind: CompletionKind::Field,
        insert_text: Some(prefix + name + suffix),
        snippet: true,
    }
}

/// The completions for a list of members.
pub open spec fn member_items(names: Seq<Seq<char>>, prefix: Seq<char>, suffix: Seq<char>)
    -> Seq<CompletionModel> {
    Seq::new(names.len(), |k: int| member_item(names[k], prefix, suffix))
}

/// The completions for a component's members: each input as a property
/// binding, then each output as an event binding.
pub open spec fn component_items(component: ComponentModel) -> Seq<CompletionModel> {
    member_items(component.inputs, "["@, "]=\"$0\""@) + member_items(
        component.outputs,
        "("@,
        ")=\"$0\""@,
    )
}

/// The completions for the attributes of a tag whose name reads `tag`:
/// those of the component filed under that name, none where no name could
/// be read or no component is filed under it.
pub open spec fn attribute_items(
    tag: Option<Seq<char>>,
    entries: Map<Seq<char>, ComponentModel>,
) -> Seq<CompletionModel> {
    match tag {
        Some(t) => if entries.contains_key(t) {
            component_items(entries[t])
        } else {
            Seq::empty()
        },
        None => Seq::empty(),
    }
}

/// `items` offers each selector of `entries` once, as a tag.
pub open spec fn offers_tags(
    items: Seq<CompletionModel>,
    entries: Map<Seq<char>, ComponentModel>,
) -> bool {
    &&& forall|i: int|
        0 <= i < items.len() ==> entries.contains_key((#[trigger] items[i]).label) && items[i]
            == tag_item(items[i].label)
    &&& forall|k: Seq<char>| #[trigger]
        entries.contains_key(k) ==> exists|i: int|
            0 <= i < items.len() && (#[trigger] items[i]).label == k
    &&& forall|i: int, j: int|
        0 <= i < j < items.len() ==> (#[trigger] items[i]).label != (#[trigger] items[j]).label
}

/// Where in a tag the cursor stands.
#[derive(Clone, Copy, Debug, PartialEq, Eq)]
pub enum CursorContext {
    /// In no start tag, or in one but on neither its name nor an attribute's.
    Nowhere,
    /// On the name of a tag.
    TagName,
    /// On the name of an attribute, in the tag whose name is node `tag_name`.
    Attribute { tag_name: usize },
}

/// The kinds of node that open a tag.
pub open spec fn tag_kinds() -> Seq<Seq<char>> {
    seq!["start_tag"@, "self_closing_tag"@]
}

/// The context at the byte offset `offset`. The tag is searched from the root, the name
/// and the attribute name inside the tag; the tag's name is its first named
/// child.
pub open spec fn context_at(tree: &SyntaxTree, offset: usize) -> CursorContext {
    match tree.locate(0, true, offset, tag_kinds()) {
        None => CursorContext::Nowhere,
        Some(tag) => if tree.locate(tag, true, offset, seq!["tag_name"@]) is Some {
            CursorContext::TagName
        } else if tree.locate(tag, true, offset, seq!["attribute_name"@]) is None {
            CursorContext::Nowhere
        } else {
            match tree.first_named_child(tag) {
                Some(name) => CursorContext::Attribute { tag_name: name },
                None => CursorContext::Nowhere,
            }
        },
    }
}

/// A list that holds the one kind `kind`.
pub fn one_kind(kind: &str) -> (kinds: Vec<String>)
    ensures
        texts(kinds@) == seq![kind@],
{
    let mut kinds: Vec<String> = Vec::new();
    kinds.push(String::from_str(kind));
    assert(texts(kinds@) =~= seq![kind@]);
    kinds
}

/// Determines where in a tag the cursor stands.
pub fn cursor_context(tree: &SyntaxTree, offset: usize) -> (context: CursorContext)
    ensures
        context == context_at(tree, offset),
        context matches CursorContext::Attribute { tag_name } ==> tag_name < tree.nodes@.len(),
{
    let mut tags: Vec<String> = Vec::new();
    tags.push(String::from_str("start_tag"));
    tags.push(String::from_str("self_closing_tag"));
    assert(texts(tags@) =~= tag_kinds());
    let tag: usize = match find_node(tree, 0, offset, &tags) {
        Some(tag) => tag,
        None => {
            return CursorContext::Nowhere;
        },
    };
    let names = one_kind("tag_name");
    if find_node(tree, tag, offset, &names).is_some() {
        return CursorContext::TagName;
    }
    let attributes = one_kind("attribute_name");
    if find_node(tree, tag, offset, &attributes).is_none() {
        return CursorContext::Nowhere;
    }
    match tree.named_child(tag) {
        Some(name) => CursorContext::Attribute { tag_name: name },
        None => CursorContext::Nowhere,
    }
}

/// Offers each of `selectors` as a tag.
pub fn tag_completions(selectors: &Vec<String>) -> (items: Vec<CompletionItem>)
    ensures
        models(items@) == Seq::new(selectors@.len(), |k: int| tag_item(selectors@[k]@)),
{
    let mut items: Vec<CompletionItem> = Vec::new();
    let mut k: usize = 0;
    while k < selectors.len()
        invariant
            k <= selectors@.len(),
            items@.len() == k,
            forall|j: int| 0 <= j < k ==> (#[trigger] items@[j])@ == tag_item(selectors@[j]@),
        decreases selectors@.len() - k,
    {
        items.push(
            CompletionItem {
                label: selectors[k].clone(),
                kind: CompletionKind::Keyword,
                insert_text: None,
                snippet: false,
            },
        );
        k = k + 1;
    }
    assert(models(items@) =~= Seq::new(selectors@.len(), |k: int| tag_item(selectors@[k]@)));
    items
}

/// Offers each of `elements` as a member, to be inserted between `prefix`
/// and `suffix`.
pub fn make_completions(elements: &Vec<String>, prefix: &str, suffix: &str) -> (items: Vec<
    CompletionItem,
>)
    ensures
        models(items@) == member_items(texts(elements@), prefix@, suffix@),
{
    let mut items: Vec<CompletionItem> = Vec::new();
    let mut k: usize = 0;
    while k < elements.len()
        invariant
            k <= elements@.len(),
            items@.len() == k,
            forall|j: int|
                0 <= j < k ==> (#[trigger] items@[j])@ == member_item(
                    elements@[j]@,
                    prefix@,
                    suffix@,
                ),
        decreases elements@.len() - k,
    {
        let mut insert = String::from_str(prefix);
        insert.append(elements[k].as_str());
        insert.append(suffix);
        items.push(
            CompletionItem {
                label: elements[k].clone(),
                kind: CompletionKind::Field,
                insert_text: Some(insert),
                snippet: true,
            },
        );
        k = k + 1;
    }
    assert(models(items@) =~= member_items(texts(elements@), prefix@, suffix@));
    items
}

/// Offers the members of `component`: its inputs, then its outputs.
pub fn member_completions(component: &Component) -> (items: Vec<CompletionItem>)
    ensures
        models(items@) == component_items(component@),
{
    let mut items = make_completions(&component.inputs, "[", "]=\"$0\"");
    let mut outputs = make_completions(&component.outputs, "(", ")=\"$0\"");
    let ghost first = items@;
    let ghost second = outputs@;
    items.append(&mut outputs);
    assert(items@ == first + second);
    assert(models(items@) =~= models(first) + models(second));
    items
}

/// Offers the attributes of the tag whose name reads `tag`.
pub fn attribute_completions(tag: Option<String>, components: &ComponentIndex) -> (items: Vec<
    CompletionItem,
>)
    ensures
        models(items@) == attribute_items(
            match tag {
                Some(t) => Some(t@),
                None => None,
            },
            components@,
        ),
{
    let found = match tag {
        Some(t) => components.get(t.as_str()),
        None => None,
    };
    match found {
        Some(component) => member_completions(&component),
        None => {
            let items: Vec<CompletionItem> = Vec::new();
            assert(models(items@) =~= Seq::<CompletionModel>::empty());
            items
        },
    }
}

/// The text of node `node`: the characters that take the bytes of its
/// span, as far as the text holds them.
pub open spec fn node_text(tree: &SyntaxTree, node: usize, chars: Seq<char>) -> Option<Seq<char>> {
    byte_span_text(chars, tree.nodes@[node as int].start_byte, tree.nodes@[node as int].end_byte)
}

/// What `items` must be to be the completions at `offset`: nothing where
/// the cursor stands nowhere; each known selector once where it stands on a
/// tag's name; on an attribute's name the members of the component that the
/// tag names, nothing where none is filed under that name.
pub open spec fn completes(
    tree: &SyntaxTree,
    chars: Seq<char>,
    offset: usize,
    entries: Map<Seq<char>, ComponentModel>,
    items: Seq<CompletionItem>,
) -> bool {
    match context_at(tree, offset) {
        CursorContext::Nowhere => items.len() == 0,
        CursorContext::TagName => offers_tags(models(items), entries),
        CursorContext::Attribute { tag_name } => models(items) == attribute_items(
            node_text(tree, tag_name, chars),
            entries,
        ),
    }
}

/// What `found` must be to be the completions at an editor position:
/// `None` where the text has no such line; an empty list where the line is
/// there and the column lies beyond the end of the text; else the
/// completions at the position's offset.
pub open spec fn completes_at(
    tree: &SyntaxTree,
    chars: Seq<char>,
    position: Position,
    entries: Map<Seq<char>, ComponentModel>,
    found: Option<Vec<CompletionItem>>,
) -> bool {
    match line_start(chars, position.line as usize) {
        Some(start) => found matches Some(items) && match byte_offset_after(
            chars,
            Some(start),
            position.character,
        ) {
            Some(offset) => completes(tree, chars, offset, entries, items@),
            None => items@.len() == 0,
        },
        None => found is None,
    }
}

/// The completions at `offset`, a byte offset into the text, as the spans
/// of the tree are. On a tag's name: every known selector. On
/// an attribute's name: the members of the component that the tag names.
/// Anywhere else: nothing.
pub fn completion(
    tree: &SyntaxTree,
    offset: usize,
    text: &TextBuffer,
    components: &ComponentIndex,
) -> (items: Vec<CompletionItem>)
    ensures
        completes(tree, text@, offset, components@, items@),
{
    match cursor_context(tree, offset) {
        CursorContext::Nowhere => Vec::new(),
        CursorContext::TagName => {
            let selectors = components.selectors();
            let items = tag_completions(&selectors);
            proof {
                assert forall|k: Seq<char>| #[trigger] components@.contains_key(k) implies exists|
                    i: int,
                |
                    0 <= i < models(items@).len() && (#[trigger] models(items@)[i]).label
                        == k by {
                    let i = texts(selectors@).index_of(k);
                    assert(models(items@)[i].label == k);
                }
            }
            items
        },
        CursorContext::Attribute { tag_name } => {
            let node = &tree.nodes[tag_name];
            let name = text.byte_span(node.start_byte, node.end_byte);
            attribute_completions(name, components)
        },
    }
}

/// The completions at an editor position: `None` where the buffer has no
/// such line, an empty list where the column lies beyond the end of the
/// text, else as `completion` says of the position's offset.
pub fn completion_at(
    tree: &SyntaxTree,
    text: &TextBuffer,
    position: Position,
    components: &ComponentIndex,
) -> (found: Option<Vec<CompletionItem>>)
    ensures
        completes_at(tree, text@, position, components@, found),
{
    if !text.has_line(position.line as usize) {
        return None;
    }
    match text.offset_of(position) {
        Some(offset) => Some(completion(tree, offset, text, components)),
        None => Some(Vec::new()),
    }
}

} // verus!
