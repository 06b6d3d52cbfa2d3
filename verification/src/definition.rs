//! Jump to definition: from the tag under the cursor to the place where the
//! component that it names is declared.

use vstd::prelude::*;
use crate::component::{ComponentIndex, ComponentModel, Location};
use crate::completion::{node_text, one_kind};
use crate::geometry::{Position, Range};
use crate::syntax::{find_node, SyntaxTree};
use crate::text::{byte_offset_after, line_start, TextBuffer};

verus! {

/// What a location says, as plain values.
pub ghost struct LocationModel {
    pub file: Seq<char>,
    pub range: Range,
}

impl View for Location {
    type V = LocationModel;

    open spec fn view(&self) -> LocationModel {
        LocationModel { file: self.file@, range: self.range }
    }
}

/// What an optional location says.
pub open spec fn location_model(location: Option<Location>) -> Option<LocationModel> {
    match location {
        Some(l) => Some(l@),
        None => None,
    }
}

/// Where the component that a tag reading `tag` names is declared: the
/// class name of the component filed under that selector, nothing where no
/// name could be read or no component is filed under it.
pub open spec fn declared_at(tag: Option<Seq<char>>, entries: Map<Seq<char>, ComponentModel>)
    -> Option<LocationModel> {
    match tag {
        Some(t) => if entries.contains_key(t) {
            Some(LocationModel { file: entries[t].file, range: entries[t].class_name_range })
        } else {
            None
        },
        None => None,
    }
}

/// Resolves the tag name `tag` against the index.
pub fn definition_of(tag: Option<String>, components: &ComponentIndex) -> (location: Option<
    Location,
>)
    ensures
        location_model(location) == declared_at(
            match tag {
                Some(t) => Some(t@),
                None => None,
            },
            components@,
        ),
{
    let found = match tag {
        Some(t) => components.get(t.as_str()),
        None => None,
    };
    match found {
        Some(component) => Some(
            Location { file: component.file, range: component.class_name_range },
        ),
        None => None,
    }
}

/// What `location` must be to be the definition at `offset`: nothing where
/// no tag name is there; else the declaration that the index holds for the
/// tag's text, nothing where it holds none.
pub open spec fn defines(
    tree: &SyntaxTree,
    chars: Seq<char>,
    offset: usize,
    entries: Map<Seq<char>, ComponentModel>,
    location: Option<Location>,
) -> bool {
    match tree.locate(0, true, offset, seq!["tag_name"@]) {
        Some(node) => location_model(location) == declared_at(
            node_text(tree, node, chars),
            entries,
        ),
        None => location is None,
    }
}

/// What `location` must be to be the definition at an editor position:
/// nothing where the position has no offset in the text, else the
/// definition at that offset.
pub open spec fn defines_at(
    tree: &SyntaxTree,
    chars: Seq<char>,
    position: Position,
    entries: Map<Seq<char>, ComponentModel>,
    location: Option<Location>,
) -> bool {
    match byte_offset_after(chars, line_start(chars, position.line as usize), position.character) {
        Some(offset) => defines(tree, chars, offset, entries, location),
        None => location is None,
    }
}

/// The definition for the tag name under the byte offset `offset`: nothing where no tag
/// name is there, else what the index holds for its text.
pub fn definition_at(
    tree: &SyntaxTree,
    offset: usize,
    text: &TextBuffer,
    components: &ComponentIndex,
) -> (location: Option<Location>)
    ensures
        defines(tree, text@, offset, components@, location),
{
    let names = one_kind("tag_name");
    match find_node(tree, 0, offset, &names) {
        Some(at) => {
            let node = &tree.nodes[at];
            let name = text.byte_span(node.start_byte, node.end_byte);
            definition_of(name, components)
        },
        None => None,
    }
}

/// The definition for the tag name under an editor position: nothing where
/// the position has no offset in the buffer, else as `definition_at` says of
/// that offset.
pub fn goto_definition(
    tree: &SyntaxTree,
    text: &TextBuffer,
    position: Position,
    components: &ComponentIndex,
) -> (location: Option<Location>)
    ensures
        defines_at(tree, text@, position, components@, location),
{
    match text.offset_of(position) {
        Some(offset) => definition_at(tree, offset, text, components),
        None => None,
    }
}

} // verus!
