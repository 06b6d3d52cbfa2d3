use component_analysis::completion::{
    attribute_completions, completion, completion_at, cursor_context, make_completions,
    member_completions, tag_completions, CompletionItem, CompletionKind, CursorContext,
};
use component_analysis::component::{Component, ComponentIndex, Location};
use component_analysis::definition::{definition_at, definition_of, goto_definition};
use component_analysis::geometry::{Position, Range};
use component_analysis::parse::{link_rows, Document, NodeRow};
use component_analysis::store::DocumentStore;
use component_analysis::syntax::{find_node, is_listed, SyntaxNode, SyntaxTree};
use component_analysis::text::{offset_from_line_start, TextBuffer};

fn foo_range() -> Range {
    Range {
        start: Position { line: 2, character: 10 },
        end: Position { line: 2, character: 13 },
    }
}

fn foo_index() -> ComponentIndex {
    let mut index = ComponentIndex::new();
    index.insert(Component {
        selector: "app-foo".to_string(),
        file: "a.ts".to_string(),
        class_name_range: foo_range(),
        inputs: vec!["value".to_string()],
        outputs: vec!["changed".to_string()],
    });
    index
}

fn kinds(names: &[&str]) -> Vec<String> {
    names.iter().map(|name| name.to_string()).collect()
}

fn node(
    kind: &str,
    named: bool,
    start_byte: usize,
    end_byte: usize,
    parent: Option<usize>,
    first_child: Option<usize>,
    next_sibling: Option<usize>,
) -> SyntaxNode {
    SyntaxNode {
        kind: kind.to_string(),
        named,
        start_byte,
        end_byte,
        parent,
        first_child,
        next_sibling,
    }
}

/// `<app-foo val` as a well-formed start tag: fragment, element, start tag,
/// `<`, tag name, attribute, attribute name.
fn open_tag_tree() -> SyntaxTree {
    SyntaxTree {
        nodes: vec![
            node("fragment", true, 0, 12, None, Some(1), None),
            node("element", true, 0, 12, Some(0), Some(2), None),
            node("start_tag", true, 0, 12, Some(1), Some(3), None),
            node("<", false, 0, 1, Some(2), None, Some(4)),
            node("tag_name", true, 1, 8, Some(2), None, Some(5)),
            node("attribute", true, 9, 12, Some(2), Some(6), None),
            node("attribute_name", true, 9, 12, Some(5), None, None),
        ],
    }
}

#[test]
fn parsed_template_is_laid_out() {
    let document = Document::open("<div><app-foo [value]=\"x\"></app-foo>\n<p>text</p></div>")
        .expect("the template parses");
    assert!(document.tree().is_laid_out());
    assert_eq!(document.tree().nodes[0].kind, "fragment");
    assert_eq!(document.tree().nodes[0].parent, None);
    assert_eq!(document.text().len(), 54);
}

#[test]
fn parsed_template_keeps_document_order() {
    let document = Document::open("<app-foo></app-foo>").expect("the template parses");
    let kinds: Vec<&str> = document.tree().nodes.iter().map(|n| n.kind.as_str()).collect();
    assert_eq!(
        kinds,
        vec![
            "fragment", "element", "start_tag", "<", "tag_name", ">", "end_tag", "</",
            "tag_name", ">"
        ]
    );
    let name = &document.tree().nodes[4];
    assert_eq!((name.start_byte, name.end_byte), (1, 8));
    assert_eq!(name.parent, Some(2));
    assert_eq!(document.tree().nodes[2].first_child, Some(3));
    assert_eq!(document.tree().nodes[2].next_sibling, Some(6));
}

#[test]
fn find_node_returns_the_tag_name_for_offsets_inside_it() {
    let document = Document::open("<app-foo></app-foo>").expect("the template parses");
    let wanted = kinds(&["tag_name"]);
    for offset in 2..8 {
        assert_eq!(find_node(document.tree(), 0, offset, &wanted), Some(4));
    }
    for offset in 12..18 {
        assert_eq!(find_node(document.tree(), 0, offset, &wanted), Some(8));
    }
}

#[test]
fn find_node_treats_span_ends_as_inside() {
    let document = Document::open("<app-foo></app-foo>").expect("the template parses");
    let wanted = kinds(&["tag_name"]);
    assert_eq!(find_node(document.tree(), 0, 8, &wanted), Some(4));
    assert_eq!(find_node(document.tree(), 0, 1, &wanted), None);
}

#[test]
fn find_node_outside_every_span_finds_nothing() {
    let document = Document::open("<app-foo></app-foo>").expect("the template parses");
    assert_eq!(find_node(document.tree(), 0, 20, &kinds(&["tag_name"])), None);
    assert_eq!(find_node(document.tree(), 0, 1000, &kinds(&["fragment"])), None);
}

#[test]
fn find_node_does_not_leave_its_starting_node() {
    let tree = open_tag_tree();
    assert_eq!(find_node(&tree, 3, 5, &kinds(&["tag_name"])), None);
    assert_eq!(find_node(&tree, 4, 5, &kinds(&["tag_name"])), Some(4));
    assert_eq!(find_node(&tree, 7, 5, &kinds(&["tag_name"])), None);
}

#[test]
fn find_node_stops_at_links_that_point_back() {
    let tree = SyntaxTree {
        nodes: vec![
            node("a", true, 0, 10, None, Some(1), None),
            node("b", true, 0, 10, Some(0), Some(0), None),
        ],
    };
    assert_eq!(find_node(&tree, 0, 5, &kinds(&["c"])), None);
    assert!(!tree.is_laid_out());
}

#[test]
fn listed_kinds_are_compared_by_text() {
    let wanted = kinds(&["start_tag", "self_closing_tag"]);
    assert!(is_listed(&wanted, &"self_closing_tag".to_string()));
    assert!(!is_listed(&wanted, &"tag_name".to_string()));
    assert!(!is_listed(&Vec::new(), &"tag_name".to_string()));
}

#[test]
fn first_named_child_skips_anonymous_nodes() {
    let tree = open_tag_tree();
    assert_eq!(tree.named_child(2), Some(4));
    assert_eq!(tree.named_child(4), None);
    assert_eq!(tree.named_child(99), None);
}

#[test]
fn cursor_contexts() {
    let tree = open_tag_tree();
    assert_eq!(cursor_context(&tree, 4), CursorContext::TagName);
    assert_eq!(cursor_context(&tree, 10), CursorContext::Attribute { tag_name: 4 });
    assert_eq!(cursor_context(&tree, 50), CursorContext::Nowhere);
}

#[test]
fn completion_after_the_space_yields_nothing() {
    let document = Document::open("<app-foo ").expect("the template parses");
    let items = completion(document.tree(), 9, document.text(), &foo_index());
    assert_eq!(items, Vec::new());
}

#[test]
fn completion_on_a_partial_attribute_offers_the_members() {
    let text = TextBuffer::new("<app-foo val");
    let items = completion(&open_tag_tree(), 11, &text, &foo_index());
    assert_eq!(
        items,
        vec![
            CompletionItem {
                label: "value".to_string(),
                kind: CompletionKind::Field,
                insert_text: Some("[value]=\"$0\"".to_string()),
                snippet: true,
            },
            CompletionItem {
                label: "changed".to_string(),
                kind: CompletionKind::Field,
                insert_text: Some("(changed)=\"$0\"".to_string()),
                snippet: true,
            },
        ]
    );
}

#[test]
fn completion_on_a_parsed_attribute_offers_the_members() {
    let document = Document::open("<app-foo val></app-foo>").expect("the template parses");
    let items = completion(document.tree(), 11, document.text(), &foo_index());
    let labels: Vec<&str> = items.iter().map(|item| item.label.as_str()).collect();
    assert_eq!(labels, vec!["value", "changed"]);
    assert_eq!(items[0].insert_text, Some("[value]=\"$0\"".to_string()));
}

#[test]
fn completion_on_a_tag_name_offers_every_selector() {
    let mut index = foo_index();
    index.insert(Component {
        selector: "app-bar".to_string(),
        file: "b.ts".to_string(),
        class_name_range: foo_range(),
        inputs: Vec::new(),
        outputs: Vec::new(),
    });
    let document = Document::open("<app-f></app-f>").expect("the template parses");
    let mut items = completion(document.tree(), 3, document.text(), &index);
    items.sort_by(|a, b| a.label.cmp(&b.label));
    assert_eq!(
        items,
        vec![
            CompletionItem {
                label: "app-bar".to_string(),
                kind: CompletionKind::Keyword,
                insert_text: None,
                snippet: false,
            },
            CompletionItem {
                label: "app-foo".to_string(),
                kind: CompletionKind::Keyword,
                insert_text: None,
                snippet: false,
            },
        ]
    );
}

#[test]
fn completion_for_an_unknown_tag_yields_nothing() {
    let document = Document::open("<app-bar val></app-bar>").expect("the template parses");
    assert!(completion(document.tree(), 11, document.text(), &foo_index()).is_empty());
}

#[test]
fn completion_outside_any_tag_yields_nothing() {
    let document = Document::open("<p>hello</p>").expect("the template parses");
    assert!(completion(document.tree(), 5, document.text(), &foo_index()).is_empty());
}

#[test]
fn completion_at_a_position_maps_lines_to_offsets() {
    let document = Document::open("<p>\n<app-foo val></app-foo>\n</p>").expect("the template parses");
    let index = foo_index();
    let on_attribute = Position { line: 1, character: 11 };
    let items = completion_at(document.tree(), document.text(), on_attribute, &index)
        .expect("the line exists");
    assert_eq!(items.len(), 2);
    assert_eq!(items[0].label, "value");
    let beyond = Position { line: 9, character: 0 };
    assert_eq!(completion_at(document.tree(), document.text(), beyond, &index), None);
}

#[test]
fn tag_completions_are_keywords() {
    let items = tag_completions(&kinds(&["app-a", "app-b"]));
    assert_eq!(items.len(), 2);
    assert_eq!(items[1].label, "app-b");
    assert_eq!(items[1].kind, CompletionKind::Keyword);
    assert_eq!(items[1].insert_text, None);
    assert!(!items[1].snippet);
}

#[test]
fn make_completions_wraps_each_name() {
    let items = make_completions(&kinds(&["a", "bc"]), "[", "]=\"$0\"");
    assert_eq!(items[0].insert_text, Some("[a]=\"$0\"".to_string()));
    assert_eq!(items[1].insert_text, Some("[bc]=\"$0\"".to_string()));
    assert_eq!(items[1].label, "bc");
    assert!(make_completions(&Vec::new(), "(", ")").is_empty());
}

#[test]
fn member_completions_list_inputs_before_outputs() {
    let component = Component {
        selector: "app-x".to_string(),
        file: "x.ts".to_string(),
        class_name_range: foo_range(),
        inputs: vec!["i1".to_string(), "i2".to_string()],
        outputs: vec!["o1".to_string()],
    };
    let texts: Vec<Option<String>> =
        member_completions(&component).into_iter().map(|item| item.insert_text).collect();
    assert_eq!(
        texts,
        vec![
            Some("[i1]=\"$0\"".to_string()),
            Some("[i2]=\"$0\"".to_string()),
            Some("(o1)=\"$0\"".to_string()),
        ]
    );
}

#[test]
fn attribute_completions_need_a_known_tag() {
    let index = foo_index();
    assert!(attribute_completions(None, &index).is_empty());
    assert!(attribute_completions(Some("app-bar".to_string()), &index).is_empty());
    assert_eq!(attribute_completions(Some("app-foo".to_string()), &index).len(), 2);
}

#[test]
fn definition_of_a_known_tag() {
    let document = Document::open("<app-foo></app-foo>").expect("the template parses");
    let index = foo_index();
    let expected = Some(Location { file: "a.ts".to_string(), range: foo_range() });
    assert_eq!(definition_at(document.tree(), 4, document.text(), &index), expected);
    let position = Position { line: 0, character: 4 };
    assert_eq!(goto_definition(document.tree(), document.text(), position, &index), expected);
    let closing = Position { line: 0, character: 14 };
    assert_eq!(goto_definition(document.tree(), document.text(), closing, &index), expected);
}

#[test]
fn definition_of_an_unknown_tag_is_none() {
    let document = Document::open("<app-bar></app-bar>").expect("the template parses");
    let position = Position { line: 0, character: 4 };
    assert_eq!(goto_definition(document.tree(), document.text(), position, &foo_index()), None);
}

#[test]
fn definition_outside_a_tag_name_is_none() {
    let document = Document::open("<app-foo>text</app-foo>").expect("the template parses");
    let index = foo_index();
    assert_eq!(definition_at(document.tree(), 11, document.text(), &index), None);
    let beyond = Position { line: 3, character: 0 };
    assert_eq!(goto_definition(document.tree(), document.text(), beyond, &index), None);
}

#[test]
fn definition_of_a_tag_text() {
    let index = foo_index();
    assert_eq!(definition_of(None, &index), None);
    assert_eq!(definition_of(Some("app-nope".to_string()), &index), None);
    assert_eq!(
        definition_of(Some("app-foo".to_string()), &index),
        Some(Location { file: "a.ts".to_string(), range: foo_range() })
    );
}

#[test]
fn offsets_count_from_the_start_of_the_line() {
    let text = TextBuffer::new("ab\ncde\n\nf");
    assert_eq!(text.len(), 9);
    assert_eq!(text.offset_of(Position { line: 0, character: 1 }), Some(1));
    assert_eq!(text.offset_of(Position { line: 1, character: 2 }), Some(5));
    assert_eq!(text.offset_of(Position { line: 2, character: 0 }), Some(7));
    assert_eq!(text.offset_of(Position { line: 3, character: 0 }), Some(8));
    assert_eq!(text.offset_of(Position { line: 4, character: 0 }), Some(9));
    assert_eq!(text.offset_of(Position { line: 5, character: 0 }), None);
}

#[test]
fn offset_from_line_start_adds_or_gives_up() {
    assert_eq!(offset_from_line_start(Some(10), 5), Some(15));
    assert_eq!(offset_from_line_start(None, 5), None);
    assert_eq!(offset_from_line_start(Some(usize::MAX), 1), None);
    assert_eq!(offset_from_line_start(Some(usize::MAX - 1), 1), Some(usize::MAX));
}

#[test]
fn spans_are_read_by_character() {
    let text = TextBuffer::new("<app-foo val");
    assert_eq!(text.span(1, 8), Some("app-foo".to_string()));
    assert_eq!(text.span(9, 12), Some("val".to_string()));
    assert_eq!(text.span(3, 3), Some(String::new()));
    assert_eq!(text.span(8, 1), None);
    assert_eq!(text.span(9, 13), None);
}

#[test]
fn store_replaces_and_forgets_documents() {
    let mut store = DocumentStore::new();
    assert!(store.get("file:///a.html").is_none());
    assert!(store.on_change("file:///a.html", "<p>one</p>"));
    assert_eq!(store.get("file:///a.html").expect("the document is open").text().len(), 10);
    assert!(store.on_change("file:///a.html", "<app-foo></app-foo>"));
    let document = store.get("file:///a.html").expect("the document is open");
    assert_eq!(document.text().len(), 19);
    assert_eq!(document.tree().nodes[4].kind, "tag_name");
    assert!(store.get("file:///b.html").is_none());
    store.close("file:///a.html");
    assert!(store.get("file:///a.html").is_none());
}

#[test]
fn store_answers_requests_for_open_documents_only() {
    let mut store = DocumentStore::new();
    let index = foo_index();
    let on_name = Position { line: 0, character: 4 };
    assert_eq!(store.goto_definition("file:///a.html", on_name, &index), None);
    assert_eq!(store.completion("file:///a.html", on_name, &index), None);
    assert!(store.on_change("file:///a.html", "<app-foo val></app-foo>"));
    assert_eq!(
        store.goto_definition("file:///a.html", on_name, &index),
        Some(Location { file: "a.ts".to_string(), range: foo_range() })
    );
    let on_attribute = Position { line: 0, character: 10 };
    let items = store.completion("file:///a.html", on_attribute, &index).expect("open");
    assert_eq!(items.len(), 2);
    let far = Position { line: 7, character: 0 };
    assert_eq!(store.completion("file:///a.html", far, &index), None);
}

#[test]
fn completion_on_an_unfinished_attribute_offers_value() {
    let document = Document::open("<app-foo val").expect("the template parses");
    let items = completion(document.tree(), 11, document.text(), &foo_index());
    assert!(!items.is_empty());
    assert_eq!(items[0].label, "value");
    assert_eq!(items[0].insert_text, Some("[value]=\"$0\"".to_string()));
    assert_eq!(items[0].kind, CompletionKind::Field);
    assert!(items[0].snippet);
}

#[test]
fn spans_of_any_length_are_read_whole() {
    let text: String = (0..20000).map(|i| if i % 7 == 0 { 'x' } else { 'y' }).collect();
    let buffer = TextBuffer::new(&text);
    assert_eq!(buffer.span(0, 20000), Some(text.clone()));
    assert_eq!(buffer.span(5, 15003), Some(text[5..15003].to_string()));
    assert_eq!(buffer.span(0, 20001), None);
}

#[test]
fn spans_count_characters_not_bytes() {
    let buffer = TextBuffer::new("a\u{e9}b\u{4e16}c");
    assert_eq!(buffer.len(), 5);
    assert_eq!(buffer.span(1, 4), Some("\u{e9}b\u{4e16}".to_string()));
}

#[test]
fn definition_far_into_a_long_document() {
    let mut text = String::new();
    for _ in 0..2000 {
        text.push_str("<p>filler</p>\n");
    }
    let start = text.len();
    text.push_str("<app-foo></app-foo>");
    let document = Document::open(&text).expect("the template parses");
    let index = foo_index();
    assert_eq!(
        definition_at(document.tree(), start + 4, document.text(), &index),
        Some(Location { file: "a.ts".to_string(), range: foo_range() })
    );
    let position = Position { line: 2000, character: 4 };
    assert_eq!(
        goto_definition(document.tree(), document.text(), position, &index),
        Some(Location { file: "a.ts".to_string(), range: foo_range() })
    );
}


#[test]
fn offsets_are_bytes_and_positions_are_characters() {
    let text = TextBuffer::new("\u{e9}\nab");
    assert_eq!(text.char_index_of(Position { line: 1, character: 1 }), Some(3));
    assert_eq!(text.offset_of(Position { line: 1, character: 1 }), Some(4));
    assert_eq!(text.offset_of(Position { line: 0, character: 1 }), Some(2));
    assert_eq!(text.offset_of(Position { line: 1, character: 2 }), Some(5));
    assert_eq!(text.offset_of(Position { line: 1, character: 3 }), None);
    assert_eq!(text.offset_of(Position { line: 3, character: 0 }), None);
}

#[test]
fn byte_spans_end_between_characters() {
    let text = TextBuffer::new("a\u{e9}b\u{4e16}");
    assert_eq!(text.byte_span(1, 3), Some("\u{e9}".to_string()));
    assert_eq!(text.byte_span(0, 7), Some("a\u{e9}b\u{4e16}".to_string()));
    assert_eq!(text.byte_span(4, 4), Some(String::new()));
    assert_eq!(text.byte_span(1, 2), None);
    assert_eq!(text.byte_span(2, 3), None);
    assert_eq!(text.byte_span(3, 1), None);
    assert_eq!(text.byte_span(0, 8), None);
}

#[test]
fn tags_after_text_that_is_not_ascii_are_read_whole() {
    let document = Document::open("<b>\u{e9}\u{4e16}</b><app-foo val></app-foo>")
        .expect("the template parses");
    let index = foo_index();
    let expected = Some(Location { file: "a.ts".to_string(), range: foo_range() });
    let on_name = Position { line: 0, character: 12 };
    assert_eq!(goto_definition(document.tree(), document.text(), on_name, &index), expected);
    assert_eq!(definition_at(document.tree(), 16, document.text(), &index), expected);
    let on_attribute = Position { line: 0, character: 19 };
    let items = completion_at(document.tree(), document.text(), on_attribute, &index)
        .expect("the position lies in the text");
    assert_eq!(items.len(), 2);
    assert_eq!(items[0].label, "value");
}

#[test]
fn completion_past_the_end_of_the_text_is_an_empty_list() {
    let document = Document::open("<p>a</p>\n<b></b>").expect("the template parses");
    let index = foo_index();
    let past_the_end = Position { line: 1, character: 100 };
    assert_eq!(
        completion_at(document.tree(), document.text(), past_the_end, &index),
        Some(Vec::new())
    );
    let past_the_line = Position { line: 0, character: 100 };
    assert_eq!(
        completion_at(document.tree(), document.text(), past_the_line, &index),
        Some(Vec::new())
    );
    let no_such_line = Position { line: 5, character: 0 };
    assert_eq!(completion_at(document.tree(), document.text(), no_such_line, &index), None);
    let mut store = DocumentStore::new();
    assert!(store.on_change("file:///a.html", "<p>a</p>\n<b></b>"));
    assert_eq!(store.completion("file:///a.html", past_the_end, &index), Some(Vec::new()));
    assert_eq!(store.completion("file:///a.html", no_such_line, &index), None);
    assert_eq!(store.completion("file:///b.html", past_the_end, &index), None);
}

#[test]
fn buffer_knows_its_lines() {
    let text = TextBuffer::new("ab\ncd");
    assert!(text.has_line(0));
    assert!(text.has_line(1));
    assert!(text.has_line(2));
    assert!(!text.has_line(3));
}

#[test]
fn rows_are_linked_by_their_depths() {
    let row = |kind: &str, depth: usize, start_byte: usize, end_byte: usize| NodeRow {
        kind: kind.to_string(),
        named: depth != 2,
        start_byte,
        end_byte,
        depth,
    };
    let rows = vec![
        row("fragment", 0, 0, 10),
        row("element", 1, 0, 6),
        row("<", 2, 0, 1),
        row(">", 2, 5, 6),
        row("text", 1, 6, 10),
    ];
    let tree = link_rows(&rows);
    let parents: Vec<Option<usize>> = tree.nodes.iter().map(|n| n.parent).collect();
    let children: Vec<Option<usize>> = tree.nodes.iter().map(|n| n.first_child).collect();
    let siblings: Vec<Option<usize>> = tree.nodes.iter().map(|n| n.next_sibling).collect();
    assert_eq!(parents, vec![None, Some(0), Some(1), Some(1), Some(0)]);
    assert_eq!(children, vec![Some(1), Some(2), None, None, None]);
    assert_eq!(siblings, vec![None, Some(4), Some(3), None, None]);
    assert_eq!(tree.nodes[3].kind, ">");
    assert_eq!((tree.nodes[3].start_byte, tree.nodes[3].end_byte), (5, 6));
    assert!(!tree.nodes[2].named);
    assert!(tree.is_laid_out());
    assert!(link_rows(&Vec::new()).nodes.is_empty());
}

#[test]
fn parsed_template_links_parents_children_and_siblings() {
    let document = Document::open("<a><b></b>x</a>").expect("the template parses");
    let nodes = &document.tree().nodes;
    let kinds: Vec<&str> = nodes.iter().map(|n| n.kind.as_str()).collect();
    assert_eq!(kinds[0], "fragment");
    assert_eq!(kinds[1], "element");
    assert_eq!(nodes[1].parent, Some(0));
    assert_eq!(nodes[0].first_child, Some(1));
    assert_eq!(nodes[0].next_sibling, None);
    for (i, node) in nodes.iter().enumerate() {
        if let Some(c) = node.first_child {
            assert_eq!(c, i + 1);
            assert_eq!(nodes[c].parent, Some(i));
        }
        if let Some(s) = node.next_sibling {
            assert!(s > i);
            assert_eq!(nodes[s].parent, node.parent);
            assert!(node.end_byte <= nodes[s].start_byte);
        }
    }
    assert!(document.tree().is_laid_out());
}
