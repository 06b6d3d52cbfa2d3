use component_analysis::analyzer::{file_reference, source_pattern, ComponentAnalyzer};
use component_analysis::component::{Component, ComponentIndex};
use component_analysis::extract::{
    build_component, classify_members, declared_components, file_components, marked_members,
    ComponentCapture, MemberCapture, RawDeclaration, RawMember,
};
use component_analysis::geometry::{
    to_position, to_range, Point, Position, Range, SourceRange,
};

const FOO_SOURCE: &str = "import { Component } from '@angular/core';\n\n@Component({\n  selector: 'app-foo',\n  template: '<p>foo</p>'\n})\nexport class FooComponent {\n  @Input() value: string;\n  @Output() changed = new EventEmitter<string>();\n  plain: number;\n}\n";

fn member(marker: &str, name: &str) -> MemberCapture {
    MemberCapture { marker: marker.to_string(), name: name.to_string() }
}

fn span(start_byte: usize, end_byte: usize, row: usize, from: usize, to: usize) -> SourceRange {
    SourceRange {
        start_byte,
        end_byte,
        start_point: Point { row, column: from },
        end_point: Point { row, column: to },
    }
}

#[test]
fn extracts_one_component_with_its_members() {
    let mut analyzer = ComponentAnalyzer::new().expect("the queries compile");
    let found = analyzer.find_components(FOO_SOURCE).expect("the source parses");
    assert_eq!(found.len(), 1);
    let component = build_component("/ws/src/foo.ts", &found[0]);
    assert_eq!(component.selector, "app-foo");
    assert_eq!(component.inputs, vec!["value".to_string()]);
    assert_eq!(component.outputs, vec!["changed".to_string()]);
    assert_eq!(component.file, "/ws/src/foo.ts");
}

#[test]
fn class_name_range_covers_the_class_name() {
    let mut analyzer = ComponentAnalyzer::new().expect("the queries compile");
    let found = analyzer.find_components(FOO_SOURCE).expect("the source parses");
    let range = found[0].class_name_range;
    assert_eq!(&FOO_SOURCE[range.start_byte..range.end_byte], "FooComponent");
    assert_eq!(range.start_point, Point { row: 6, column: 13 });
    assert_eq!(range.end_point, Point { row: 6, column: 25 });
    let component = build_component("foo.ts", &found[0]);
    assert_eq!(
        component.class_name_range,
        Range {
            start: Position { line: 6, character: 13 },
            end: Position { line: 6, character: 25 },
        }
    );
}

#[test]
fn analyze_file_fills_the_index() {
    let mut analyzer = ComponentAnalyzer::new().expect("the queries compile");
    let mut index = ComponentIndex::new();
    analyzer.analyze_file("/ws/src/foo.ts", FOO_SOURCE, &mut index);
    let found = index.get("app-foo").expect("the component is filed");
    assert_eq!(found.selector, "app-foo");
    assert_eq!(found.inputs, vec!["value".to_string()]);
    assert_eq!(found.outputs, vec!["changed".to_string()]);
    assert_eq!(index.selectors(), vec!["app-foo".to_string()]);
}

#[test]
fn extracting_twice_gives_equal_components() {
    let mut analyzer = ComponentAnalyzer::new().expect("the queries compile");
    let mut index = ComponentIndex::new();
    analyzer.analyze_file("/ws/src/foo.ts", FOO_SOURCE, &mut index);
    let first = index.get("app-foo").expect("the component is filed");
    analyzer.analyze_file("/ws/src/foo.ts", FOO_SOURCE, &mut index);
    let second = index.get("app-foo").expect("the component is still filed");
    assert_eq!(first, second);
    assert_eq!(index.selectors().len(), 1);
}

#[test]
fn source_without_components_files_nothing() {
    let mut analyzer = ComponentAnalyzer::new().expect("the queries compile");
    let mut index = ComponentIndex::new();
    analyzer.analyze_file("/ws/src/plain.ts", "export class Plain { x = 1; }\n", &mut index);
    assert!(index.selectors().is_empty());
    let found = analyzer.find_components("const a = 1;\n").expect("the source parses");
    assert!(found.is_empty());
}

#[test]
fn two_components_in_one_file() {
    let source = "@Component({ selector: 'app-a' })\nexport class A {\n  @Input() one;\n}\n\n@Component({ selector: 'app-b' })\nexport class B {\n  @Output() two;\n  @Input() three;\n}\n";
    let mut analyzer = ComponentAnalyzer::new().expect("the queries compile");
    let mut index = ComponentIndex::new();
    analyzer.analyze_file("ab.ts", source, &mut index);
    let a = index.get("app-a").expect("app-a is filed");
    let b = index.get("app-b").expect("app-b is filed");
    assert_eq!(a.inputs, vec!["one".to_string()]);
    assert!(a.outputs.is_empty());
    assert_eq!(b.inputs, vec!["three".to_string()]);
    assert_eq!(b.outputs, vec!["two".to_string()]);
}

#[test]
fn members_are_classified_in_source_order() {
    let members = vec![
        member("Output", "changed"),
        member("Input", "value"),
        member("Input", "label"),
        member("Output", "closed"),
    ];
    let (inputs, outputs) = classify_members(&members);
    assert_eq!(inputs, vec!["value".to_string(), "label".to_string()]);
    assert_eq!(outputs, vec!["changed".to_string(), "closed".to_string()]);
}

#[test]
fn no_members_give_empty_lists() {
    let (inputs, outputs) = classify_members(&Vec::new());
    assert!(inputs.is_empty());
    assert!(outputs.is_empty());
}

#[test]
fn build_component_copies_every_field() {
    let capture = ComponentCapture {
        selector: "app-foo".to_string(),
        class_name_range: span(40, 52, 2, 13, 25),
        members: vec![member("Input", "value"), member("Output", "changed")],
    };
    let component = build_component("a.ts", &capture);
    assert_eq!(
        component,
        Component {
            selector: "app-foo".to_string(),
            file: "a.ts".to_string(),
            class_name_range: Range {
                start: Position { line: 2, character: 13 },
                end: Position { line: 2, character: 25 },
            },
            inputs: vec!["value".to_string()],
            outputs: vec!["changed".to_string()],
        }
    );
}

#[test]
fn later_capture_replaces_earlier_with_same_selector() {
    let first = ComponentCapture {
        selector: "app-foo".to_string(),
        class_name_range: span(0, 3, 0, 0, 3),
        members: vec![member("Input", "old")],
    };
    let second = ComponentCapture {
        selector: "app-foo".to_string(),
        class_name_range: span(10, 13, 1, 0, 3),
        members: vec![member("Input", "new")],
    };
    let mut index = ComponentIndex::new();
    file_components(&mut index, "a.ts", &vec![first, second.clone()]);
    assert_eq!(index.selectors().len(), 1);
    assert_eq!(index.get("app-foo"), Some(build_component("a.ts", &second)));
}

#[test]
fn filing_twice_changes_nothing() {
    let captures = vec![
        ComponentCapture {
            selector: "app-a".to_string(),
            class_name_range: span(0, 1, 0, 0, 1),
            members: vec![member("Input", "x")],
        },
        ComponentCapture {
            selector: "app-b".to_string(),
            class_name_range: span(5, 6, 1, 0, 1),
            members: vec![member("Output", "y")],
        },
    ];
    let mut index = ComponentIndex::new();
    file_components(&mut index, "a.ts", &captures);
    let a = index.get("app-a");
    let b = index.get("app-b");
    file_components(&mut index, "a.ts", &captures);
    assert_eq!(index.get("app-a"), a);
    assert_eq!(index.get("app-b"), b);
    assert_eq!(index.selectors().len(), 2);
}

#[test]
fn positions_keep_rows_and_columns() {
    assert_eq!(
        to_position(Point { row: 2, column: 10 }),
        Position { line: 2, character: 10 }
    );
    assert_eq!(
        to_range(span(0, 3, 2, 10, 13)),
        Range {
            start: Position { line: 2, character: 10 },
            end: Position { line: 2, character: 13 },
        }
    );
}

#[test]
fn positions_keep_the_low_bits_of_large_coordinates() {
    let big: usize = (1usize << 32) + 7;
    assert_eq!(
        to_position(Point { row: big, column: u32::MAX as usize }),
        Position { line: 7, character: u32::MAX }
    );
}

#[test]
fn source_pattern_covers_the_source_directory() {
    assert_eq!(source_pattern("/home/me/ws"), "/home/me/ws/src/**/*.ts");
    assert_eq!(source_pattern(""), "/src/**/*.ts");
}

#[test]
fn file_reference_is_absolute() {
    assert_eq!(file_reference("/ws/src/foo.ts"), Some("file:///ws/src/foo.ts".to_string()));
    assert_eq!(file_reference("foo.ts"), Some("file:///foo.ts".to_string()));
    assert_eq!(file_reference("http://["), None);
}

#[test]
fn analyze_path_files_under_the_file_reference() {
    let mut analyzer = ComponentAnalyzer::new().expect("the queries compile");
    let mut index = ComponentIndex::new();
    assert!(analyzer.analyze_path("/ws/src/foo.ts", FOO_SOURCE, &mut index));
    let found = index.get("app-foo").expect("the component is filed");
    assert_eq!(found.file, "file:///ws/src/foo.ts");
    assert!(!analyzer.analyze_path("http://[", FOO_SOURCE, &mut ComponentIndex::new()));
}

#[test]
fn unresolved_path_leaves_the_index_alone() {
    let mut analyzer = ComponentAnalyzer::new().expect("the queries compile");
    let mut index = ComponentIndex::new();
    assert!(!analyzer.analyze_path("http://[", FOO_SOURCE, &mut index));
    assert!(index.selectors().is_empty());
}

#[test]
fn member_matches_without_a_part_are_passed_over() {
    let raw = vec![
        RawMember { marker: Some("Input".to_string()), name: Some("value".to_string()) },
        RawMember { marker: None, name: Some("lost".to_string()) },
        RawMember { marker: Some("Output".to_string()), name: None },
        RawMember { marker: Some("Output".to_string()), name: Some("changed".to_string()) },
    ];
    assert_eq!(
        marked_members(&raw),
        vec![member("Input", "value"), member("Output", "changed")]
    );
    assert!(marked_members(&Vec::new()).is_empty());
}

#[test]
fn component_matches_without_a_part_are_passed_over() {
    let whole = RawDeclaration {
        selector: Some("app-foo".to_string()),
        class_name_range: Some(span(40, 52, 2, 13, 25)),
        members: Some(vec![member("Input", "value")]),
    };
    let raw = vec![
        RawDeclaration { selector: None, ..whole.clone() },
        whole.clone(),
        RawDeclaration { class_name_range: None, ..whole.clone() },
        RawDeclaration { members: None, ..whole.clone() },
        RawDeclaration { selector: Some("app-bar".to_string()), members: Some(Vec::new()), ..whole },
    ];
    assert_eq!(
        declared_components(&raw),
        vec![
            ComponentCapture {
                selector: "app-foo".to_string(),
                class_name_range: span(40, 52, 2, 13, 25),
                members: vec![member("Input", "value")],
            },
            ComponentCapture {
                selector: "app-bar".to_string(),
                class_name_range: span(40, 52, 2, 13, 25),
                members: Vec::new(),
            },
        ]
    );
}

#[test]
fn component_matches_hold_every_part() {
    let mut analyzer = ComponentAnalyzer::new().expect("the queries compile");
    let raw = analyzer.component_matches(FOO_SOURCE).expect("the source parses");
    assert_eq!(raw.len(), 1);
    assert_eq!(raw[0].selector, Some("app-foo".to_string()));
    assert_eq!(
        raw[0].members,
        Some(vec![member("Input", "value"), member("Output", "changed")])
    );
    assert!(raw[0].class_name_range.is_some());
}

#[test]
fn only_input_and_output_markers_are_listed() {
    let source = "@Component({selector: 'app-m'})\nexport class M {\n  @MyInput() x;\n  @Input() y;\n  @Outputs() z;\n  @Output() w;\n}\n";
    let mut analyzer = ComponentAnalyzer::new().expect("the queries compile");
    let mut index = ComponentIndex::new();
    analyzer.analyze_file("m.ts", source, &mut index);
    let found = index.get("app-m").expect("the component is filed");
    assert_eq!(found.inputs, vec!["y".to_string()]);
    assert_eq!(found.outputs, vec!["w".to_string()]);
}

#[test]
fn other_markers_are_listed_nowhere() {
    let members = vec![member("MyInput", "x"), member("Input", "y"), member("Other", "z")];
    let (inputs, outputs) = classify_members(&members);
    assert_eq!(inputs, vec!["y".to_string()]);
    assert!(outputs.is_empty());
}

#[test]
fn members_of_a_nested_class_stay_with_their_own_component() {
    let source = "@Component({selector: 'app-a'})\nexport class A {\n  @Input() one;\n}\n@Component({selector: 'app-b'})\nexport class B {\n  @Input() two;\n  @Output() three;\n}\n";
    let analyzer = ComponentAnalyzer::new().expect("the queries compile");
    let found = analyzer.find_components(source).expect("the source parses");
    assert_eq!(found.len(), 2);
    assert_eq!(found[0].members, vec![member("Input", "one")]);
    assert_eq!(found[1].members, vec![member("Input", "two"), member("Output", "three")]);
}
