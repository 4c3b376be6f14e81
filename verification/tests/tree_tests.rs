use ftool::parse::{parse_document, pretty_document};
use ftool::tree::{build_tree, JsonValue, NodeKind, PathSet, ScalarType};

fn sample_doc() -> JsonValue {
    // { "a": [1, true], "b": "x" }
    JsonValue::Obj(vec![
        (
            "a".to_owned(),
            JsonValue::Arr(vec![JsonValue::Num("1".to_owned()), JsonValue::Bool(true)]),
        ),
        ("b".to_owned(), JsonValue::Str("x".to_owned())),
    ])
}

#[test]
fn full_tree_lists_every_node() {
    let doc = sample_doc();
    let tree = build_tree(&doc, &PathSet::new());
    // one entry per scalar or container node: root, a, a[0], a[1], b
    assert_eq!(tree.len(), 5);
    let paths: Vec<&str> = tree.iter().map(|(p, _)| p.as_str()).collect();
    assert_eq!(paths, vec!["", "a", "a[0]", "a[1]", "b"]);
}

#[test]
fn tree_records_depth_keys_and_kinds() {
    let doc = sample_doc();
    let tree = build_tree(&doc, &PathSet::new());
    assert_eq!(tree[0].1.depth, 0);
    assert!(matches!(tree[0].1.kind, NodeKind::Object));
    assert_eq!(tree[0].1.child_count, 2);
    assert_eq!(tree[1].1.key.as_deref(), Some("a"));
    assert!(matches!(tree[1].1.kind, NodeKind::Array));
    assert_eq!(tree[2].1.depth, 2);
    assert_eq!(tree[2].1.key.as_deref(), Some("0"));
    match &tree[2].1.kind {
        NodeKind::Scalar(text, st) => {
            assert_eq!(text, "1");
            assert_eq!(*st, ScalarType::Number);
        },
        _ => panic!("expected a scalar"),
    }
    match &tree[4].1.kind {
        NodeKind::Scalar(text, st) => {
            assert_eq!(text, "x");
            assert_eq!(*st, ScalarType::String);
        },
        _ => panic!("expected a scalar"),
    }
}

#[test]
fn collapsing_removes_exactly_the_descendants() {
    let doc = sample_doc();
    let mut collapsed = PathSet::new();
    collapsed.toggle(&"a".to_owned());
    let tree = build_tree(&doc, &collapsed);
    let paths: Vec<&str> = tree.iter().map(|(p, _)| p.as_str()).collect();
    // the collapsed container stays listed, its two descendants disappear
    assert_eq!(paths, vec!["", "a", "b"]);
    assert!(tree[1].1.collapsed);
}

#[test]
fn toggle_twice_restores_the_original_list() {
    let doc = sample_doc();
    let before = build_tree(&doc, &PathSet::new());
    let mut collapsed = PathSet::new();
    collapsed.toggle(&"a".to_owned());
    collapsed.toggle(&"a".to_owned());
    let after = build_tree(&doc, &collapsed);
    assert_eq!(before.len(), after.len());
    for (x, y) in before.iter().zip(after.iter()) {
        assert_eq!(x.0, y.0);
        assert_eq!(x.1.collapsed, y.1.collapsed);
    }
}

#[test]
fn scalar_display_texts() {
    let doc = JsonValue::Arr(vec![
        JsonValue::Null,
        JsonValue::Bool(false),
        JsonValue::Num("2.5".to_owned()),
    ]);
    let tree = build_tree(&doc, &PathSet::new());
    match &tree[1].1.kind {
        NodeKind::Scalar(t, st) => {
            assert_eq!(t, "null");
            assert_eq!(*st, ScalarType::Null);
        },
        _ => panic!(),
    }
    match &tree[2].1.kind {
        NodeKind::Scalar(t, st) => {
            assert_eq!(t, "false");
            assert_eq!(*st, ScalarType::Bool);
        },
        _ => panic!(),
    }
    match &tree[3].1.kind {
        NodeKind::Scalar(t, _) => assert_eq!(t, "2.5"),
        _ => panic!(),
    }
}

#[test]
fn parse_document_reads_every_variant() {
    let doc = parse_document("{\"n\": null, \"b\": true, \"x\": 3, \"s\": \"hi\", \"a\": [1, 2]}")
        .unwrap();
    match doc {
        JsonValue::Obj(fields) => {
            assert_eq!(fields.len(), 5);
            // serde_json orders object members by key
            assert_eq!(fields[0].0, "a");
            assert!(matches!(fields[1].1, JsonValue::Bool(true)));
            assert!(matches!(fields[2].1, JsonValue::Null));
            match &fields[3].1 {
                JsonValue::Str(s) => assert_eq!(s, "hi"),
                _ => panic!("expected a string"),
            }
            match &fields[4].1 {
                JsonValue::Num(n) => assert_eq!(n, "3"),
                _ => panic!("expected a number"),
            }
        },
        _ => panic!("expected an object"),
    }
}

#[test]
fn parse_document_rejects_bad_text() {
    assert!(parse_document("{ not json").is_err());
}

#[test]
fn pretty_document_lays_out_the_text() {
    assert_eq!(pretty_document("{\"a\":1}"), "{\n  \"a\": 1\n}");
    assert_eq!(pretty_document("not json"), "");
}

#[test]
fn path_set_toggle_flips_membership() {
    let mut s = PathSet::new();
    let p = "a.b".to_owned();
    assert!(!s.contains(&p));
    s.toggle(&p);
    assert!(s.contains(&p));
    s.toggle(&p);
    assert!(!s.contains(&p));
}
