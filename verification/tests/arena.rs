//! Tests of the arena model, bounds-checked id resolution, key and
//! positional lookup, and the renderer, on documents built directly from
//! records.
use yaml_arena::Document;
use yaml_arena::LookupError;
use yaml_arena::NodeData;
use yaml_arena::Pair;
use yaml_arena::RenderError;
use yaml_arena::RootError;
use yaml_arena::Style;

fn scalar(text: &[u8]) -> NodeData {
    NodeData::Scalar { text: text.to_vec(), style: Style::Plain }
}

#[test]
fn get_node_bounds_never_phantom() {
    let records = vec![scalar(b"a"), scalar(b"b"), scalar(b"c")];
    let doc = Document::from_records(records).unwrap();
    assert_eq!(doc.len(), 3);
    assert!(doc.get_node(0).is_none());
    assert!(doc.get_node(4).is_none());
    assert!(doc.get_node(usize::MAX).is_none());
    for id in 1..=3 {
        assert!(doc.get_node(id).is_some());
    }
}

#[test]
fn empty_document_has_no_root() {
    let doc = Document::new();
    assert!(doc.get_node(0).is_none());
    assert!(doc.get_node(1).is_none());
    assert_eq!(doc.get_root_node().unwrap_err(), RootError::NoRoot);
}

#[test]
fn from_records_rejects_dangling_sequence_item() {
    let records = vec![NodeData::Sequence { items: vec![2] }];
    assert!(Document::from_records(records).is_none());
}

#[test]
fn from_records_rejects_dangling_pair_and_id_zero() {
    let bad_value = vec![
        NodeData::Mapping { pairs: vec![Pair { key: 2, value: 3 }] },
        scalar(b"k"),
    ];
    assert!(Document::from_records(bad_value).is_none());
    let zero_item = vec![NodeData::Sequence { items: vec![0] }];
    assert!(Document::from_records(zero_item).is_none());
}

#[test]
fn lookup_returns_first_match_with_duplicate_keys() {
    let records = vec![
        NodeData::Mapping {
            pairs: vec![Pair { key: 2, value: 3 }, Pair { key: 4, value: 5 }],
        },
        scalar(b"a"),
        scalar(b"first"),
        scalar(b"a"),
        scalar(b"second"),
    ];
    let doc = Document::from_records(records).unwrap();
    let root = doc.get_root_node().unwrap();
    let v = root.lookup("a").unwrap().unwrap();
    assert_eq!(v.id(), 3);
    match v.data() {
        NodeData::Scalar { text, .. } => assert_eq!(text.as_slice(), b"first"),
        _ => panic!("expected a scalar value"),
    }
}

#[test]
fn lookup_miss_is_none_not_an_error() {
    let records = vec![
        NodeData::Mapping { pairs: vec![Pair { key: 2, value: 3 }] },
        scalar(b"present"),
        scalar(b"value"),
    ];
    let doc = Document::from_records(records).unwrap();
    let root = doc.get_root_node().unwrap();
    assert!(root.lookup("absent").unwrap().is_none());
}

#[test]
fn lookup_skips_non_scalar_keys() {
    let records = vec![
        NodeData::Mapping {
            pairs: vec![Pair { key: 2, value: 3 }, Pair { key: 4, value: 5 }],
        },
        NodeData::Sequence { items: vec![3] },
        scalar(b"not me"),
        scalar(b"k"),
        scalar(b"me"),
    ];
    let doc = Document::from_records(records).unwrap();
    let root = doc.get_root_node().unwrap();
    let v = root.lookup("k").unwrap().unwrap();
    assert_eq!(v.id(), 5);
}

#[test]
fn lookup_on_scalar_or_sequence_signals_not_a_mapping() {
    let records = vec![NodeData::Sequence { items: vec![2] }, scalar(b"x")];
    let doc = Document::from_records(records).unwrap();
    let root = doc.get_root_node().unwrap();
    assert_eq!(root.lookup("k").unwrap_err(), LookupError::NotAMapping);
    let leaf = doc.get_node(2).unwrap();
    assert_eq!(leaf.lookup("k").unwrap_err(), LookupError::NotAMapping);
}

#[test]
fn malformed_scalar_key_is_a_hard_error() {
    let records = vec![
        NodeData::Mapping { pairs: vec![Pair { key: 2, value: 3 }] },
        NodeData::Scalar { text: vec![0xff, 0xfe], style: Style::Plain },
        scalar(b"v"),
    ];
    let doc = Document::from_records(records).unwrap();
    let root = doc.get_root_node().unwrap();
    assert_eq!(root.lookup("k").unwrap_err(), LookupError::MalformedKeyEncoding);
}

#[test]
fn index_is_bounds_checked() {
    let records = vec![
        NodeData::Sequence { items: vec![2, 3] },
        scalar(b"one"),
        scalar(b"two"),
    ];
    let doc = Document::from_records(records).unwrap();
    let root = doc.get_root_node().unwrap();
    assert_eq!(root.index(0).unwrap().unwrap().id(), 2);
    assert_eq!(root.index(1).unwrap().unwrap().id(), 3);
    assert!(root.index(2).unwrap().is_none());
    let leaf = doc.get_node(2).unwrap();
    assert_eq!(leaf.index(0).unwrap_err(), LookupError::NotASequence);
}

#[test]
fn render_empty_containers() {
    let seq = Document::from_records(vec![NodeData::Sequence { items: vec![] }]).unwrap();
    let root = seq.get_root_node().unwrap();
    assert_eq!(root.render().unwrap(), "List [  ]");
    let map = Document::from_records(vec![NodeData::Mapping { pairs: vec![] }]).unwrap();
    let root = map.get_root_node().unwrap();
    assert_eq!(root.render().unwrap(), "Map {  }");
}

#[test]
fn render_scalar_shows_text_style_and_length() {
    let records = vec![NodeData::Scalar { text: b"foo".to_vec(), style: Style::DoubleQuoted }];
    let doc = Document::from_records(records).unwrap();
    let root = doc.get_root_node().unwrap();
    assert_eq!(root.render().unwrap(), "Scalar ( foo, style: double quoted, length: 3 )");
}

#[test]
fn render_length_uses_decimal_digits() {
    let records = vec![NodeData::Scalar { text: b"twelve bytes".to_vec(), style: Style::Any }];
    let doc = Document::from_records(records).unwrap();
    let root = doc.get_root_node().unwrap();
    assert_eq!(root.render().unwrap(), "Scalar ( twelve bytes, style: any, length: 12 )");
}

#[test]
fn render_invalid_utf8_scalar_falls_back() {
    let records = vec![NodeData::Scalar { text: vec![0xff], style: Style::Literal }];
    let doc = Document::from_records(records).unwrap();
    let root = doc.get_root_node().unwrap();
    assert_eq!(root.render().unwrap(), "Scalar ( <None>, style: literal, length: 1 )");
}

#[test]
fn render_nested_containers_recursively() {
    let records = vec![
        NodeData::Mapping { pairs: vec![Pair { key: 2, value: 3 }] },
        scalar(b"items"),
        NodeData::Sequence { items: vec![4, 5] },
        scalar(b"1"),
        NodeData::Scalar { text: b"long text".to_vec(), style: Style::SingleQuoted },
    ];
    let doc = Document::from_records(records).unwrap();
    let root = doc.get_root_node().unwrap();
    assert_eq!(
        root.render().unwrap(),
        "Map { Scalar ( items, style: plain, length: 5 ): \
         List [ Scalar ( 1, style: plain, length: 1 ), \
         Scalar ( long text, style: single quoted, length: 9 ) ] }"
    );
}

#[test]
fn render_caps_recursion_depth() {
    let mut records: Vec<NodeData> = Vec::new();
    for i in 0..70usize {
        records.push(NodeData::Sequence { items: vec![i + 2] });
    }
    records.push(scalar(b"leaf"));
    let doc = Document::from_records(records).unwrap();
    let root = doc.get_root_node().unwrap();
    assert_eq!(root.render().unwrap_err(), RenderError::TooDeep);
}

#[test]
fn render_survives_a_cyclic_arena() {
    let records = vec![NodeData::Sequence { items: vec![1] }];
    let doc = Document::from_records(records).unwrap();
    let root = doc.get_root_node().unwrap();
    assert_eq!(root.render().unwrap_err(), RenderError::TooDeep);
}
