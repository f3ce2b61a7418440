//! Tests that run the external grammar engine: loading documents from
//! text, emitting them again, and round-tripping through the memory sink.
use yaml_arena::loads;
use yaml_arena::Document;
use yaml_arena::EmitError;
use yaml_arena::Emitter;
use yaml_arena::LoadError;
use yaml_arena::MemorySink;
use yaml_arena::NodeData;
use yaml_arena::Pair;
use yaml_arena::Parser;
use yaml_arena::Style;

#[test]
fn three_level_lookup_scenario() {
    let doc = loads("Config:\n  hfst:\n    Gen: \"foo\"\n").unwrap();
    let root = doc.get_root_node().unwrap();
    let config = root.lookup("Config").unwrap().unwrap();
    assert!(matches!(config.data(), NodeData::Mapping { .. }));
    let hfst = config.lookup("hfst").unwrap().unwrap();
    assert!(matches!(hfst.data(), NodeData::Mapping { .. }));
    let gen = hfst.lookup("Gen").unwrap().unwrap();
    match gen.data() {
        NodeData::Scalar { text, style } => {
            assert_eq!(text.as_slice(), b"foo");
            assert_eq!(*style, Style::DoubleQuoted);
        },
        _ => panic!("expected a scalar at Config.hfst.Gen"),
    }
}

#[test]
fn sequence_scenario() {
    let doc = loads("items:\n  - 1\n  - 2\n  - 3\n").unwrap();
    let root = doc.get_root_node().unwrap();
    let items = root.lookup("items").unwrap().unwrap();
    match items.data() {
        NodeData::Sequence { items: ids } => assert_eq!(ids.len(), 3),
        _ => panic!("expected a sequence at items"),
    }
    for pos in 0..3usize {
        let child = items.index(pos).unwrap().unwrap();
        assert!(matches!(child.data(), NodeData::Scalar { .. }));
    }
    let first = items.index(0).unwrap().unwrap();
    match first.data() {
        NodeData::Scalar { text, style } => {
            assert_eq!(text.as_slice(), b"1");
            assert_eq!(*style, Style::Plain);
        },
        _ => panic!("expected a scalar at items[0]"),
    }
}

#[test]
fn duplicate_keys_from_source_use_first_match() {
    let doc = loads("k: one\nk: two\n").unwrap();
    let root = doc.get_root_node().unwrap();
    let v = root.lookup("k").unwrap().unwrap();
    match v.data() {
        NodeData::Scalar { text, .. } => assert_eq!(text.as_slice(), b"one"),
        _ => panic!("expected a scalar at k"),
    }
}

#[test]
fn empty_stream_is_reported() {
    assert_eq!(loads("").unwrap_err(), LoadError::EmptyStream);
}

#[test]
fn syntax_error_is_reported() {
    assert_eq!(loads("a: [1, 2\n").unwrap_err(), LoadError::Syntax);
}

#[test]
fn parser_without_input_fails_as_io() {
    let mut p = Parser::new();
    assert_eq!(p.parse().unwrap_err(), LoadError::Io);
    let mut doc = Document::new();
    assert_eq!(p.load(&mut doc).unwrap_err(), LoadError::Io);
    assert_eq!(doc.len(), 0);
}

#[test]
fn parser_load_fills_the_document() {
    let mut p = Parser::new();
    p.set_input_string("a: 1\n");
    assert!(p.parse().is_ok());
    let mut doc = Document::new();
    p.load(&mut doc).unwrap();
    assert_eq!(doc.len(), 3);
    let root = doc.get_root_node().unwrap();
    let v = root.lookup("a").unwrap().unwrap();
    match v.data() {
        NodeData::Scalar { text, .. } => assert_eq!(text.as_slice(), b"1"),
        _ => panic!("expected a scalar at a"),
    }
}

#[test]
fn reload_after_emit_renders_identically() {
    let input = "Config:\n  hfst:\n    Gen: \"foo\"\n  list:\n    - 1\n    - two\n";
    let d1 = loads(input).unwrap();
    let r1 = d1.get_root_node().unwrap().render().unwrap();
    let emitted = Emitter::new().dumps(&d1).unwrap();
    let d2 = loads(&emitted).unwrap();
    let r2 = d2.get_root_node().unwrap().render().unwrap();
    assert_eq!(r1, r2);
}

#[test]
fn memory_sink_round_trip_gives_an_equal_tree() {
    let d1 = loads("items:\n  - 1\n  - 2\n  - 3\n").unwrap();
    let mut sink = MemorySink::new();
    Emitter::new().dump_into(&d1, &mut sink).unwrap();
    let text = sink.into_text().unwrap();
    let d2 = loads(&text).unwrap();
    assert_eq!(d1, d2);
}

#[test]
fn memory_sink_appends_in_order() {
    let mut sink = MemorySink::new();
    sink.write(b"ab").unwrap();
    sink.write(b"cd").unwrap();
    assert_eq!(sink.bytes().as_slice(), b"abcd");
    assert_eq!(sink.into_text().unwrap(), "abcd");
}

#[test]
fn memory_sink_rejects_invalid_utf8_text_view() {
    let mut sink = MemorySink::new();
    sink.write(&[0xff, 0xfe]).unwrap();
    assert!(sink.into_text().is_err());
}

#[test]
fn absent_record_cannot_be_emitted() {
    let doc = Document::from_records(vec![NodeData::Absent]).unwrap();
    assert_eq!(Emitter::new().dumps(&doc).unwrap_err(), EmitError::Unencodable);
}

#[test]
fn shared_child_cannot_be_emitted() {
    let records = vec![
        NodeData::Mapping {
            pairs: vec![Pair { key: 2, value: 3 }, Pair { key: 4, value: 3 }],
        },
        NodeData::Scalar { text: b"a".to_vec(), style: Style::Plain },
        NodeData::Scalar { text: b"shared".to_vec(), style: Style::Plain },
        NodeData::Scalar { text: b"b".to_vec(), style: Style::Plain },
    ];
    let doc = Document::from_records(records).unwrap();
    assert_eq!(Emitter::new().dumps(&doc).unwrap_err(), EmitError::Unencodable);
}

#[test]
fn cyclic_arena_cannot_be_emitted() {
    let records = vec![NodeData::Sequence { items: vec![1] }];
    let doc = Document::from_records(records).unwrap();
    assert_eq!(Emitter::new().dumps(&doc).unwrap_err(), EmitError::Unencodable);
}

#[test]
fn invalid_utf8_scalar_cannot_be_emitted() {
    let records = vec![NodeData::Scalar { text: vec![0xff], style: Style::Plain }];
    let doc = Document::from_records(records).unwrap();
    assert_eq!(Emitter::new().dumps(&doc).unwrap_err(), EmitError::Unencodable);
}

#[test]
fn emitted_text_looks_like_the_source_shape() {
    let d = loads("a: 1\n").unwrap();
    let emitted = Emitter::new().dumps(&d).unwrap();
    assert!(emitted.contains("a: 1"));
}
