use jbotci::web_view::{
    block_bottom_row, block_needs_reference_height_sizer, cll_dictionary_tooltip_target,
    cll_dictionary_tooltip_target_for_link, format_vlacku_jvozba_items,
    parse_vlacku_jvozba_items, parse_vlacku_jvozba_json_item, parse_vlacku_jvozba_legacy_items,
    vlacku_jvozba_item_from_fields,
    vlacku_semantic_worker_limit, CllLinkKind, DictionaryTooltipTarget, ReferenceMarker,
    ReferenceMarkerRole, VlackuJvozbaItem, VlackuJvozbaItemKind,
};
use serde_json::Value;

fn markers(roles: &[ReferenceMarkerRole]) -> Vec<ReferenceMarker> {
    roles
        .iter()
        .map(|role| ReferenceMarker {
            role: *role,
            base_key: "ko'a".to_owned(),
            full_key: "ko'a".to_owned(),
            has_slot: false,
        })
        .collect()
}

#[test]
fn cukta_dictionary_tooltip_helpers_cover_inline_and_ebnf_links() {
    assert_eq!(
        cll_dictionary_tooltip_target_for_link(CllLinkKind::Dictionary, "klama"),
        Some(DictionaryTooltipTarget::Word("klama".to_owned()))
    );
    assert_eq!(
        cll_dictionary_tooltip_target("../vlacku/klama"),
        Some(DictionaryTooltipTarget::Word("klama".to_owned()))
    );
    assert!(cll_dictionary_tooltip_target_for_link(CllLinkKind::Rafsi, "kla").is_some());
    assert!(cll_dictionary_tooltip_target("../vlacku?mode=rafsi&q=kla").is_some());
    assert!(cll_dictionary_tooltip_target_for_link(CllLinkKind::Section, "1.2").is_none());
}

#[test]
fn block_bottom_row_uses_leaf_span_bottom() {
    assert_eq!(block_bottom_row(0, 3), 2);
    assert_eq!(block_bottom_row(4, 0), 4);
}

#[test]
fn reference_height_sizer_requires_incoming_reference() {
    let outgoing = markers(&[ReferenceMarkerRole::Reference]);
    let incoming = markers(&[ReferenceMarkerRole::Referent]);
    let plain = markers(&[]);

    assert!(!block_needs_reference_height_sizer(&outgoing));
    assert!(block_needs_reference_height_sizer(&incoming));
    assert!(!block_needs_reference_height_sizer(&plain));
}

const MAX_COUNT: usize = 200;

#[test]
fn vlacku_semantic_worker_limit_bounds_unfiltered_results() {
    assert_eq!(vlacku_semantic_worker_limit(20, MAX_COUNT), 21);
}

#[test]
fn vlacku_semantic_worker_limit_bounds_filtered_results() {
    assert_eq!(vlacku_semantic_worker_limit(20, MAX_COUNT), 21);
}

#[test]
fn vlacku_semantic_worker_limit_clamps_unfiltered_results() {
    assert_eq!(vlacku_semantic_worker_limit(usize::MAX, MAX_COUNT), MAX_COUNT);
}

fn fields(item: &VlackuJvozbaItem) -> (VlackuJvozbaItemKind, String, Option<String>, usize) {
    (item.kind, item.value.clone(), item.source.clone(), item.indent_level)
}

#[test]
fn vlacku_jvozba_storage_reads_v0_json_items() {
    let raw = r#"
        [
          {"kind":"word","value":"cmene","indentLevel":2},
          {"kind":"rafsi","value":"vla","source":"valsi"}
        ]
    "#;
    let items = parse_vlacku_jvozba_items(raw);
    let got: Vec<_> = items.iter().map(fields).collect();
    assert_eq!(
        got,
        vec![
            (VlackuJvozbaItemKind::Word, "cmene".to_owned(), None, 2),
            (VlackuJvozbaItemKind::FixedRafsi, "vla".to_owned(), Some("valsi".to_owned()), 0),
        ]
    );
}

#[test]
fn vlacku_jvozba_storage_migrates_legacy_newline_items() {
    let items = parse_vlacku_jvozba_items("word\tcmene\nrafsi\tvla\nbad\tno\nword\t");
    let got: Vec<_> = items.iter().map(fields).collect();
    assert_eq!(
        got,
        vec![
            (VlackuJvozbaItemKind::Word, "cmene".to_owned(), None, 0),
            (VlackuJvozbaItemKind::FixedRafsi, "vla".to_owned(), None, 0),
        ]
    );
}

#[test]
fn vlacku_jvozba_storage_writes_v0_json_shape() {
    let raw = format_vlacku_jvozba_items(&vec![VlackuJvozbaItem {
        kind: VlackuJvozbaItemKind::FixedRafsi,
        value: "vla".to_owned(),
        source: Some("valsi".to_owned()),
        indent_level: 1,
    }]);
    let mut record = serde_json::Map::new();
    record.insert("kind".to_owned(), Value::String("rafsi".to_owned()));
    record.insert("value".to_owned(), Value::String("vla".to_owned()));
    record.insert("source".to_owned(), Value::String("valsi".to_owned()));
    record.insert("indentLevel".to_owned(), Value::from(1u64));
    assert_eq!(
        serde_json::from_str::<Value>(&raw).expect("valid json"),
        Value::Array(vec![Value::Object(record)])
    );
}

#[test]
fn stored_items_are_exact_json() {
    let items = vec![
        VlackuJvozbaItem {
            kind: VlackuJvozbaItemKind::Word,
            value: "a\"b\\c\n\u{1}é".to_owned(),
            source: None,
            indent_level: 0,
        },
        VlackuJvozbaItem {
            kind: VlackuJvozbaItemKind::FixedRafsi,
            value: "vla".to_owned(),
            source: Some("\t".to_owned()),
            indent_level: 12,
        },
    ];
    assert_eq!(
        format_vlacku_jvozba_items(&items),
        "[{\"indentLevel\":0,\"kind\":\"word\",\"source\":null,\"value\":\"a\\\"b\\\\c\\n\\u0001é\"},{\"indentLevel\":12,\"kind\":\"rafsi\",\"source\":\"\\t\",\"value\":\"vla\"}]"
    );
    assert_eq!(format_vlacku_jvozba_items(&Vec::new()), "[]");
    let parsed: Value = serde_json::from_str(&format_vlacku_jvozba_items(&items)).unwrap();
    let back: Vec<_> = parsed.as_array().unwrap().iter().filter_map(parse_vlacku_jvozba_json_item).collect();
    assert_eq!(back.len(), 2);
    assert_eq!(back[1].indent_level, 12);
    assert_eq!(back[1].source, None);
    assert_eq!(back[0].value, "a\"b\\c\n\u{1}é");
}

#[test]
fn legacy_lines_are_read_alone_too() {
    let items = parse_vlacku_jvozba_legacy_items("word\tcmene\r\nrafsi\tvla");
    let got: Vec<_> = items.iter().map(fields).collect();
    assert_eq!(
        got,
        vec![
            (VlackuJvozbaItemKind::Word, "cmene".to_owned(), None, 0),
            (VlackuJvozbaItemKind::FixedRafsi, "vla".to_owned(), None, 0),
        ]
    );
}

#[test]
fn json_records_are_read_field_by_field() {
    let value: Value = serde_json::from_str(
        r#"{"kind":"fixed-rafsi","value":"  vla ","source":"  ","indent_level":3}"#,
    )
    .unwrap();
    let item = parse_vlacku_jvozba_json_item(&value).unwrap();
    assert_eq!(fields(&item), (VlackuJvozbaItemKind::FixedRafsi, "vla".to_owned(), None, 3));
    let both: Value =
        serde_json::from_str(r#"{"kind":"word","value":"x","indentLevel":"two","indent_level":3}"#)
            .unwrap();
    assert_eq!(parse_vlacku_jvozba_json_item(&both).unwrap().indent_level, 0);
    let sourced: Value =
        serde_json::from_str(r#"{"kind":"word","value":"x","source":" klama "}"#).unwrap();
    assert_eq!(parse_vlacku_jvozba_json_item(&sourced).unwrap().source, Some("klama".to_owned()));
    for bad in [
        r#"{"kind":"lujvo","value":"x"}"#,
        r#"{"kind":"word","value":"   "}"#,
        r#"{"kind":"word"}"#,
        r#"{"value":"x"}"#,
        r#"{"kind":1,"value":"x"}"#,
        r#"["word","x"]"#,
        r#""word""#,
    ] {
        let value: Value = serde_json::from_str(bad).unwrap();
        assert!(parse_vlacku_jvozba_json_item(&value).is_none(), "{bad}");
    }
}

#[test]
fn stored_text_picks_json_or_lines() {
    let items = parse_vlacku_jvozba_items(
        r#"[{"kind":"word","value":"a"},7,{"kind":"bad","value":"b"},{"kind":"rafsi","value":"c"}]"#,
    );
    let got: Vec<_> = items.iter().map(fields).collect();
    assert_eq!(
        got,
        vec![
            (VlackuJvozbaItemKind::Word, "a".to_owned(), None, 0),
            (VlackuJvozbaItemKind::FixedRafsi, "c".to_owned(), None, 0),
        ]
    );
    assert!(parse_vlacku_jvozba_items("[]").is_empty());
    assert!(parse_vlacku_jvozba_items("").is_empty());
    assert!(parse_vlacku_jvozba_items(r#"{"kind":"word","value":"a"}"#).is_empty());
    let not_json = parse_vlacku_jvozba_items("[word\tx\nword\ty");
    assert_eq!(not_json.len(), 1);
    assert_eq!(not_json[0].value, "y");
}

#[test]
fn stored_pieces_read_back() {
    let items = vec![
        VlackuJvozbaItem {
            kind: VlackuJvozbaItemKind::Word,
            value: "a\"b\\c\n\u{1}é".to_owned(),
            source: None,
            indent_level: 0,
        },
        VlackuJvozbaItem {
            kind: VlackuJvozbaItemKind::FixedRafsi,
            value: "vla".to_owned(),
            source: Some("valsi".to_owned()),
            indent_level: 12,
        },
    ];
    let back = parse_vlacku_jvozba_items(&format_vlacku_jvozba_items(&items));
    let got: Vec<_> = back.iter().map(fields).collect();
    let expected: Vec<_> = items.iter().map(fields).collect();
    assert_eq!(got, expected);
    assert!(parse_vlacku_jvozba_items(&format_vlacku_jvozba_items(&Vec::new())).is_empty());
}

#[test]
fn pieces_from_their_fields() {
    let item = vlacku_jvozba_item_from_fields(Some("rafsi"), Some(" vla "), Some(" valsi "), Some(4)).unwrap();
    assert_eq!(fields(&item), (VlackuJvozbaItemKind::FixedRafsi, "vla".to_owned(), Some("valsi".to_owned()), 4));
    assert!(vlacku_jvozba_item_from_fields(None, Some("vla"), None, None).is_none());
    assert!(vlacku_jvozba_item_from_fields(Some("word"), Some(""), None, None).is_none());
}
