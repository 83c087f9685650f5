use carbon_core::data::AppData;
use carbon_core::data::Board;
use carbon_core::data::Bookmark;
use carbon_core::data::Card;
use carbon_core::data::ChecklistItem;
use carbon_core::data::Collection;
use carbon_core::data::Column;
use carbon_core::data::CustomTag;
use carbon_core::data::Note;
use carbon_core::data::default_collections;
use carbon_core::data::default_theme;
use carbon_core::data::default_view;
use carbon_core::store::LoadResult;
use carbon_core::store::LocalRead;
use carbon_core::store::load_snapshot;
use carbon_core::store::parse_app_data;
use carbon_core::store::parse_sync_data;
use carbon_core::store::serialize_app_data;
use carbon_core::store::serialize_sync_data;

fn sample_app_data() -> AppData {
    AppData {
        boards: vec![Board {
            id: "b1".to_string(),
            name: "Work".to_string(),
            columns: vec![
                Column {
                    id: "c1".to_string(),
                    title: "Todo".to_string(),
                    cards: vec![Card {
                        id: "k1".to_string(),
                        title: "Quote \" and \\ backslash".to_string(),
                        description: "line one\nline two\ttabbed".to_string(),
                        labels: vec!["red".to_string(), "urgent".to_string()],
                        priority: Some("high".to_string()),
                        checklist: vec![ChecklistItem {
                            id: "i1".to_string(),
                            text: "unicode: caf\u{e9} \u{1f600}".to_string(),
                            completed: true,
                        }],
                        created_at: "2024-01-01T00:00:00+00:00".to_string(),
                        archived_at: None,
                        original_column_id: Some("c0".to_string()),
                    }],
                },
                Column { id: "c2".to_string(), title: "Done".to_string(), cards: vec![] },
            ],
            archived_cards: vec![],
        }],
        active_board: Some("b1".to_string()),
        theme: "light".to_string(),
        active_view: "bookmarks".to_string(),
        bookmarks: vec![Bookmark {
            id: "m1".to_string(),
            title: "Example".to_string(),
            url: "https://example.com/?q=a&b=c".to_string(),
            description: String::new(),
            favicon: None,
            image: None,
            tags: vec!["news".to_string()],
            collection_id: Some("all".to_string()),
            is_favorite: true,
            is_archived: false,
            created_at: "2024-02-02T00:00:00+00:00".to_string(),
        }],
        collections: default_collections(),
        custom_tags: vec![(
            "urgent".to_string(),
            CustomTag { name: "urgent".to_string(), color: "#ff0000".to_string() },
        )],
        notes: vec![Note {
            id: "n1".to_string(),
            title: "Note".to_string(),
            content: "control char: \u{1} end".to_string(),
            is_pinned: false,
            created_at: "2024-03-03T00:00:00+00:00".to_string(),
            updated_at: "2024-03-04T00:00:00+00:00".to_string(),
        }],
        last_modified: "2024-05-05T12:00:00+00:00".to_string(),
        sync_enabled: true,
    }
}

#[test]
fn save_then_load_round_trips_every_field() {
    let original = sample_app_data();
    let text = serialize_app_data(&original);
    let loaded = parse_app_data(&text, "unused-fallback").expect("own output must parse");
    assert_eq!(loaded, original);
}

#[test]
fn save_then_load_keeps_local_only_view() {
    let mut original = sample_app_data();
    original.active_view = "notes".to_string();
    let text = serialize_app_data(&original);
    let loaded = parse_app_data(&text, "now").unwrap();
    assert_eq!(loaded.active_view, "notes");
}

#[test]
fn sync_payload_round_trips() {
    let original = sample_app_data().to_sync_data();
    let text = serialize_sync_data(&original);
    let parsed = parse_sync_data(&text, "unused-fallback").expect("own output must parse");
    assert_eq!(parsed, original);
}

#[test]
fn missing_file_bootstraps_default_and_persists_it() {
    let now = "2024-06-01T00:00:00+00:00";
    let LoadResult { data, persist } = load_snapshot(LocalRead::Missing, now);
    assert_eq!(data.theme, "dark");
    assert_eq!(data.active_view, "boards");
    assert_eq!(data.boards.len(), 1);
    assert_eq!(data.boards[0].id, "default-board");
    assert_eq!(data.boards[0].columns.len(), 4);
    assert_eq!(data.boards[0].columns[0].cards.len(), 1);
    assert_eq!(data.boards[0].columns[0].cards[0].created_at, now);
    assert_eq!(data.collections.len(), 3);
    assert_eq!(data.last_modified, now);
    assert!(!data.sync_enabled);
    let written = persist.expect("a fresh default must be persisted");
    assert_eq!(written, serialize_app_data(&data));
    assert_eq!(parse_app_data(&written, "other").unwrap(), data);
}

#[test]
fn unreadable_file_falls_back_without_persisting() {
    let r = load_snapshot(LocalRead::Unreadable, "t0");
    assert_eq!(r.data.theme, "dark");
    assert!(r.persist.is_none());
}

#[test]
fn corrupt_file_falls_back_without_overwriting() {
    let r = load_snapshot(LocalRead::Content("{not json at all".to_string()), "t0");
    assert_eq!(r.data.theme, "dark");
    assert_eq!(r.data.boards[0].id, "default-board");
    assert!(r.persist.is_none());
}

#[test]
fn empty_file_is_corrupt() {
    let r = load_snapshot(LocalRead::Content(String::new()), "t0");
    assert_eq!(r.data.theme, "dark");
    assert!(r.persist.is_none());
}

#[test]
fn intact_file_loads_without_persisting() {
    let original = sample_app_data();
    let text = serialize_app_data(&original);
    let r = load_snapshot(LocalRead::Content(text), "t0");
    assert_eq!(r.data, original);
    assert!(r.persist.is_none());
}

#[test]
fn missing_optional_fields_are_default_filled() {
    let text = "{\"boards\": [], \"activeBoard\": null}";
    let d = parse_app_data(text, "fallback-now").expect("minimal document must parse");
    assert!(d.boards.is_empty());
    assert_eq!(d.active_board, None);
    assert_eq!(d.theme, default_theme());
    assert_eq!(d.active_view, default_view());
    assert!(d.bookmarks.is_empty());
    assert_eq!(d.collections, default_collections());
    assert!(d.custom_tags.is_empty());
    assert!(d.notes.is_empty());
    assert_eq!(d.last_modified, "fallback-now");
    assert!(!d.sync_enabled);
}

#[test]
fn missing_required_field_is_rejected() {
    // activeBoard is required (though it may be null)
    assert!(parse_app_data("{\"boards\": []}", "now").is_none());
    // boards is required
    assert!(parse_app_data("{\"activeBoard\": null}", "now").is_none());
    // wrong type for a string field
    assert!(parse_app_data("{\"boards\": [], \"activeBoard\": null, \"theme\": 3}", "now").is_none());
}

#[test]
fn unknown_fields_are_ignored() {
    let text = "{\"boards\": [], \"activeBoard\": null, \"extra\": [1, 2.5e3, {\"deep\": true}]}";
    let d = parse_app_data(text, "now").expect("unknown fields are ignored");
    assert!(d.boards.is_empty());
}

#[test]
fn string_escapes_parse() {
    let text = "{\"boards\": [], \"activeBoard\": null, \"theme\": \"\\u0064\\u0061rk\\n\\t\\\\ \\\"x\\\" \\ud83d\\ude00\"}";
    let d = parse_app_data(text, "now").unwrap();
    assert_eq!(d.theme, "dark\n\t\\ \"x\" \u{1f600}");
}

#[test]
fn lone_surrogate_is_rejected() {
    let text = "{\"boards\": [], \"activeBoard\": null, \"theme\": \"\\ud83d\"}";
    assert!(parse_app_data(text, "now").is_none());
}

#[test]
fn custom_tag_keys_with_special_characters_round_trip() {
    let mut original = sample_app_data();
    original.custom_tags = vec![
        (
            "weird \"key\" \\ with \n and \u{8}\u{c}".to_string(),
            CustomTag { name: "a".to_string(), color: "#000000".to_string() },
        ),
        (
            "caf\u{e9} \u{1f600}".to_string(),
            CustomTag { name: "b".to_string(), color: "#ffffff".to_string() },
        ),
    ];
    let text = serialize_app_data(&original);
    let loaded = parse_app_data(&text, "now").unwrap();
    assert_eq!(loaded, original);
}

#[test]
fn serialized_snapshot_is_valid_json_for_other_readers() {
    let original = sample_app_data();
    let text = serialize_app_data(&original);
    let v: serde_json::Value = serde_json::from_str(&text).expect("output must be valid JSON");
    assert_eq!(v["theme"], serde_json::Value::String("light".to_string()));
    assert_eq!(v["lastModified"], serde_json::Value::String(original.last_modified.clone()));
    assert_eq!(v["boards"][0]["columns"][0]["cards"][0]["title"].as_str().unwrap(), "Quote \" and \\ backslash");
    assert_eq!(v["customTags"]["urgent"]["color"].as_str().unwrap(), "#ff0000");
    assert_eq!(v["syncEnabled"], serde_json::Value::Bool(true));
    assert!(v.get("activeView").is_some());
}

#[test]
fn serde_written_document_parses() {
    let v = serde_json::from_str::<serde_json::Value>(
        "{\"boards\":[],\"activeBoard\":\"b9\",\"theme\":\"dark\",\"syncEnabled\":false}",
    )
    .unwrap();
    let text = serde_json::to_string_pretty(&v).unwrap();
    let d = parse_app_data(&text, "now").expect("serde-pretty output must parse");
    assert_eq!(d.active_board, Some("b9".to_string()));
}
