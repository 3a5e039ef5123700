use logtui::editor::{entry_editor_payload, value_editor_payload};
use logtui::field_view::{collect_fields, FieldEntry, FieldViewState};
use logtui::json::{JsonNum, JsonValue};
use logtui::keys::{KeyAction, KeyInput};
use logtui::model::{entry_from_json, text_entry, LogEntry};
use logtui::state::{App, InputMode};

fn num(n: u64) -> JsonValue {
    JsonValue::Num(JsonNum { text: n.to_string(), as_int: Some(n as i64), as_uint: Some(n) })
}

fn entry_with_message(msg: &str) -> LogEntry {
    LogEntry {
        timestamp: "-".into(),
        level: "INFO".into(),
        message: msg.to_string(),
        raw: JsonValue::Obj(vec![("message".to_string(), JsonValue::Str(msg.to_string()))]),
    }
}

#[test]
fn json_text_renders_nested_values_compactly() {
    let v = JsonValue::Obj(vec![
        ("a".to_string(), num(1)),
        (
            "b".to_string(),
            JsonValue::Arr(vec![
                JsonValue::Null,
                JsonValue::Bool(true),
                JsonValue::Str("x".to_string()),
            ]),
        ),
    ]);
    assert_eq!(v.to_text(), "{\"a\":1,\"b\":[null,true,\"x\"]}");
    assert_eq!(JsonValue::Bool(false).to_text(), "false");
    assert_eq!(JsonValue::Obj(vec![]).to_text(), "{}");
    assert_eq!(JsonValue::Arr(vec![]).to_text(), "[]");
}

#[test]
fn object_lookup_takes_the_first_binding() {
    let v = JsonValue::Obj(vec![
        ("k".to_string(), JsonValue::Str("first".to_string())),
        ("k".to_string(), JsonValue::Str("second".to_string())),
    ]);
    let found = v.get("k").unwrap();
    match found {
        JsonValue::Str(s) => assert_eq!(s, "first"),
        _ => panic!("expected a string"),
    }
    assert!(v.get("missing").is_none());
}

#[test]
fn collect_fields_labels_members_and_elements() {
    let v = JsonValue::Obj(vec![
        ("a".to_string(), num(1)),
        ("arr".to_string(), JsonValue::Arr(vec![num(10), num(11)])),
    ]);
    let fields = collect_fields(&v);
    let labels: Vec<String> = fields.iter().map(|f| f.path.clone()).collect();
    assert_eq!(labels, vec!["(root)", "a", "arr", "arr[0]", "arr[1]"]);
}

#[test]
fn collect_fields_always_yields_the_root() {
    let fields = collect_fields(&JsonValue::Null);
    assert_eq!(fields.len(), 1);
    assert_eq!(fields[0].path, "(root)");
}

#[test]
fn field_filter_is_case_insensitive() {
    let v = JsonValue::Obj(vec![("Nested".to_string(), JsonValue::Obj(vec![(
        "c".to_string(),
        num(3),
    )]))]);
    let fields = collect_fields(&v);
    let mut fv = FieldViewState {
        fields,
        filtered_indices: vec![],
        list_state: logtui::cursor::ListCursor::new(),
        filter: "NESTED".to_string(),
    };
    fv.rebuild_filter();
    assert_eq!(fv.filtered_indices.len(), 2); // Nested and Nested.c
}

#[test]
fn entry_from_json_reads_fields_and_data_fallbacks() {
    let raw = JsonValue::Obj(vec![
        ("timestamp".to_string(), JsonValue::Str("t1".to_string())),
        ("level".to_string(), JsonValue::Str("WARN".to_string())),
        ("message".to_string(), JsonValue::Str("hello".to_string())),
    ]);
    let e = entry_from_json(raw);
    assert_eq!(e.timestamp, "t1");
    assert_eq!(e.level, "WARN");
    assert_eq!(e.message, "hello");

    let raw2 = JsonValue::Obj(vec![("data".to_string(), JsonValue::Obj(vec![
        ("level".to_string(), JsonValue::Str("DEBUG".to_string())),
        ("message".to_string(), JsonValue::Str("inner".to_string())),
    ]))]);
    let e2 = entry_from_json(raw2);
    assert_eq!(e2.timestamp, "-");
    assert_eq!(e2.level, "DEBUG");
    assert_eq!(e2.message, "inner");

    let e3 = entry_from_json(JsonValue::Obj(vec![]));
    assert_eq!(e3.level, "UNKNOWN");
    assert_eq!(e3.message, "");
}

#[test]
fn entry_from_json_formats_a_structured_instant() {
    let raw = JsonValue::Obj(vec![("instant".to_string(), JsonValue::Obj(vec![
        ("epochSecond".to_string(), num(0)),
        ("nanoOfSecond".to_string(), num(0)),
    ]))]);
    let e = entry_from_json(raw);
    assert_eq!(e.timestamp, "1970-01-01T00:00:00.000Z");
}

#[test]
fn text_entry_keeps_the_line() {
    let e = text_entry("not json".to_string());
    assert_eq!(e.timestamp, "-");
    assert_eq!(e.level, "TEXT");
    assert_eq!(e.message, "not json");
    assert_eq!(e.raw.to_text(), "\"not json\"");
}

#[test]
fn promote_field_value_escapes_regex_metacharacters() {
    let mut app = App::new(10);
    let field = FieldEntry { path: "x".to_string(), value: JsonValue::Str("a.b(c)".to_string()) };
    app.move_field_value_to_filter(&field);
    assert_eq!(app.filter_buffer, "a\\.b\\(c\\)");
    assert!(matches!(app.input_mode, InputMode::FilterInput));
    assert!(app.field_view.is_none());
}

#[test]
fn toggle_autoscroll_off_freezes_scroll_offset() {
    let mut app = App::new(10);
    app.entries = vec![entry_with_message("one"), entry_with_message("two")];
    app.filtered_indices = vec![0, 1];
    app.list_state.select(Some(1));
    *app.list_state.offset_mut() = 1;
    assert!(app.autoscroll);

    app.toggle_autoscroll();

    assert!(!app.autoscroll);
    assert_eq!(app.list_scroll_offset, 1);
    assert_eq!(app.list_state.selected(), Some(1));
}

#[test]
fn navigation_clamps_at_the_ends() {
    let mut app = App::new(10);
    app.entries = vec![
        entry_with_message("one"),
        entry_with_message("two"),
        entry_with_message("three"),
    ];
    app.filtered_indices = vec![0, 1, 2];
    app.list_state.select(Some(2));
    app.next();
    assert_eq!(app.list_state.selected(), Some(2));
    app.previous();
    assert_eq!(app.list_state.selected(), Some(1));
    app.select_first();
    assert_eq!(app.list_state.selected(), Some(0));
    app.previous();
    assert_eq!(app.list_state.selected(), Some(0));
    app.last_list_height = 4;
    app.page_down();
    assert_eq!(app.list_state.selected(), Some(2));
    app.page_up();
    assert_eq!(app.list_state.selected(), Some(0));
    app.select_last();
    assert_eq!(app.list_state.selected(), Some(2));
}

#[test]
fn navigation_is_inert_on_an_empty_view() {
    let mut app = App::new(10);
    app.next();
    app.previous();
    app.page_down();
    app.page_up();
    assert_eq!(app.list_state.selected(), None);
    app.select_last();
    assert_eq!(app.list_state.selected(), None);
}

#[test]
fn manual_window_follows_the_selection() {
    let mut app = App::new(10);
    app.autoscroll = false;
    app.last_list_height = 2;
    for m in ["a", "b", "c", "d"] {
        app.push(entry_with_message(m));
    }
    // nothing was selected, so the first matching push selected the tail
    assert_eq!(app.list_state.selected(), Some(0));
    app.next();
    assert_eq!(app.list_scroll_offset, 0);
    app.next();
    // row 2 fell outside the two-row window: offset moves to 1
    assert_eq!(app.list_state.selected(), Some(2));
    assert_eq!(app.list_scroll_offset, 1);
    app.select_first();
    assert_eq!(app.list_scroll_offset, 0);
}

#[test]
fn detail_scrolling_clamps_to_content() {
    let mut app = App::new(10);
    app.detail_total_lines = 10;
    app.last_detail_height = 4;
    app.detail_down(3);
    assert_eq!(app.detail_scroll, 3);
    app.detail_down(100);
    assert_eq!(app.detail_scroll, 6);
    app.detail_up(2);
    assert_eq!(app.detail_scroll, 4);
    app.detail_top();
    assert_eq!(app.detail_scroll, 0);
    app.detail_bottom();
    assert_eq!(app.detail_scroll, 6);
    app.detail_total_lines = 0;
    app.detail_bottom();
    assert_eq!(app.detail_scroll, 0);
}

#[test]
fn horizontal_offsets_clamp_and_wrap_pins_to_zero() {
    let mut app = App::new(10);
    app.max_row_width = 30;
    app.last_list_width = 10;
    app.horiz_offset = 100;
    app.clamp_offset();
    assert_eq!(app.horiz_offset, 20);
    app.max_row_width = 5;
    app.clamp_offset();
    assert_eq!(app.horiz_offset, 0);

    app.detail_wrap = true;
    app.detail_horiz_offset = 7;
    app.clamp_detail_horiz_offset();
    assert_eq!(app.detail_horiz_offset, 0);
    app.detail_wrap = false;
    app.detail_max_line_width = 12;
    app.last_detail_width = 4;
    app.detail_horiz_offset = 100;
    app.clamp_detail_horiz_offset();
    assert_eq!(app.detail_horiz_offset, 8);
}

#[test]
fn move_column_swaps_definitions() {
    let mut app = App::new(10);
    app.column_select_state.select(Some(0));
    app.move_column(1);
    let names: Vec<String> = app.columns.iter().map(|c| c.name.clone()).collect();
    assert_eq!(names, vec!["level", "timestamp", "message"]);
    assert_eq!(app.column_select_state.selected(), Some(1));
    // clamped at the ends
    app.column_select_state.select(Some(2));
    app.move_column(5);
    assert_eq!(app.column_select_state.selected(), Some(2));
}

#[test]
fn editor_payload_names_follow_the_record() {
    let e = LogEntry {
        timestamp: "2021-01-02T03:04:05Z".to_string(),
        level: "INFO".to_string(),
        message: "m".to_string(),
        raw: JsonValue::Obj(vec![("a".to_string(), num(1))]),
    };
    let req = entry_editor_payload(&e);
    assert_eq!(req.filename, "logtui-2021_01_02T03_04_05Z.json");
    assert_eq!(req.content, "{\n  \"a\": 1\n}");

    let f = FieldEntry { path: "a.b".to_string(), value: num(7) };
    let req2 = value_editor_payload(&f);
    assert_eq!(req2.filename, "logtui-field-a_b.txt");
    assert_eq!(req2.content, "7");

    let f2 = FieldEntry { path: "".to_string(), value: JsonValue::Null };
    let req3 = value_editor_payload(&f2);
    assert_eq!(req3.filename, "logtui-field.txt");
    assert_eq!(req3.content, "null");
}

#[test]
fn keyboard_drives_filter_entry_and_quit() {
    let mut app = App::new(10);
    app.entries = vec![entry_with_message("one"), entry_with_message("two")];
    app.filtered_indices = vec![0, 1];
    assert!(matches!(app.handle_key(KeyInput::Ctrl('c')), KeyAction::Quit));
    assert!(matches!(app.handle_key(KeyInput::Char('/')), KeyAction::Idle));
    assert!(matches!(app.input_mode, InputMode::FilterInput));
    app.handle_key(KeyInput::Char('t'));
    app.handle_key(KeyInput::Char('w'));
    app.handle_key(KeyInput::Char('x'));
    app.handle_key(KeyInput::Backspace);
    assert_eq!(app.filter_buffer, "tw");
    app.handle_key(KeyInput::Enter);
    assert!(matches!(app.input_mode, InputMode::Normal));
    assert_eq!(app.filter_query, "tw");
    assert_eq!(app.filtered_indices, vec![1]);
    assert!(matches!(app.handle_key(KeyInput::Char('q')), KeyAction::Quit));
}

#[test]
fn keyboard_opens_the_field_explorer_and_edits_its_filter() {
    let mut app = App::new(10);
    app.entries = vec![LogEntry {
        timestamp: "-".into(),
        level: "INFO".into(),
        message: "m".into(),
        raw: JsonValue::Obj(vec![
            ("alpha".to_string(), num(1)),
            ("beta".to_string(), num(2)),
        ]),
    }];
    app.filtered_indices = vec![0];
    app.list_state.select(Some(0));
    app.handle_key(KeyInput::Ctrl('t'));
    assert!(matches!(app.input_mode, InputMode::FieldView));
    assert_eq!(app.field_view.as_ref().unwrap().fields.len(), 3);
    app.handle_key(KeyInput::Char('b'));
    let fv = app.field_view.as_ref().unwrap();
    assert_eq!(fv.filter, "b");
    assert_eq!(fv.filtered_indices.len(), 1); // only "beta"
    app.handle_key(KeyInput::Esc);
    assert!(matches!(app.input_mode, InputMode::Normal));
    assert!(app.field_view.is_none());
}

#[test]
fn eviction_moves_a_surviving_selection_with_its_record() {
    // paused mode, no filter: the oldest record is in the view, selection on
    // row 1 must still name the same record after the eviction shift
    let mut app = App::new(3);
    app.autoscroll = false;
    app.push(entry_with_message("one"));
    app.push(entry_with_message("two"));
    app.push(entry_with_message("three"));
    app.list_state.select(Some(1));
    app.push(entry_with_message("four")); // evicts "one"
    assert_eq!(app.list_state.selected(), Some(0));
    assert_eq!(app.current_entry().unwrap().message, "two");
    assert_eq!(app.filtered_indices, vec![0, 1, 2]);
}

#[test]
fn empty_filter_clears_the_active_pattern() {
    let mut app = App::new(10);
    app.entries = vec![entry_with_message("one"), entry_with_message("two")];
    app.filtered_indices = vec![0, 1];
    app.apply_filter("one");
    assert_eq!(app.filtered_indices, vec![0]);
    app.apply_filter("");
    assert!(app.filter_regex.is_none());
    assert_eq!(app.filter_query, "");
    assert_eq!(app.filtered_indices, vec![0, 1]);
}

#[test]
fn column_paths_resolve_against_records() {
    let e = LogEntry {
        timestamp: "t".to_string(),
        level: "INFO".to_string(),
        message: "m".to_string(),
        raw: JsonValue::Obj(vec![
            ("user".to_string(), JsonValue::Str("ada".to_string())),
            ("data".to_string(), JsonValue::Obj(vec![("n".to_string(), num(5))])),
        ]),
    };
    let one = |k: &str| vec![k.to_string()];
    assert_eq!(logtui::display::entry_field_or_raw(&e, &one("timestamp")), Some("t".to_string()));
    assert_eq!(logtui::display::entry_field_or_raw(&e, &one("level")), Some("INFO".to_string()));
    assert_eq!(logtui::display::entry_field_or_raw(&e, &one("message")), Some("m".to_string()));
    assert_eq!(logtui::display::entry_field_or_raw(&e, &one("user")), Some("ada".to_string()));
    let data_n = vec!["data".to_string(), "n".to_string()];
    assert_eq!(logtui::display::entry_field_or_raw(&e, &data_n), Some("5".to_string()));
    assert_eq!(logtui::display::entry_field_or_raw(&e, &one("missing")), None);

    // a synthetic plain-text record answers the reserved paths itself
    let t = text_entry("oops".to_string());
    assert_eq!(
        logtui::display::extract_field_string(&t.raw, &one("message")),
        Some("oops".to_string())
    );
    assert_eq!(
        logtui::display::extract_field_string(&t.raw, &one("level")),
        Some("TEXT".to_string())
    );
}

#[test]
fn field_filter_keeps_the_selected_node() {
    // three nodes; the cursor on the last; a filter that drops only the
    // first: the still-matching node keeps the selection, at its new row
    let v = JsonValue::Obj(vec![
        ("alpha".to_string(), num(1)),
        ("beta".to_string(), num(2)),
    ]);
    let fields = collect_fields(&v); // (root), alpha, beta
    let mut cursor = logtui::cursor::ListCursor::new();
    cursor.select(Some(2));
    let mut fv = FieldViewState {
        fields,
        filtered_indices: vec![0, 1, 2],
        list_state: cursor,
        filter: "a".to_string(),
    };
    let changed = fv.rebuild_filter();
    assert_eq!(fv.filtered_indices, vec![1, 2]);
    assert_eq!(fv.list_state.selected(), Some(1));
    assert_eq!(fv.fields[fv.filtered_indices[1]].path, "beta");
    assert!(changed);
}

#[test]
fn json_text_escapes_like_the_json_serializer() {
    let v = JsonValue::Obj(vec![(
        "a\"b".to_string(),
        JsonValue::Str("x\\y\nz\u{1f}\t".to_string()),
    )]);
    assert_eq!(v.to_text(), "{\"a\\\"b\":\"x\\\\y\\nz\\u001f\\t\"}");

    // byte for byte what the JSON serializer prints for the same value
    let mut m = serde_json::Map::new();
    m.insert(
        "a\"b".to_string(),
        serde_json::Value::String("x\\y\nz\u{1f}\t".to_string()),
    );
    let sv = serde_json::Value::Object(m);
    assert_eq!(v.to_text(), sv.to_string());
}

#[test]
fn eviction_keeps_selection_when_the_evicted_record_was_filtered_out() {
    // filter active, the oldest record not in the view, selection below row
    // zero: eviction renumbers the rows in place and the selection must keep
    // naming the same record
    let mut app = App::new(3);
    app.autoscroll = false;
    app.apply_filter("b|c");
    app.push(entry_with_message("a")); // filtered out
    app.push(entry_with_message("b"));
    app.push(entry_with_message("c"));
    assert_eq!(app.filtered_indices, vec![1, 2]);
    app.list_state.select(Some(1));
    assert_eq!(app.current_entry().unwrap().message, "c");

    app.push(entry_with_message("zzz")); // evicts "a", which was not in the view

    assert_eq!(app.filtered_indices, vec![0, 1]);
    assert_eq!(app.list_state.selected(), Some(1));
    assert_eq!(app.current_entry().unwrap().message, "c");
}


#[test]
fn pretty_rendering_matches_the_json_serializer() {
    let v = JsonValue::Obj(vec![
        ("a".to_string(), num(1)),
        (
            "b".to_string(),
            JsonValue::Arr(vec![JsonValue::Null, JsonValue::Str("x\"y".to_string())]),
        ),
        ("c".to_string(), JsonValue::Obj(vec![])),
    ]);
    assert_eq!(
        v.to_pretty(),
        "{\n  \"a\": 1,\n  \"b\": [\n    null,\n    \"x\\\"y\"\n  ],\n  \"c\": {}\n}"
    );

    // byte for byte what the JSON serializer pretty-prints for the same value
    let mut m = serde_json::Map::new();
    m.insert("a".to_string(), serde_json::Value::Number(1.into()));
    m.insert(
        "b".to_string(),
        serde_json::Value::Array(vec![
            serde_json::Value::Null,
            serde_json::Value::String("x\"y".to_string()),
        ]),
    );
    m.insert("c".to_string(), serde_json::Value::Object(serde_json::Map::new()));
    let sv = serde_json::Value::Object(m);
    assert_eq!(v.to_pretty(), serde_json::to_string_pretty(&sv).unwrap());
}
