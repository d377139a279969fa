use todo_adapter::envelope::{decode_envelope, item_from_value, items_from_value, parse_alfred_output};
use todo_adapter::parser::{has_char, is_done, parse_title, todo_from_item, todos_from_items};
use todo_adapter::parser::{DONE_MARK, TARGET_MARK};
use todo_adapter::task::{AlfredItem, Todo};

fn item(title: &str, subtitle: Option<&str>, arg: Option<&str>) -> AlfredItem {
    AlfredItem {
        title: title.to_string(),
        subtitle: subtitle.map(|s| s.to_string()),
        arg: arg.map(|s| s.to_string()),
    }
}

#[test]
fn target_title_with_details_is_read() {
    let out = "{\"items\":[{\"title\":\"[2] 🎯 Buy milk [2h left]\",\"subtitle\":null}]}";
    let todos = parse_alfred_output(out).unwrap();
    assert_eq!(
        todos,
        vec![Todo {
            id: 2,
            text: "Buy milk".to_string(),
            status: "pending".to_string(),
            description: None,
            due_date: None,
            urgent: None,
            completed: false,
        }]
    );
}

#[test]
fn title_without_closing_bracket_is_skipped() {
    assert_eq!(parse_title("[2 Buy milk"), None);
    assert_eq!(parse_title("Buy milk"), None);
    assert_eq!(parse_title(""), None);
    let out = "{\"items\":[{\"title\":\"[2 Buy milk\"},{\"title\":\"[3] Walk\"}]}";
    let todos = parse_alfred_output(out).unwrap();
    assert_eq!(todos.len(), 1);
    assert_eq!(todos[0].id, 3);
    assert_eq!(todos[0].text, "Walk");
}

#[test]
fn title_with_id_zero_is_skipped() {
    assert_eq!(parse_title("[0] Buy milk"), None);
    assert_eq!(parse_title("[000] Buy milk"), None);
    assert_eq!(parse_title("[+0] Buy milk"), None);
    let out = "{\"items\":[{\"title\":\"[0] 🎯 Buy milk\",\"subtitle\":\"x\"}]}";
    assert_eq!(parse_alfred_output(out).unwrap(), Vec::<Todo>::new());
}

#[test]
fn empty_items_response_gives_no_records() {
    assert_eq!(parse_alfred_output("{\"items\":[]}").unwrap(), Vec::<Todo>::new());
    assert_eq!(parse_alfred_output("  {\"items\":[]}\n").unwrap(), Vec::<Todo>::new());
    assert_eq!(parse_alfred_output("{ \"items\" : [ ] }").unwrap(), Vec::<Todo>::new());
}

#[test]
fn blank_output_gives_no_records() {
    assert_eq!(parse_alfred_output("").unwrap(), Vec::<Todo>::new());
    assert_eq!(parse_alfred_output(" \t\r\n").unwrap(), Vec::<Todo>::new());
    assert_eq!(parse_alfred_output("\u{3000}\u{a0}").unwrap(), Vec::<Todo>::new());
}

#[test]
fn unreadable_id_is_skipped() {
    assert_eq!(parse_title("[x] Buy milk"), None);
    assert_eq!(parse_title("[] Buy milk"), None);
    assert_eq!(parse_title("[-1] Buy milk"), None);
    assert_eq!(parse_title("[1 2] Buy milk"), None);
    assert_eq!(parse_title("[4294967296] Buy milk"), None);
    assert_eq!(parse_title("[+] Buy milk"), None);
}

#[test]
fn id_forms_are_read() {
    assert_eq!(parse_title("[1] a"), Some((1, "a".to_string())));
    assert_eq!(parse_title("[ 12 ] a"), Some((12, "a".to_string())));
    assert_eq!(parse_title("[[[7] a"), Some((7, "a".to_string())));
    assert_eq!(parse_title("[+5] a"), Some((5, "a".to_string())));
    assert_eq!(parse_title("[007] a"), Some((7, "a".to_string())));
    assert_eq!(parse_title("[4294967295] a"), Some((4294967295, "a".to_string())));
    assert_eq!(parse_title("12] a"), Some((12, "a".to_string())));
}

#[test]
fn text_follows_the_marker() {
    assert_eq!(parse_title("[1] 🎯 Task Name [剩余时间]"), Some((1, "Task Name".to_string())));
    assert_eq!(parse_title("[1] Task Name"), Some((1, "Task Name".to_string())));
    assert_eq!(parse_title("[3] ✅ Done thing"), Some((3, "Done thing".to_string())));
    assert_eq!(parse_title("[3] note 🎯 real text"), Some((3, "real text".to_string())));
    assert_eq!(parse_title("[3] ✅ a 🎯 b"), Some((3, "b".to_string())));
    assert_eq!(parse_title("[3] 🎯 a ✅ b"), Some((3, "a ✅ b".to_string())));
    assert_eq!(parse_title("[3]🎯x"), Some((3, "x".to_string())));
    assert_eq!(parse_title("[4] Write ] more"), Some((4, "Write ] more".to_string())));
}

#[test]
fn text_stops_at_the_first_opening_bracket() {
    assert_eq!(parse_title("[1] a [b] [c]"), Some((1, "a".to_string())));
    assert_eq!(parse_title("[1] \u{3000} a\u{a0} [b"), Some((1, "a".to_string())));
    assert_eq!(parse_title("[1] a b  c  "), Some((1, "a b  c".to_string())));
}

#[test]
fn empty_text_is_skipped() {
    assert_eq!(parse_title("[1]"), None);
    assert_eq!(parse_title("[1]   "), None);
    assert_eq!(parse_title("[1] 🎯"), None);
    assert_eq!(parse_title("[1] 🎯 [2h left]"), None);
    assert_eq!(parse_title("[1] [2h left] text"), None);
    assert_eq!(parse_title("[1] text [x] 🎯"), None);
}

#[test]
fn completion_comes_from_the_subtitle() {
    let done = todo_from_item(&item("[5] 🎯 Ship", Some("✅ finished"), None)).unwrap();
    assert_eq!(done.id, 5);
    assert_eq!(done.text, "Ship");
    assert!(done.completed);
    assert_eq!(done.status, "completed");
    assert_eq!(done.description, Some("✅ finished".to_string()));
    assert_eq!(done.due_date, None);
    assert_eq!(done.urgent, None);

    let open = todo_from_item(&item("[5] ✅ Ship", Some("due soon"), Some("5"))).unwrap();
    assert!(!open.completed);
    assert_eq!(open.status, "pending");
    assert_eq!(open.description, Some("due soon".to_string()));

    let bare = todo_from_item(&item("[5] Ship", None, None)).unwrap();
    assert!(!bare.completed);
    assert_eq!(bare.description, None);
}

#[test]
fn subtitle_marker_is_found_anywhere() {
    assert!(is_done(&Some("a ✅".to_string())));
    assert!(is_done(&Some("✅".to_string())));
    assert!(!is_done(&Some("🎯".to_string())));
    assert!(!is_done(&Some(String::new())));
    assert!(!is_done(&None));
    assert!(has_char("a]b", ']'));
    assert!(!has_char("ab", ']'));
    assert_eq!(TARGET_MARK, '🎯');
    assert_eq!(DONE_MARK, '✅');
}

#[test]
fn listing_keeps_order_and_skips_odd_entries() {
    let items = vec![
        item("[3] 🎯 c", None, None),
        item("no id", None, None),
        item("[1] 🎯 a", Some("✅"), None),
        item("[0] zero", None, None),
        item("[2] b [x]", None, None),
    ];
    let todos = todos_from_items(&items);
    let got: Vec<(u32, &str, bool)> =
        todos.iter().map(|t| (t.id, t.text.as_str(), t.completed)).collect();
    assert_eq!(got, vec![(3, "c", false), (1, "a", true), (2, "b", false)]);
    assert_eq!(todos_from_items(&Vec::new()), Vec::<Todo>::new());
}

#[test]
fn envelope_is_decoded() {
    let text = "{\"items\":[{\"title\":\"t\",\"subtitle\":\"s\",\"arg\":\"a\",\"extra\":1},{\"title\":\"u\",\"subtitle\":null}],\"more\":true}";
    let items = decode_envelope(text).unwrap();
    assert_eq!(items, vec![item("t", Some("s"), Some("a")), item("u", None, None)]);
}

#[test]
fn envelope_of_another_shape_is_refused() {
    let shape = "解析 JSON 失败: expected an object with a list `items` of titled entries";
    assert_eq!(decode_envelope("[1,2]"), Err(shape.to_string()));
    assert_eq!(decode_envelope("{}"), Err(shape.to_string()));
    assert_eq!(decode_envelope("null"), Err(shape.to_string()));
    assert_eq!(decode_envelope("{\"items\":{}}"), Err(shape.to_string()));
    assert_eq!(decode_envelope("{\"items\":[{}]}"), Err(shape.to_string()));
    assert_eq!(decode_envelope("{\"items\":[{\"title\":null}]}"), Err(shape.to_string()));
    assert_eq!(decode_envelope("{\"items\":[{\"title\":1}]}"), Err(shape.to_string()));
    assert_eq!(decode_envelope("{\"items\":[{\"title\":\"t\",\"subtitle\":5}]}"), Err(shape.to_string()));
    assert_eq!(decode_envelope("{\"items\":[{\"title\":\"t\",\"arg\":[]}]}"), Err(shape.to_string()));
    assert_eq!(decode_envelope("{\"items\":[\"t\"]}"), Err(shape.to_string()));
}

#[test]
fn malformed_json_is_refused() {
    let e = decode_envelope("{\"items\":[").unwrap_err();
    assert!(e.starts_with("解析 JSON 失败: "));
    assert!(e.len() > "解析 JSON 失败: ".len());
    let e = parse_alfred_output("  not json \n").unwrap_err();
    assert!(e.starts_with("解析 JSON 失败: "));
    assert!(e.ends_with(" (输出: not json)"));
    let e = parse_alfred_output("[]").unwrap_err();
    assert_eq!(
        e,
        "解析 JSON 失败: expected an object with a list `items` of titled entries (输出: [])"
    );
}

#[test]
fn json_values_are_read_member_by_member() {
    let mut entry = serde_json::Map::new();
    entry.insert("title".to_string(), serde_json::Value::String("[1] a".to_string()));
    entry.insert("subtitle".to_string(), serde_json::Value::Null);
    entry.insert("arg".to_string(), serde_json::Value::String("1".to_string()));
    let entry = serde_json::Value::Object(entry);
    assert_eq!(item_from_value(&entry), Some(item("[1] a", None, Some("1"))));
    assert_eq!(item_from_value(&serde_json::Value::Null), None);
    assert_eq!(item_from_value(&serde_json::Value::String("title".to_string())), None);

    let mut doc = serde_json::Map::new();
    doc.insert("items".to_string(), serde_json::Value::Array(vec![entry.clone(), entry]));
    let doc = serde_json::Value::Object(doc);
    let items = items_from_value(&doc).unwrap();
    assert_eq!(items.len(), 2);
    assert_eq!(items[1], item("[1] a", None, Some("1")));
    assert_eq!(items_from_value(&serde_json::Value::Array(Vec::new())), None);

    let mut odd = serde_json::Map::new();
    odd.insert("items".to_string(), serde_json::Value::Array(vec![serde_json::Value::Bool(true)]));
    assert_eq!(items_from_value(&serde_json::Value::Object(odd)), None);
}
