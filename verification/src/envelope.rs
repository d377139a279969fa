//! Decoding the listing that a task manager prints: a JSON object whose
//! member `items` is a list of objects with a `title` and, optionally, a
//! `subtitle` and an `arg`.
//!
//! The JSON text itself is read by `serde_json`; what the document must look
//! like, and what becomes of it, is decided here.

use vstd::prelude::*;
use crate::fields::{optional_text, required_member, required_text, text_member};
use crate::json::{json_array, json_error_text, json_member, parse_json};
use crate::json::{json_model, json_models, parsed_json, JsonModel};
use crate::parser::{items_todos, todos_from_items};
use crate::task::{item_views, todo_views, AlfredItem, ItemView, Todo, TodoView};
use crate::text::{chars_of, drop_spaces, skip_spaces, trim_back, trim_front, trimmed};

verus! {

/// The listing entry that a JSON value stands for: an object with a string
/// `title` and optional strings `subtitle` and `arg`. `None` for anything else.
pub open spec fn model_item(m: JsonModel) -> Option<ItemView> {
    match m {
        JsonModel::Object(members) => match (
            required_text(members, "title"@),
            optional_text(members, "subtitle"@),
            optional_text(members, "arg"@),
        ) {
            (Some(title), Some(subtitle), Some(arg)) => Some(ItemView { title, subtitle, arg }),
            _ => None,
        },
        _ => None,
    }
}

/// The entries that a list of JSON values stands for, or `None` where one of
/// them stands for none.
pub open spec fn model_item_list(a: Seq<JsonModel>) -> Option<Seq<ItemView>> {
    if forall|i: int| 0 <= i < a.len() ==> (#[trigger] model_item(a[i])) is Some {
        Some(Seq::new(a.len(), |i: int| model_item(a[i])->0))
    } else {
        None
    }
}

/// The entries of the listing that a JSON document stands for: the document
/// is an object whose member `items` is an array of entries. `None` for
/// anything else.
pub open spec fn model_items(m: JsonModel) -> Option<Seq<ItemView>> {
    match m {
        JsonModel::Object(members) => {
            if members.contains_key("items"@) {
                match members["items"@] {
                    JsonModel::Array(a) => model_item_list(a),
                    _ => None,
                }
            } else {
                None
            }
        },
        _ => None,
    }
}

/// The entries of the listing that a text holds, or `None` where the text is
/// not a JSON document or the document is not a listing.
pub open spec fn envelope_items(text: Seq<char>) -> Option<Seq<ItemView>> {
    match parsed_json(text) {
        Some(m) => model_items(m),
        None => None,
    }
}

/// The listing that holds no entries, as task managers print it.
pub open spec fn empty_listing() -> Seq<char> {
    "{\"items\":[]}"@
}

/// The records that the output of a task manager holds. Output that is
/// blank, or is the empty listing once the white space around it is gone,
/// holds none; other output is decoded as a listing. `None` where that fails.
pub open spec fn output_todos(output: Seq<char>) -> Option<Seq<TodoView>> {
    let t = trimmed(output);
    if t.len() == 0 || t == empty_listing() {
        Some(Seq::empty())
    } else {
        match envelope_items(t) {
            Some(items) => Some(items_todos(items)),
            None => None,
        }
    }
}

/// The message for a document that is no listing.
pub open spec fn shape_error() -> Seq<char> {
    "expected an object with a list `items` of titled entries"@
}

/// The message for a listing that could not be decoded.
pub open spec fn decode_failure(detail: Seq<char>) -> Seq<char> {
    "解析 JSON 失败: "@ + detail
}

/// The message for output that could not be decoded, which quotes the output.
pub open spec fn output_failure(detail: Seq<char>, output: Seq<char>) -> Seq<char> {
    decode_failure(detail) + " (输出: "@ + output + ")"@
}

/// The empty listing has no white space around it.
pub proof fn lemma_empty_listing_trimmed()
    ensures
        trimmed(empty_listing()) == empty_listing(),
{
    reveal_strlit("{\"items\":[]}");
    let e = empty_listing();
    assert(e.len() == 12);
    assert(e[0] == '{' && e[11] == '}');
    assert(skip_spaces(e, 0, 12) == 0);
    assert(drop_spaces(e, 0, 12) == 12);
    assert(e.subrange(0, 12) =~= e);
}

/// Output that is blank, that is the empty listing, or that decodes to a
/// listing without entries holds no records, and is no failure.
pub proof fn lemma_no_items_no_records(output: Seq<char>)
    requires
        trimmed(output).len() == 0 || trimmed(output) == empty_listing() || envelope_items(
            trimmed(output),
        ) == Some(Seq::<ItemView>::empty()),
    ensures
        output_todos(output) == Some(Seq::<TodoView>::empty()),
{
}

/// Neither no output at all nor the empty listing is a failure: both hold
/// no records.
pub proof fn lemma_empty_outputs()
    ensures
        output_todos(Seq::<char>::empty()) == Some(Seq::<TodoView>::empty()),
        output_todos(empty_listing()) == Some(Seq::<TodoView>::empty()),
{
    lemma_empty_listing_trimmed();
    assert(trimmed(Seq::<char>::empty()).len() == 0);
}

/// Reads one listing entry out of a JSON value.
pub fn item_from_value(v: &serde_json::Value) -> (r: Option<AlfredItem>)
    ensures
        match r {
            Some(item) => model_item(json_model(*v)) == Some(item@),
            None => model_item(json_model(*v)) is None,
        },
{
    let title: String = match required_member(v, "title") {
        Some(s) => s,
        None => {
            return None;
        },
    };
    let subtitle: Option<String> = match text_member(v, "subtitle") {
        Some(s) => s,
        None => {
            return None;
        },
    };
    let arg: Option<String> = match text_member(v, "arg") {
        Some(s) => s,
        None => {
            return None;
        },
    };
    Some(AlfredItem { title, subtitle, arg })
}

/// Reads the entries of a listing out of a JSON document.
pub fn items_from_value(v: &serde_json::Value) -> (r: Option<Vec<AlfredItem>>)
    ensures
        match r {
            Some(items) => model_items(json_model(*v)) == Some(item_views(items@)),
            None => model_items(json_model(*v)) is None,
        },
{
    let list: &Vec<serde_json::Value> = match json_member(v, "items") {
        Some(m) => match json_array(m) {
            Some(a) => a,
            None => {
                return None;
            },
        },
        None => {
            return None;
        },
    };
    let ghost models = json_models(list@);
    assert(model_items(json_model(*v)) == model_item_list(models));
    let mut items: Vec<AlfredItem> = Vec::new();
    let mut i: usize = 0;
    while i < list.len()
        invariant
            i <= list.len(),
            models == json_models(list@),
            model_items(json_model(*v)) == model_item_list(models),
            items.len() == i,
            forall|k: int| 0 <= k < i ==> model_item(models[k]) == Some(#[trigger] items[k]@),
        decreases list.len() - i,
    {
        match item_from_value(&list[i]) {
            Some(item) => {
                items.push(item);
            },
            None => {
                assert(model_item(models[i as int]) is None);
                return None;
            },
        }
        i += 1;
    }
    assert forall|k: int| 0 <= k < models.len() implies (#[trigger] model_item(
        models[k],
    )) is Some by {
        assert(model_item(models[k]) == Some(items[k]@));
    }
    assert(item_views(items@) =~= model_item_list(models)->0);
    Some(items)
}

/// Decodes the listing that `text` holds. Fails, with a message, where the
/// text is not a JSON document or the document is not a listing.
pub fn decode_envelope(text: &str) -> (r: Result<Vec<AlfredItem>, String>)
    ensures
        match r {
            Ok(items) => envelope_items(text@) == Some(item_views(items@)),
            Err(m) => envelope_items(text@) is None && (exists|d: Seq<char>|
                m@ == decode_failure(d)) && (parsed_json(text@) is Some ==> m@ == decode_failure(
                shape_error(),
            )),
        },
{
    let detail: String = match parse_json(text) {
        Ok(v) => match items_from_value(&v) {
            Some(items) => {
                return Ok(items);
            },
            None => "expected an object with a list `items` of titled entries".to_owned(),
        },
        Err(e) => json_error_text(&e),
    };
    let mut message: String = "解析 JSON 失败: ".to_owned();
    message.append(detail.as_str());
    assert(message@ == decode_failure(detail@));
    Err(message)
}

/// Reads the task records out of the output of a task manager.
///
/// Blank output and the empty listing give no records. Other output is
/// decoded as a listing, and each entry that yields a record gives one, in
/// order. Fails, with a message that quotes the output, where the output is
/// not a listing.
pub fn parse_alfred_output(output: &str) -> (r: Result<Vec<Todo>, String>)
    ensures
        match r {
            Ok(todos) => output_todos(output@) == Some(todo_views(todos@)),
            Err(m) => output_todos(output@) is None && exists|d: Seq<char>|
                m@ == output_failure(d, trimmed(output@)),
        },
{
    let chars = chars_of(output);
    let from: usize = trim_front(&chars, 0, chars.len());
    let to: usize = trim_back(&chars, from, chars.len());
    let body: &str = output.substring_char(from, to);
    if from == to {
        assert(todo_views(Seq::<Todo>::empty()) =~= Seq::<TodoView>::empty());
        return Ok(Vec::new());
    }
    let empty: String = "{\"items\":[]}".to_owned();
    let owned: String = body.to_owned();
    if owned == empty {
        assert(todo_views(Seq::<Todo>::empty()) =~= Seq::<TodoView>::empty());
        return Ok(Vec::new());
    }
    match decode_envelope(body) {
        Ok(items) => Ok(todos_from_items(&items)),
        Err(m) => {
            let ghost d = choose|d: Seq<char>| m@ == decode_failure(d);
            let mut message: String = m;
            message.append(" (输出: ");
            message.append(body);
            message.append(")");
            assert(message@ == output_failure(d, trimmed(output@)));
            Err(message)
        },
    }
}

} // verus!
