//! Reading the members of a JSON object, each in the form that a record
//! needs it in.

use vstd::prelude::*;
use crate::json::{json_flag, json_is_null, json_member, json_model, json_natural, json_text};
use crate::json::JsonModel;
use crate::task::opt_text;

verus! {

/// The members of a document that is an object; none for any other document.
pub open spec fn members(m: JsonModel) -> Map<Seq<char>, JsonModel> {
    match m {
        JsonModel::Object(members) => members,
        _ => Map::empty(),
    }
}

/// What an optional text member of an object holds: `Some(None)` where the
/// member is missing or `null`, `Some(Some(..))` where it is a string, and
/// `None` where it is anything else.
pub open spec fn optional_text(members: Map<Seq<char>, JsonModel>, key: Seq<char>) -> Option<
    Option<Seq<char>>,
> {
    if !members.contains_key(key) {
        Some(None)
    } else {
        match members[key] {
            JsonModel::Null => Some(None),
            JsonModel::Text(s) => Some(Some(s)),
            _ => None,
        }
    }
}

/// What a text member with a default holds: the default where the member
/// is missing, nothing where it is `null`, the text where it is a string,
/// and `None` where it is anything else.
pub open spec fn defaulted_text(
    members: Map<Seq<char>, JsonModel>,
    key: Seq<char>,
    default: Seq<char>,
) -> Option<Option<Seq<char>>> {
    if !members.contains_key(key) {
        Some(Some(default))
    } else {
        optional_text(members, key)
    }
}

/// The text that an object must hold under `key`, or `None`.
pub open spec fn required_text(members: Map<Seq<char>, JsonModel>, key: Seq<char>) -> Option<
    Seq<char>,
> {
    if members.contains_key(key) {
        match members[key] {
            JsonModel::Text(s) => Some(s),
            _ => None,
        }
    } else {
        None
    }
}

/// The identifier that an object must hold under `key`, or `None`.
pub open spec fn required_id(members: Map<Seq<char>, JsonModel>, key: Seq<char>) -> Option<u32> {
    if members.contains_key(key) {
        match members[key] {
            JsonModel::Natural(n) => if n <= u32::MAX {
                Some(n as u32)
            } else {
                None
            },
            _ => None,
        }
    } else {
        None
    }
}

/// The truth value that an object may hold under `key`: `false` where the
/// member is missing, and `None` where it is no truth value.
pub open spec fn optional_flag(members: Map<Seq<char>, JsonModel>, key: Seq<char>) -> Option<
    bool,
> {
    if members.contains_key(key) {
        match members[key] {
            JsonModel::Bool(b) => Some(b),
            _ => None,
        }
    } else {
        Some(false)
    }
}

/// Reads a text that an object may hold.
pub(crate) fn text_member(v: &serde_json::Value, key: &str) -> (r: Option<Option<String>>)
    ensures
        match r {
            Some(o) => optional_text(members(json_model(*v)), key@) == Some(opt_text(o)),
            None => optional_text(members(json_model(*v)), key@) is None,
        },
{
    match json_member(v, key) {
        None => Some(None),
        Some(m) => {
            if json_is_null(m) {
                Some(None)
            } else {
                match json_text(m) {
                    Some(s) => Some(Some(s.to_owned())),
                    None => None,
                }
            }
        },
    }
}

/// Reads a text that an object may hold, and that has a default where the
/// object does not hold it.
pub(crate) fn text_member_or(v: &serde_json::Value, key: &str, default: &str) -> (r: Option<
    Option<String>,
>)
    ensures
        match r {
            Some(o) => defaulted_text(members(json_model(*v)), key@, default@) == Some(opt_text(o)),
            None => defaulted_text(members(json_model(*v)), key@, default@) is None,
        },
{
    match json_member(v, key) {
        None => Some(Some(default.to_owned())),
        Some(_) => text_member(v, key),
    }
}

/// Reads a text that an object must hold.
pub(crate) fn required_member(v: &serde_json::Value, key: &str) -> (r: Option<String>)
    ensures
        opt_text(r) == required_text(members(json_model(*v)), key@),
{
    match json_member(v, key) {
        None => None,
        Some(m) => match json_text(m) {
            Some(s) => Some(s.to_owned()),
            None => None,
        },
    }
}

/// Reads an identifier that an object must hold.
pub(crate) fn id_member(v: &serde_json::Value, key: &str) -> (r: Option<u32>)
    ensures
        r == required_id(members(json_model(*v)), key@),
{
    match json_member(v, key) {
        None => None,
        Some(m) => match json_natural(m) {
            Some(n) => {
                if n > 0xffff_ffff {
                    None
                } else {
                    Some(n as u32)
                }
            },
            None => None,
        },
    }
}

/// Reads a truth value that an object may hold.
pub(crate) fn flag_member(v: &serde_json::Value, key: &str) -> (r: Option<bool>)
    ensures
        r == optional_flag(members(json_model(*v)), key@),
{
    match json_member(v, key) {
        None => Some(false),
        Some(m) => json_flag(m),
    }
}

} // verus!
