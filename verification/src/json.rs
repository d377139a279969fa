//! JSON documents, as `serde_json` reads and writes them.
//!
//! A document is held in a `serde_json::Value`. What it holds is modelled by
//! [`JsonModel`], and every access goes through one of the small functions
//! below, whose contracts are taken on trust from `serde_json`.

use vstd::prelude::*;

verus! {

/// `serde_json::Value`, a JSON document in memory. What one holds is
/// named by `json_model`.
#[verifier::external_type_specification]
#[verifier::external_body]
pub struct ExValue(serde_json::Value);

/// `serde_json::Error`, of which nothing is known but that reading or
/// writing gives one when it fails.
#[verifier::external_type_specification]
#[verifier::external_body]
pub struct ExJsonError(serde_json::Error);

/// What a JSON document holds.
pub enum JsonModel {
    Null,
    Bool(bool),
    /// A whole number that is not negative and fits in 64 bits.
    Natural(nat),
    /// Any other number, by the text it is written as.
    Number(Seq<char>),
    Text(Seq<char>),
    Array(Seq<JsonModel>),
    Object(Map<Seq<char>, JsonModel>),
}

/// What a `serde_json::Value` holds.
pub uninterp spec fn json_model(v: serde_json::Value) -> JsonModel;

/// What `serde_json::from_str` reads out of a text: the document, or `None`
/// where the text is not one JSON document.
pub uninterp spec fn parsed_json(text: Seq<char>) -> Option<JsonModel>;

/// What `serde_json::to_string_pretty` writes for a value that holds the
/// document `m`, or `None` where it fails.
pub uninterp spec fn pretty_json(m: JsonModel) -> Option<Seq<char>>;

/// What each value of a sequence holds, in order.
pub open spec fn json_models(a: Seq<serde_json::Value>) -> Seq<JsonModel> {
    Seq::new(a.len(), |i: int| json_model(a[i]))
}

/// The names and what the values hold, for a list of named values.
pub open spec fn pair_models(pairs: Seq<(String, serde_json::Value)>) -> Seq<
    (Seq<char>, JsonModel),
> {
    Seq::new(pairs.len(), |i: int| (pairs[i].0@, json_model(pairs[i].1)))
}

/// Whether no name occurs twice in a list of named values.
pub open spec fn distinct_names(pairs: Seq<(Seq<char>, JsonModel)>) -> bool {
    forall|i: int, j: int|
        0 <= i < pairs.len() && 0 <= j < pairs.len() && i != j ==> (#[trigger] pairs[i]).0 != (
        #[trigger] pairs[j]).0
}

/// The members of the object that is made of a list of named values.
pub open spec fn members_of(pairs: Seq<(Seq<char>, JsonModel)>) -> Map<Seq<char>, JsonModel>
    decreases pairs.len(),
{
    if pairs.len() == 0 {
        Map::empty()
    } else {
        members_of(pairs.drop_last()).insert(pairs.last().0, pairs.last().1)
    }
}

/// Calls `serde_json::from_str` for a `serde_json::Value`. The contract gives
/// the document a name, `parsed_json`, and claims that the call succeeds
/// exactly where that name is `Some`, with a value that holds that document.
#[verifier::external_body]
pub(crate) fn parse_json(text: &str) -> (r: Result<serde_json::Value, serde_json::Error>)
    ensures
        match r {
            Ok(v) => parsed_json(text@) == Some(json_model(v)),
            Err(_) => parsed_json(text@) is None,
        },
{
    serde_json::from_str::<serde_json::Value>(text)
}

/// Calls `serde_json::to_string_pretty` on a `serde_json::Value`. The
/// contract gives the text a name, `pretty_json`, and claims that it
/// depends on nothing but the document that the value holds. That is so
/// while `serde_json` keeps the members of an object in the order of their
/// names, as it does unless its feature `preserve_order` is switched on.
#[verifier::external_body]
pub(crate) fn render_pretty(v: &serde_json::Value) -> (r: Result<String, serde_json::Error>)
    ensures
        match r {
            Ok(s) => pretty_json(json_model(*v)) == Some(s@),
            Err(_) => pretty_json(json_model(*v)) is None,
        },
{
    serde_json::to_string_pretty(v)
}

/// Formats a `serde_json::Error` with its `Display` impl. Nothing is claimed
/// of the text.
#[verifier::external_body]
pub(crate) fn json_error_text(e: &serde_json::Error) -> (r: String) {
    e.to_string()
}

/// Calls `serde_json::Value::get` with a string key. The contract claims
/// that it returns the member of that name where the value is an object that
/// has one, and `None` otherwise.
#[verifier::external_body]
pub(crate) fn json_member<'a>(v: &'a serde_json::Value, key: &str) -> (r: Option<
    &'a serde_json::Value,
>)
    ensures
        match r {
            Some(m) => match json_model(*v) {
                JsonModel::Object(members) => members.contains_key(key@) && members[key@]
                    == json_model(*m),
                _ => false,
            },
            None => match json_model(*v) {
                JsonModel::Object(members) => !members.contains_key(key@),
                _ => true,
            },
        },
{
    v.get(key)
}

/// Calls `serde_json::Value::as_array`. The contract claims that it returns
/// the elements where the value is an array, and `None` otherwise.
#[verifier::external_body]
pub(crate) fn json_array<'a>(v: &'a serde_json::Value) -> (r: Option<&'a Vec<serde_json::Value>>)
    ensures
        match r {
            Some(a) => json_model(*v) == JsonModel::Array(json_models(a@)),
            None => !(json_model(*v) is Array),
        },
{
    v.as_array()
}

/// Calls `serde_json::Value::as_str`. The contract claims that it returns the
/// text where the value is a string, and `None` otherwise.
#[verifier::external_body]
pub(crate) fn json_text<'a>(v: &'a serde_json::Value) -> (r: Option<&'a str>)
    ensures
        match r {
            Some(s) => json_model(*v) == JsonModel::Text(s@),
            None => !(json_model(*v) is Text),
        },
{
    v.as_str()
}

/// Calls `serde_json::Value::as_u64`. The contract claims that it returns
/// the number where the value is a whole number that is not negative, and
/// `None` otherwise.
#[verifier::external_body]
pub(crate) fn json_natural(v: &serde_json::Value) -> (r: Option<u64>)
    ensures
        match r {
            Some(n) => json_model(*v) == JsonModel::Natural(n as nat),
            None => !(json_model(*v) is Natural),
        },
{
    v.as_u64()
}

/// Calls `serde_json::Value::as_bool`. The contract claims that it returns
/// the truth value where the value is one, and `None` otherwise.
#[verifier::external_body]
pub(crate) fn json_flag(v: &serde_json::Value) -> (r: Option<bool>)
    ensures
        match r {
            Some(b) => json_model(*v) == JsonModel::Bool(b),
            None => !(json_model(*v) is Bool),
        },
{
    v.as_bool()
}

/// Calls `serde_json::Value::is_null`. The contract claims that it tells
/// whether the value is JSON's `null`.
#[verifier::external_body]
pub(crate) fn json_is_null(v: &serde_json::Value) -> (b: bool)
    ensures
        b == (json_model(*v) is Null),
{
    v.is_null()
}

/// Calls `serde_json::Value::is_object`. The contract claims that it tells
/// whether the value is an object.
#[verifier::external_body]
pub(crate) fn json_is_object(v: &serde_json::Value) -> (b: bool)
    ensures
        b == (json_model(*v) is Object),
{
    v.is_object()
}

/// Makes `serde_json::Value::Null`. The contract claims that it holds `null`.
#[verifier::external_body]
pub(crate) fn make_null() -> (r: serde_json::Value)
    ensures
        json_model(r) == JsonModel::Null,
{
    serde_json::Value::Null
}

/// Makes a `serde_json::Value::Bool`. The contract claims that it holds the
/// truth value given.
#[verifier::external_body]
pub(crate) fn make_flag(b: bool) -> (r: serde_json::Value)
    ensures
        json_model(r) == JsonModel::Bool(b),
{
    serde_json::Value::Bool(b)
}

/// Calls `serde_json::Value::from` on a `u32`. The contract claims that the
/// value holds that whole number.
#[verifier::external_body]
pub(crate) fn make_natural(n: u32) -> (r: serde_json::Value)
    ensures
        json_model(r) == JsonModel::Natural(n as nat),
{
    serde_json::Value::from(n)
}

/// Makes a `serde_json::Value::String`. The contract claims that it holds
/// the text given.
#[verifier::external_body]
pub(crate) fn make_text(s: String) -> (r: serde_json::Value)
    ensures
        json_model(r) == JsonModel::Text(s@),
{
    serde_json::Value::String(s)
}

/// Makes a `serde_json::Value::Array`. The contract claims that it holds
/// the elements given, in order.
#[verifier::external_body]
pub(crate) fn make_list(items: Vec<serde_json::Value>) -> (r: serde_json::Value)
    ensures
        json_model(r) == JsonModel::Array(json_models(items@)),
{
    serde_json::Value::Array(items)
}

/// Collects named values into a `serde_json::Map` and makes a
/// `serde_json::Value::Object` of it. The contract claims that the object
/// holds each value under its name, for names that are all different.
#[verifier::external_body]
pub(crate) fn make_object(pairs: Vec<(String, serde_json::Value)>) -> (r: serde_json::Value)
    requires
        distinct_names(pair_models(pairs@)),
    ensures
        json_model(r) == JsonModel::Object(members_of(pair_models(pairs@))),
{
    serde_json::Value::Object(pairs.into_iter().collect())
}

/// The members of an object are the names of the values it is made of.
pub proof fn lemma_members_names(pairs: Seq<(Seq<char>, JsonModel)>)
    ensures
        forall|i: int|
            0 <= i < pairs.len() ==> members_of(pairs).contains_key((#[trigger] pairs[i]).0),
        forall|k: Seq<char>| #[trigger]
            members_of(pairs).contains_key(k) ==> exists|i: int|
                0 <= i < pairs.len() && (#[trigger] pairs[i]).0 == k,
    decreases pairs.len(),
{
    if pairs.len() > 0 {
        let front = pairs.drop_last();
        lemma_members_names(front);
        assert forall|i: int| 0 <= i < pairs.len() implies members_of(pairs).contains_key(
            (#[trigger] pairs[i]).0,
        ) by {
            if i < front.len() {
                assert(front[i] == pairs[i]);
            }
        }
        assert forall|k: Seq<char>| #[trigger] members_of(pairs).contains_key(k) implies exists|
            i: int,
        |
            0 <= i < pairs.len() && (#[trigger] pairs[i]).0 == k by {
            if k == pairs.last().0 {
                assert(pairs[pairs.len() - 1].0 == k);
            } else {
                assert(members_of(front).contains_key(k));
                let i = choose|i: int| 0 <= i < front.len() && (#[trigger] front[i]).0 == k;
                assert(pairs[i] == front[i]);
            }
        }
    }
}

/// Adds a named value to the list that an object will be made of.
pub(crate) fn push_member(
    pairs: &mut Vec<(String, serde_json::Value)>,
    name: &str,
    value: serde_json::Value,
)
    requires
        distinct_names(pair_models(old(pairs)@)),
        !members_of(pair_models(old(pairs)@)).contains_key(name@),
    ensures
        distinct_names(pair_models(final(pairs)@)),
        members_of(pair_models(final(pairs)@)) == members_of(pair_models(old(pairs)@)).insert(
            name@,
            json_model(value),
        ),
{
    let ghost before = pair_models(pairs@);
    pairs.push((name.to_owned(), value));
    proof {
        let now = pair_models(pairs@);
        assert(now =~= before.push((name@, json_model(value))));
        assert(now.drop_last() =~= before);
        lemma_members_names(before);
        assert forall|i: int, j: int|
            0 <= i < now.len() && 0 <= j < now.len() && i != j implies (#[trigger] now[i]).0 != (
        #[trigger] now[j]).0 by {
            if i < before.len() {
                assert(now[i] == before[i]);
            }
            if j < before.len() {
                assert(now[j] == before[j]);
            }
        }
    }
}

} // verus!
