//! JSON values: the mathematical value behind a `serde_json::Value`, and the calls into
//! `serde_json` that build, print and parse one.

use crate::text::{opt_text, texts};
use vstd::pervasive::unreached;
use vstd::prelude::*;

verus! {

/// `serde_json::Value`, carried as an opaque value; [`json_of`] says what it holds.
#[verifier::external_type_specification]
#[verifier::external_body]
pub struct ExJsonValue(serde_json::Value);

/// `serde_json::Error`, carried as an opaque value; [`error_text`] says what it tells.
#[verifier::external_type_specification]
#[verifier::external_body]
pub struct ExJsonError(serde_json::Error);

/// A JSON value. Whole numbers that fit a machine word are exact; any other number is
/// known by its text.
pub enum Json {
    Null,
    Bool(bool),
    Int(int),
    Float(Seq<char>),
    Str(Seq<char>),
    Arr(Seq<Json>),
    Obj(Map<Seq<char>, Json>),
}

/// What a `serde_json::Value` holds.
pub uninterp spec fn json_of(value: serde_json::Value) -> Json;

/// The compact text that `serde_json::to_string` gives a value.
pub uninterp spec fn json_text(value: Json) -> Seq<char>;

/// What a `serde_json::Error` tells: the text that it displays as.
pub uninterp spec fn error_text(error: serde_json::Error) -> Seq<char>;

/// What `serde_json::from_str` makes of a text as a value: the value that it reads, or what the
/// error tells with which it stops.
pub uninterp spec fn json_read(text: Seq<char>) -> Result<Json, Seq<char>>;

/// What the error tells with which `serde_json::from_str` stops on a text that is no list of
/// strings.
pub uninterp spec fn strings_error(text: Seq<char>) -> Seq<char>;

/// The value that a text reads as, if it reads as one.
pub open spec fn json_parse(text: Seq<char>) -> Option<Json> {
    match json_read(text) {
        Ok(value) => Some(value),
        Err(_) => None,
    }
}

/// `value` holds no fractional number and nests at most `depth` arrays and objects.
pub open spec fn plain(value: Json, depth: nat) -> bool
    decreases depth,
{
    match value {
        Json::Float(_) => false,
        Json::Arr(items) => depth > 0 && forall|i: int|
            0 <= i < items.len() ==> plain(#[trigger] items[i], (depth - 1) as nat),
        Json::Obj(fields) => depth > 0 && forall|k: Seq<char>|
            fields.dom().contains(k) ==> plain(#[trigger] fields[k], (depth - 1) as nat),
        _ => true,
    }
}

/// The deepest nesting that a parse accepts.
pub open spec fn max_depth() -> nat {
    127
}

/// What an optional `serde_json::Value` holds.
pub open spec fn opt_json(value: Option<serde_json::Value>) -> Option<Json> {
    match value {
        Some(v) => Some(json_of(v)),
        None => None,
    }
}

/// The JSON array of the strings `items`.
pub open spec fn strings_json(items: Seq<Seq<char>>) -> Json {
    Json::Arr(items.map_values(|t: Seq<char>| Json::Str(t)))
}

/// The strings of a JSON array that holds nothing else.
pub open spec fn json_strings(value: Option<Json>) -> Option<Seq<Seq<char>>> {
    match value {
        Some(Json::Arr(items)) => if forall|i: int|
            0 <= i < items.len() ==> #[trigger] items[i] is Str {
            Some(items.map_values(|j: Json| j->Str_0))
        } else {
            None
        },
        _ => None,
    }
}

/// The object whose fields are `entries`; of two entries with one key the later stands.
pub open spec fn object_of(entries: Seq<(String, serde_json::Value)>) -> Map<Seq<char>, Json>
    decreases entries.len(),
{
    if entries.len() == 0 {
        Map::empty()
    } else {
        object_of(entries.drop_last()).insert(entries.last().0@, json_of(entries.last().1))
    }
}

/// The field `key` of an object.
pub open spec fn field(value: Json, key: Seq<char>) -> Option<Json> {
    match value {
        Json::Obj(fields) => if fields.dom().contains(key) {
            Some(fields[key])
        } else {
            None
        },
        _ => None,
    }
}

/// The text of the string field `key` of an object.
pub open spec fn string_field(value: Json, key: Seq<char>) -> Option<Seq<char>> {
    match field(value, key) {
        Some(Json::Str(text)) => Some(text),
        _ => None,
    }
}

/// `serde_json::Value::clone`: the copy is the value.
pub assume_specification[ <serde_json::Value as Clone>::clone ](value: &serde_json::Value) -> (r:
    serde_json::Value)
    ensures
        r == *value,
;

/// `serde_json::Value::String`: the value holds the string.
#[verifier::external_body]
pub(crate) fn json_string(text: &str) -> (r: serde_json::Value)
    ensures
        json_of(r) == Json::Str(text@),
{
    serde_json::Value::String(text.to_string())
}

/// `serde_json::Value::Array`: the value holds the items in order.
#[verifier::external_body]
pub(crate) fn json_array(items: Vec<serde_json::Value>) -> (r: serde_json::Value)
    ensures
        json_of(r) == Json::Arr(items@.map_values(|v: serde_json::Value| json_of(v))),
{
    serde_json::Value::Array(items)
}

/// `serde_json::Map::from_iter`: the object holds each entry, a later one in place of an
/// earlier one with the same key.
#[verifier::external_body]
pub(crate) fn json_object(entries: Vec<(String, serde_json::Value)>) -> (r: serde_json::Value)
    ensures
        json_of(r) == Json::Obj(object_of(entries@)),
{
    serde_json::Value::Object(serde_json::Map::from_iter(entries))
}

/// `serde_json::Value::get` with a key: the field of an object, and nothing where the value is no
/// object or lacks the field.
#[verifier::external_body]
pub(crate) fn json_get<'a>(value: &'a serde_json::Value, key: &str) -> (r: Option<
    &'a serde_json::Value,
>)
    ensures
        match r {
            Some(held) => field(json_of(*value), key@) == Some(json_of(*held)),
            None => field(json_of(*value), key@) is None,
        },
{
    value.get(key)
}

/// `serde_json::Value::as_str`: the text of a string, and nothing of any other value.
#[verifier::external_body]
pub(crate) fn json_as_str(value: &serde_json::Value) -> (r: Option<&str>)
    ensures
        match r {
            Some(text) => json_of(*value) == Json::Str(text@),
            None => !(json_of(*value) is Str),
        },
{
    value.as_str()
}

/// `serde_json::to_string` on a value: it always succeeds, its text is the value's compact
/// text, that text has no line break, and a value without fractional numbers that nests no
/// deeper than the parser goes is read back from it.
#[verifier::external_body]
pub(crate) fn json_to_string(value: &serde_json::Value) -> (r: Result<String, serde_json::Error>)
    ensures
        r is Ok,
        r->Ok_0@ == json_text(json_of(*value)),
        !r->Ok_0@.contains('\n'),
        plain(json_of(*value), max_depth()) ==> json_parse(r->Ok_0@) == Some(json_of(*value)),
{
    serde_json::to_string(value)
}

/// `serde_json::from_str` into a value: what the text reads as, or the error with which reading it
/// stops. Either depends on the text alone.
#[verifier::external_body]
pub(crate) fn json_from_str(text: &str) -> (r: Result<serde_json::Value, serde_json::Error>)
    ensures
        match r {
            Ok(value) => json_read(text@) == Ok::<Json, Seq<char>>(json_of(value)),
            Err(error) => json_read(text@) == Err::<Json, Seq<char>>(error_text(error)),
        },
{
    serde_json::from_str(text)
}

/// `serde_json::to_string` on a list of strings: it always succeeds, its text is that of the
/// array of those strings, and the array is read back from it.
#[verifier::external_body]
pub(crate) fn strings_to_json(items: &Vec<String>) -> (r: Result<String, serde_json::Error>)
    ensures
        r is Ok,
        r->Ok_0@ == json_text(strings_json(texts(items@))),
        json_parse(r->Ok_0@) == Some(strings_json(texts(items@))),
{
    serde_json::to_string(items)
}

/// `serde_json::from_str` into a list of strings: it succeeds exactly where the text reads as
/// an array of strings, and gives those strings. What the error tells otherwise depends on the
/// text alone.
#[verifier::external_body]
pub(crate) fn strings_from_json(text: &str) -> (r: Result<Vec<String>, serde_json::Error>)
    ensures
        r is Ok <==> json_strings(json_parse(text@)) is Some,
        r is Ok ==> texts(r->Ok_0@) == json_strings(json_parse(text@))->0,
        r is Err ==> error_text(r->Err_0) == strings_error(text@),
{
    serde_json::from_str(text)
}

/// The text of the string field `key` of an object, and nothing where the value is no object,
/// lacks the field or holds no string there.
pub fn json_get_str(value: &serde_json::Value, key: &str) -> (r: Option<String>)
    ensures
        opt_text(r) == string_field(json_of(*value), key@),
{
    match json_get(value, key) {
        Some(held) => match json_as_str(held) {
            Some(text) => Some(text.to_owned()),
            None => None,
        },
        None => None,
    }
}

/// The compact text of a value.
pub fn value_text(value: &serde_json::Value) -> (r: String)
    ensures
        r@ == json_text(json_of(*value)),
        !r@.contains('\n'),
        plain(json_of(*value), max_depth()) ==> json_parse(r@) == Some(json_of(*value)),
{
    match json_to_string(value) {
        Ok(text) => text,
        Err(_) => unreached(),
    }
}

/// The compact text of the array of some strings.
pub fn strings_text(items: &Vec<String>) -> (r: String)
    ensures
        r@ == json_text(strings_json(texts(items@))),
        json_parse(r@) == Some(strings_json(texts(items@))),
{
    match strings_to_json(items) {
        Ok(text) => text,
        Err(_) => unreached(),
    }
}

/// The fields of an object with two keys.
pub open spec fn two_fields(k1: Seq<char>, v1: Json, k2: Seq<char>, v2: Json) -> Map<
    Seq<char>,
    Json,
> {
    Map::empty().insert(k1, v1).insert(k2, v2)
}

/// The object with two keys.
pub fn object_of_two(k1: &str, v1: serde_json::Value, k2: &str, v2: serde_json::Value) -> (r:
    serde_json::Value)
    ensures
        json_of(r) == Json::Obj(two_fields(k1@, json_of(v1), k2@, json_of(v2))),
{
    let entries: Vec<(String, serde_json::Value)> = vec![(k1.to_owned(), v1), (k2.to_owned(), v2)];
    proof {
        reveal_with_fuel(object_of, 3);
        assert(entries@.drop_last().drop_last() =~= Seq::empty());
    }
    json_object(entries)
}

/// The object with three keys.
pub fn object_of_three(
    k1: &str,
    v1: serde_json::Value,
    k2: &str,
    v2: serde_json::Value,
    k3: &str,
    v3: serde_json::Value,
) -> (r: serde_json::Value)
    ensures
        json_of(r) == Json::Obj(
            two_fields(k1@, json_of(v1), k2@, json_of(v2)).insert(k3@, json_of(v3)),
        ),
{
    let entries: Vec<(String, serde_json::Value)> = vec![
        (k1.to_owned(), v1),
        (k2.to_owned(), v2),
        (k3.to_owned(), v3),
    ];
    proof {
        reveal_with_fuel(object_of, 4);
        assert(entries@.drop_last().drop_last().drop_last() =~= Seq::empty());
    }
    json_object(entries)
}

/// Reading the array of some strings gives those strings.
pub proof fn lemma_strings_round_trip(items: Seq<Seq<char>>)
    ensures
        json_strings(Some(strings_json(items))) == Some(items),
{
    let arr = items.map_values(|t: Seq<char>| Json::Str(t));
    assert(forall|i: int| 0 <= i < arr.len() ==> #[trigger] arr[i] is Str);
    assert(arr.map_values(|j: Json| j->Str_0) =~= items);
}

/// A list of strings is the array of those strings, and only an array of strings reads as one.
pub proof fn law_a_list_of_strings_is_an_array_of_them(items: Seq<Seq<char>>, value: Json, i: int)
    ensures
        strings_json(items) is Arr,
        strings_json(items)->Arr_0.len() == items.len(),
        0 <= i < items.len() ==> strings_json(items)->Arr_0[i] == Json::Str(items[i]),
        json_strings(Some(value)) == Some(items) <==> value == strings_json(items),
        json_strings(None) is None,
{
    lemma_strings_round_trip(items);
    if json_strings(Some(value)) == Some(items) {
        let held = value->Arr_0;
        assert forall|k: int| 0 <= k < held.len() implies held[k] == Json::Str(items[k]) by {
            assert(held[k] is Str);
            assert(held.map_values(|j: Json| j->Str_0)[k] == items[k]);
        }
        assert(held.len() == items.len()) by {
            assert(held.map_values(|j: Json| j->Str_0).len() == held.len());
        }
        assert(held =~= strings_json(items)->Arr_0);
    }
}

/// An object of two fields has those two and no other, each with its value; a string field gives its
/// string, and a field that is missing or holds no string gives nothing.
pub proof fn law_an_object_gives_its_fields(
    k1: Seq<char>,
    v1: Json,
    k2: Seq<char>,
    v2: Json,
    fields: Map<Seq<char>, Json>,
    key: Seq<char>,
)
    ensures
        two_fields(k1, v1, k2, v2).dom() == set![k1, k2],
        two_fields(k1, v1, k2, v2)[k2] == v2,
        k1 != k2 ==> two_fields(k1, v1, k2, v2)[k1] == v1,
        fields.dom().contains(key) ==> field(Json::Obj(fields), key) == Some(fields[key]),
        !fields.dom().contains(key) ==> field(Json::Obj(fields), key) is None,
        string_field(Json::Obj(fields), key) is Some <==> fields.dom().contains(key)
            && fields[key] is Str,
        fields.dom().contains(key) && fields[key] is Str ==> string_field(Json::Obj(fields), key)
            == Some(fields[key]->Str_0),
{
    assert(two_fields(k1, v1, k2, v2).dom() =~= set![k1, k2]);
}

} // verus!
