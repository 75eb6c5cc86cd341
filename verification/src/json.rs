//! JSON values, as `serde_json` holds them.
//!
//! A value is opaque here: [`json_of`] and [`object_of`] name what it holds, and each function
//! below makes one call into `serde_json` and says over those names what the call does.
use crate::text;
use vstd::prelude::*;

verus! {

/// What a JSON value holds.
pub enum Json {
    Null,
    Bool(bool),
    /// A number: its value where it is an integer from 0 to `u64::MAX` written without fraction
    /// or exponent, and the text it is shown as.
    Number(Option<u64>, Seq<char>),
    Str(Seq<char>),
    Array(Seq<Json>),
    Object(Map<Seq<char>, Json>),
}

/// The entries of a JSON object.
pub type Entries = Map<Seq<char>, Json>;

/// `serde_json::Value`.
#[verifier::external_type_specification]
#[verifier::external_body]
pub struct ExValue(serde_json::Value);

/// `serde_json::Map`.
#[verifier::external_type_specification]
#[verifier::external_body]
#[verifier::reject_recursive_types(K)]
#[verifier::reject_recursive_types(V)]
pub struct ExMap<K, V>(serde_json::Map<K, V>);

/// What a value holds.
pub uninterp spec fn json_of(value: serde_json::Value) -> Json;

/// What an object holds.
pub uninterp spec fn object_of(object: serde_json::Map<String, serde_json::Value>) -> Entries;

/// What `serde_json::from_str` reads a text as; nothing where the text is not JSON.
pub uninterp spec fn parsed(text: Seq<char>) -> Option<Json>;

/// What `serde_json::from_slice` reads bytes as, where they are to be an object; its message where
/// they are not the JSON text of an object.
pub uninterp spec fn parsed_object(bytes: Seq<u8>) -> Result<Entries, Seq<char>>;

/// The text that a value is shown as.
pub uninterp spec fn shown(json: Json) -> Seq<char>;

/// The bytes that `serde_json::to_vec` writes an object as.
pub uninterp spec fn serialized(object: Entries) -> Seq<u8>;

/// Whether `a` comes before `b` in the order of strings, or is `b`.
pub open spec fn in_order(a: Seq<char>, b: Seq<char>) -> bool
    decreases a.len(),
{
    if a.len() == 0 {
        true
    } else if b.len() == 0 {
        false
    } else if a[0] == b[0] {
        in_order(a.drop_first(), b.drop_first())
    } else {
        a[0] < b[0]
    }
}

/// `key` is the first key of `object`, in the order of strings.
pub open spec fn is_first_key(object: Entries, key: Seq<char>) -> bool {
    &&& object.contains_key(key)
    &&& forall|other: Seq<char>| #[trigger] object.contains_key(other) ==> in_order(key, other)
}

/// Reads a text with `serde_json::from_str`.
#[verifier::external_body]
pub(crate) fn parse(text: &str) -> (r: Option<serde_json::Value>)
    ensures
        r matches Some(value) ==> parsed(text@) == Some(json_of(value)),
        r is None ==> parsed(text@) is None,
{
    serde_json::from_str::<serde_json::Value>(text).ok()
}

/// What came of reading an object.
pub open spec fn object_result(
    result: Result<serde_json::Map<String, serde_json::Value>, String>,
) -> Result<Entries, Seq<char>> {
    match result {
        Ok(object) => Ok(object_of(object)),
        Err(message) => Err(message@),
    }
}

/// Reads bytes as an object with `serde_json::from_slice`. An error is given by its message.
#[verifier::external_body]
pub(crate) fn parse_object(bytes: &[u8]) -> (r: Result<
    serde_json::Map<String, serde_json::Value>,
    String,
>)
    ensures
        object_result(r) == parsed_object(bytes@),
{
    serde_json::from_slice::<serde_json::Map<String, serde_json::Value>>(bytes).map_err(
        |e| e.to_string(),
    )
}

/// An object without entries, from `Map::new`.
#[verifier::external_body]
pub(crate) fn empty_object() -> (r: serde_json::Map<String, serde_json::Value>)
    ensures
        object_of(r) == Entries::empty(),
{
    serde_json::Map::new()
}

/// `Map::clone`: an object that holds the same.
#[verifier::external_body]
pub(crate) fn copy(object: &serde_json::Map<String, serde_json::Value>) -> (r: serde_json::Map<
    String,
    serde_json::Value,
>)
    ensures
        object_of(r) == object_of(*object),
{
    object.clone()
}

/// `Map::insert`: the key now has the value, and the other keys are as before.
#[verifier::external_body]
pub(crate) fn insert(
    object: &mut serde_json::Map<String, serde_json::Value>,
    key: String,
    value: serde_json::Value,
)
    ensures
        object_of(*final(object)) == object_of(*old(object)).insert(key@, json_of(value)),
{
    object.insert(key, value);
}

/// `Map::remove`: the key is gone, its value is returned, and the other keys are as before.
#[verifier::external_body]
pub(crate) fn remove(
    object: &mut serde_json::Map<String, serde_json::Value>,
    key: &str,
) -> (r: Option<serde_json::Value>)
    ensures
        object_of(*final(object)) == object_of(*old(object)).remove(key@),
        r is Some <==> object_of(*old(object)).contains_key(key@),
        r matches Some(value) ==> json_of(value) == object_of(*old(object))[key@],
{
    object.remove(key)
}

/// `Map::get`: the value of the key.
#[verifier::external_body]
pub(crate) fn get<'a>(
    object: &'a serde_json::Map<String, serde_json::Value>,
    key: &str,
) -> (r: Option<&'a serde_json::Value>)
    ensures
        r is Some <==> object_of(*object).contains_key(key@),
        r matches Some(value) ==> json_of(*value) == object_of(*object)[key@],
{
    object.get(key)
}

/// The first of `Map::values`, which go in the order of the keys.
#[verifier::external_body]
pub(crate) fn first_value<'a>(object: &'a serde_json::Map<String, serde_json::Value>) -> (r: Option<
    &'a serde_json::Value,
>)
    ensures
        r is None <==> object_of(*object).dom() == Set::<Seq<char>>::empty(),
        r matches Some(value) ==> exists|key: Seq<char>|
            is_first_key(object_of(*object), key) && json_of(*value) == #[trigger] object_of(
                *object,
            )[key],
{
    object.values().next()
}

/// `Value::as_object`: the object, where the value is one.
#[verifier::external_body]
pub(crate) fn as_object<'a>(value: &'a serde_json::Value) -> (r: Option<
    &'a serde_json::Map<String, serde_json::Value>,
>)
    ensures
        r is Some <==> json_of(*value) is Object,
        r matches Some(object) ==> json_of(*value) == Json::Object(object_of(*object)),
{
    value.as_object()
}

/// The object, where the value is a `Value::Object`.
#[verifier::external_body]
pub(crate) fn into_object(value: serde_json::Value) -> (r: Option<
    serde_json::Map<String, serde_json::Value>,
>)
    ensures
        r is Some <==> json_of(value) is Object,
        r matches Some(object) ==> json_of(value) == Json::Object(object_of(object)),
{
    match value {
        serde_json::Value::Object(object) => Some(object),
        _ => None,
    }
}

/// `Value::as_str`: the string, where the value is one.
#[verifier::external_body]
pub(crate) fn as_str<'a>(value: &'a serde_json::Value) -> (r: Option<&'a str>)
    ensures
        r is Some <==> json_of(*value) is Str,
        r matches Some(string) ==> json_of(*value) == Json::Str(string@),
{
    value.as_str()
}

/// `Value::as_u64`: the integer, where the value is a number that is one in range.
#[verifier::external_body]
pub(crate) fn as_u64(value: &serde_json::Value) -> (r: Option<u64>)
    ensures
        r == (match json_of(*value) {
            Json::Number(integer, _) => integer,
            _ => None,
        }),
{
    value.as_u64()
}

/// A `Value::String`.
#[verifier::external_body]
pub(crate) fn string_value(string: String) -> (r: serde_json::Value)
    ensures
        json_of(r) == Json::Str(string@),
{
    serde_json::Value::String(string)
}

/// A `Value::Number`.
#[verifier::external_body]
pub(crate) fn number_value(number: u64) -> (r: serde_json::Value)
    ensures
        json_of(r) == Json::Number(Some(number), text::decimal(number as nat)),
{
    serde_json::Value::Number(number.into())
}

/// A `Value::Object`.
#[verifier::external_body]
pub(crate) fn object_value(object: serde_json::Map<String, serde_json::Value>) -> (r:
    serde_json::Value)
    ensures
        json_of(r) == Json::Object(object_of(object)),
{
    serde_json::Value::Object(object)
}

/// The text that the `Display` of a value gives.
#[verifier::external_body]
pub(crate) fn show(value: &serde_json::Value) -> (r: String)
    ensures
        r@ == shown(json_of(*value)),
{
    value.to_string()
}

/// Writes an object with `serde_json::to_vec`, which does not fail on an object: its keys are
/// strings, and a `Vec` takes whatever is written.
#[verifier::external_body]
pub(crate) fn to_bytes(object: &serde_json::Map<String, serde_json::Value>) -> (r: Vec<u8>)
    ensures
        r@ == serialized(object_of(*object)),
{
    serde_json::to_vec(object).expect("Failed to serialize context to JSON")
}

proof fn lemma_order_is_antisymmetric(a: Seq<char>, b: Seq<char>)
    requires
        in_order(a, b),
        in_order(b, a),
    ensures
        a == b,
    decreases a.len(),
{
    if a.len() > 0 && b.len() > 0 {
        lemma_order_is_antisymmetric(a.drop_first(), b.drop_first());
        assert(a == seq![a[0]] + a.drop_first());
        assert(b == seq![b[0]] + b.drop_first());
    }
}

/// An object has one first key.
pub proof fn lemma_first_key_is_unique(object: Entries, a: Seq<char>, b: Seq<char>)
    requires
        is_first_key(object, a),
        is_first_key(object, b),
    ensures
        a == b,
{
    lemma_order_is_antisymmetric(a, b);
}

/// Strings are in the order of the first character in which they differ; and a string comes before
/// those that begin with it.
pub proof fn law_order_of_strings(
    start: Seq<char>,
    a: char,
    b: char,
    x: Seq<char>,
    y: Seq<char>,
)
    ensures
        in_order(start, start + x),
        x.len() > 0 ==> !in_order(start + x, start),
        a < b ==> in_order(start + seq![a] + x, start + seq![b] + y),
        a < b ==> !in_order(start + seq![b] + y, start + seq![a] + x),
    decreases start.len(),
{
    let one = start + seq![a] + x;
    let other = start + seq![b] + y;
    if start.len() > 0 {
        let rest = start.drop_first();
        law_order_of_strings(rest, a, b, x, y);
        assert((start + x).drop_first() == rest + x);
        assert((start + x)[0] == start[0]);
        assert(one.drop_first() == rest + seq![a] + x);
        assert(other.drop_first() == rest + seq![b] + y);
        assert(one[0] == start[0] && other[0] == start[0]);
    } else {
        assert(start + x == x);
        assert(one[0] == a && other[0] == b);
    }
}

/// The first key of an object is one of its keys, and comes before every other.
pub proof fn law_first_key_comes_first(object: Entries, key: Seq<char>, other: Seq<char>)
    requires
        is_first_key(object, key),
        object.contains_key(other),
        other != key,
    ensures
        object.contains_key(key),
        in_order(key, other),
        !in_order(other, key),
{
    if in_order(other, key) {
        lemma_order_is_antisymmetric(key, other);
    }
}

} // verus!
