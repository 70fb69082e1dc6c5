use vstd::prelude::*;

verus! {

// The serde_json document value and error types, declared so that they can
// stand in signatures; their contents stay opaque.
#[verifier::external_type_specification]
#[verifier::external_body]
pub struct ExJsonValue(serde_json::Value);

#[verifier::external_type_specification]
#[verifier::external_body]
pub struct ExJsonError(serde_json::Error);

/// Whether the serde_json crate parses this text as a JSON document.
pub uninterp spec fn json_parses(s: Seq<char>) -> bool;

/// The string value that parsing this text yields at the given key path
/// (navigating nested objects), or None where the path misses or the value
/// there is not a string.
pub uninterp spec fn json_str_at(s: Seq<char>, path: Seq<Seq<char>>) -> Option<Seq<char>>;

/// A fingerprint of the whole value that parsing this text yields at the
/// given key path — nested objects, arrays, numbers, booleans and nulls
/// included — or of its absence. Equal fingerprints stand for value-equal
/// content there.
pub uninterp spec fn json_node_at(s: Seq<char>, path: Seq<Seq<char>>) -> int;

/// The string value a parsed JSON document holds at the given key path.
pub uninterp spec fn jdoc_str_at(v: serde_json::Value, path: Seq<Seq<char>>) -> Option<Seq<char>>;

/// A fingerprint of the whole value a parsed JSON document holds at the
/// given key path, or of its absence.
pub uninterp spec fn jdoc_node_at(v: serde_json::Value, path: Seq<Seq<char>>) -> int;

/// Whether rendering this document succeeds and yields text that reparses to
/// the same contents. It holds of every document the parser produced: the
/// parser enforces a nesting limit the serializer has no trouble with, and
/// every parsed value is of a kind the serializer writes back exactly —
/// numbers included, since the crate is built with its round-trip float
/// parsing, under which a correctly rounded parse and shortest-form printing
/// reproduce each other.
pub uninterp spec fn jdoc_round_trips(v: serde_json::Value) -> bool;

/// Relies on serde_json::from_str, with the round-trip float parsing the
/// crate is built with: parses JSON text into a generic document value,
/// whose contents are exactly what the text holds; a parsed document stays
/// within the parser's nesting limit, so it renders and round-trips.
#[verifier::external_body]
pub(crate) fn parse_json(s: &str) -> (r: Result<serde_json::Value, serde_json::Error>)
    ensures
        r is Ok <==> json_parses(s@),
        r matches Ok(v) ==> jdoc_round_trips(v),
        r matches Ok(v) ==> forall|q: Seq<Seq<char>>| #[trigger] jdoc_str_at(v, q) == json_str_at(
            s@,
            q,
        ),
        r matches Ok(v) ==> forall|q: Seq<Seq<char>>| #[trigger] jdoc_node_at(v, q)
            == json_node_at(s@, q),
{
    serde_json::from_str::<serde_json::Value>(s)
}

/// Relies on serde_json::to_string_pretty: renders a document back to JSON
/// text; for a document within the parser's nesting limit the rendering
/// succeeds and reparses to the same contents.
#[verifier::external_body]
pub(crate) fn json_to_string(v: &serde_json::Value) -> (r: Result<String, serde_json::Error>)
    ensures
        jdoc_round_trips(*v) ==> r is Ok,
        r matches Ok(out) ==> jdoc_round_trips(*v) ==> json_parses(out@),
        r matches Ok(out) ==> jdoc_round_trips(*v) ==> forall|q: Seq<Seq<char>>|
            #[trigger] json_str_at(out@, q) == jdoc_str_at(*v, q),
        r matches Ok(out) ==> jdoc_round_trips(*v) ==> forall|q: Seq<Seq<char>>|
            #[trigger] json_node_at(out@, q) == jdoc_node_at(*v, q),
{
    serde_json::to_string_pretty(v)
}

/// Relies on serde_json::Value::get and Value::as_str: the string value at
/// one top-level key of an object, or None.
#[verifier::external_body]
pub(crate) fn json_get_str(v: &serde_json::Value, key: &str) -> (r: Option<String>)
    ensures
        r is Some <==> jdoc_str_at(*v, seq![key@]) is Some,
        r matches Some(s) ==> jdoc_str_at(*v, seq![key@]) == Some(s@),
{
    match v.get(key) {
        Some(inner) => match inner.as_str() {
            Some(s) => Some(s.to_owned()),
            None => None,
        },
        None => None,
    }
}

/// Relies on serde_json::Value::as_object_mut and Map::insert: sets the
/// entry at one top-level key of an object to the given string, leaving
/// every other path unchanged; fails only where the root is no object.
#[verifier::external_body]
pub(crate) fn json_set_str(v: &mut serde_json::Value, key: &str, s: &str) -> (r: bool)
    ensures
        (exists|k: Seq<char>| (#[trigger] jdoc_str_at(*old(v), seq![k])) is Some) ==> r,
        jdoc_round_trips(*old(v)) ==> jdoc_round_trips(*final(v)),
        r ==> jdoc_str_at(*final(v), seq![key@]) == Some(s@),
        forall|q: Seq<Seq<char>>| !(q.len() >= 1 && q[0] == key@) ==> #[trigger] jdoc_str_at(
            *final(v),
            q,
        ) == jdoc_str_at(*old(v), q),
        forall|q: Seq<Seq<char>>| q.len() >= 1 && q[0] != key@ ==> #[trigger] jdoc_node_at(
            *final(v),
            q,
        ) == jdoc_node_at(*old(v), q),
        forall|q: Seq<Seq<char>>| q.len() >= 2 && q[0] == key@ ==> (#[trigger] jdoc_str_at(
            *final(v),
            q,
        )) is None,
        !r ==> forall|q: Seq<Seq<char>>| #[trigger] jdoc_str_at(*final(v), q) == jdoc_str_at(
            *old(v),
            q,
        ),
        !r ==> forall|q: Seq<Seq<char>>| #[trigger] jdoc_node_at(*final(v), q) == jdoc_node_at(
            *old(v),
            q,
        ),
{
    match v.as_object_mut() {
        Some(map) => {
            map.insert(key.to_owned(), serde_json::Value::String(s.to_owned()));
            true
        },
        None => false,
    }
}

} // verus!
