//! JSON documents, parsed by `serde_json`.
//!
//! A [`JsonNode`] remembers the document text it came from and the member
//! keys that lead to it; the names below say what `serde_json` finds there.

use vstd::prelude::*;

verus! {

#[verifier::external_type_specification]
#[verifier::external_body]
pub struct ExJsonValue(serde_json::Value);

#[verifier::external_type_specification]
#[verifier::external_body]
pub struct ExJsonError(serde_json::Error);

/// Whether `serde_json` reads `text` as a JSON value.
pub uninterp spec fn json_parses(text: Seq<char>) -> bool;

/// Whether the value reached from the document `text` by the member keys
/// `path` is an object with a member `key`.
pub uninterp spec fn json_has_member(text: Seq<char>, path: Seq<Seq<char>>, key: Seq<char>) -> bool;

/// The string at `path` in the document `text`, if the value there is a
/// string.
pub uninterp spec fn json_str_at(text: Seq<char>, path: Seq<Seq<char>>) -> Option<Seq<char>>;

/// The boolean at `path` in the document `text`, if the value there is a
/// boolean.
pub uninterp spec fn json_bool_at(text: Seq<char>, path: Seq<Seq<char>>) -> Option<bool>;

/// A parsed JSON document.
pub struct JsonDocument {
    value: serde_json::Value,
    text: Ghost<Seq<char>>,
}

/// A value inside a parsed JSON document.
pub struct JsonNode<'a> {
    value: &'a serde_json::Value,
    text: Ghost<Seq<char>>,
    path: Ghost<Seq<Seq<char>>>,
}

/// Parses `contents` as JSON.
///
/// Trusted: calls `serde_json::from_str::<serde_json::Value>`.
#[verifier::external_body]
fn parse_value(contents: &str) -> (r: Result<serde_json::Value, serde_json::Error>)
    ensures
        r is Ok <==> json_parses(contents@),
{
    serde_json::from_str(contents)
}

impl JsonDocument {
    /// The document text.
    pub closed spec fn text(&self) -> Seq<char> {
        self.text@
    }

    /// Parses `contents`; `None` when it is not JSON.
    pub fn parse(contents: &str) -> (r: Option<JsonDocument>)
        ensures
            r is Some <==> json_parses(contents@),
            r matches Some(d) ==> d.text() == contents@,
    {
        match parse_value(contents) {
            Ok(value) => Some(JsonDocument { value, text: Ghost(contents@) }),
            Err(_) => None,
        }
    }

    /// The top-level value.
    pub fn root(&self) -> (n: JsonNode<'_>)
        ensures
            n.text() == self.text(),
            n.path() == Seq::<Seq<char>>::empty(),
    {
        JsonNode { value: &self.value, text: Ghost(self.text@), path: Ghost(Seq::empty()) }
    }
}

impl<'a> JsonNode<'a> {
    pub closed spec fn text(&self) -> Seq<char> {
        self.text@
    }

    pub closed spec fn path(&self) -> Seq<Seq<char>> {
        self.path@
    }
}

/// The member `key` of an object.
///
/// Trusted: calls `serde_json::Value::get` with a string key, which finds the
/// member of an object and gives `None` for any other value.
#[verifier::external_body]
pub(crate) fn member<'a>(node: &JsonNode<'a>, key: &str) -> (r: Option<JsonNode<'a>>)
    ensures
        r is Some <==> json_has_member(node.text(), node.path(), key@),
        r matches Some(child) ==> child.text() == node.text() && child.path() == node.path().push(
            key@,
        ),
{
    match node.value.get(key) {
        Some(child) => Some(
            JsonNode { value: child, text: Ghost(node.text@), path: Ghost(node.path@.push(key@)) },
        ),
        None => None,
    }
}

/// The string a value holds.
///
/// Trusted: calls `serde_json::Value::as_str`.
#[verifier::external_body]
pub(crate) fn string_value(node: &JsonNode) -> (r: Option<String>)
    ensures
        match r {
            Some(s) => json_str_at(node.text(), node.path()) == Some(s@),
            None => json_str_at(node.text(), node.path()) is None,
        },
{
    node.value.as_str().map(|s| s.to_owned())
}

/// The boolean a value holds.
///
/// Trusted: calls `serde_json::Value::as_bool`.
#[verifier::external_body]
pub(crate) fn bool_value(node: &JsonNode) -> (r: Option<bool>)
    ensures
        r == json_bool_at(node.text(), node.path()),
{
    node.value.as_bool()
}

} // verus!
