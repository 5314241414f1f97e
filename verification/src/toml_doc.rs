//! TOML documents, parsed by the `toml` crate.
//!
//! A [`TomlNode`] remembers the document text it came from and the member
//! keys that lead to it; the names below say what the `toml` crate finds there.

use vstd::prelude::*;

verus! {

#[verifier::external_type_specification]
#[verifier::external_body]
pub struct ExTomlValue(toml::Value);

#[verifier::external_type_specification]
#[verifier::external_body]
pub struct ExTomlError(toml::de::Error);

/// Whether the `toml` crate reads `text` as a TOML document.
pub uninterp spec fn toml_parses(text: Seq<char>) -> bool;

/// Whether the value reached from the document `text` by the member keys
/// `path` is a table with a key `key`.
pub uninterp spec fn toml_has_member(text: Seq<char>, path: Seq<Seq<char>>, key: Seq<char>) -> bool;

/// The string at `path` in the document `text`, if the value there is a
/// string.
pub uninterp spec fn toml_str_at(text: Seq<char>, path: Seq<Seq<char>>) -> Option<Seq<char>>;

/// The boolean at `path` in the document `text`, if the value there is a
/// boolean.
pub uninterp spec fn toml_bool_at(text: Seq<char>, path: Seq<Seq<char>>) -> Option<bool>;

/// A parsed TOML document.
pub struct TomlDocument {
    value: toml::Value,
    text: Ghost<Seq<char>>,
}

/// A value inside a parsed TOML document.
pub struct TomlNode<'a> {
    value: &'a toml::Value,
    text: Ghost<Seq<char>>,
    path: Ghost<Seq<Seq<char>>>,
}

/// Parses `contents` as a TOML document.
///
/// Trusted: calls `toml::from_str::<toml::Value>`.
#[verifier::external_body]
fn parse_value(contents: &str) -> (r: Result<toml::Value, toml::de::Error>)
    ensures
        r is Ok <==> toml_parses(contents@),
{
    toml::from_str(contents)
}

impl TomlDocument {
    /// The document text.
    pub closed spec fn text(&self) -> Seq<char> {
        self.text@
    }

    /// Parses `contents`; `None` when it is not TOML.
    pub fn parse(contents: &str) -> (r: Option<TomlDocument>)
        ensures
            r is Some <==> toml_parses(contents@),
            r matches Some(d) ==> d.text() == contents@,
    {
        match parse_value(contents) {
            Ok(value) => Some(TomlDocument { value, text: Ghost(contents@) }),
            Err(_) => None,
        }
    }

    /// The top-level value.
    pub fn root(&self) -> (n: TomlNode<'_>)
        ensures
            n.text() == self.text(),
            n.path() == Seq::<Seq<char>>::empty(),
    {
        TomlNode { value: &self.value, text: Ghost(self.text@), path: Ghost(Seq::empty()) }
    }
}

impl<'a> TomlNode<'a> {
    pub closed spec fn text(&self) -> Seq<char> {
        self.text@
    }

    pub closed spec fn path(&self) -> Seq<Seq<char>> {
        self.path@
    }
}

/// The member `key` of a table.
///
/// Trusted: calls `toml::Value::get` with a string key, which finds the
/// member of a table and gives `None` for any other value.
#[verifier::external_body]
pub(crate) fn member<'a>(node: &TomlNode<'a>, key: &str) -> (r: Option<TomlNode<'a>>)
    ensures
        r is Some <==> toml_has_member(node.text(), node.path(), key@),
        r matches Some(child) ==> child.text() == node.text() && child.path() == node.path().push(
            key@,
        ),
{
    match node.value.get(key) {
        Some(child) => Some(
            TomlNode { value: child, text: Ghost(node.text@), path: Ghost(node.path@.push(key@)) },
        ),
        None => None,
    }
}

/// The string a value holds.
///
/// Trusted: calls `toml::Value::as_str`.
#[verifier::external_body]
pub(crate) fn string_value(node: &TomlNode) -> (r: Option<String>)
    ensures
        match r {
            Some(s) => toml_str_at(node.text(), node.path()) == Some(s@),
            None => toml_str_at(node.text(), node.path()) is None,
        },
{
    node.value.as_str().map(|s| s.to_owned())
}

/// The boolean a value holds.
///
/// Trusted: calls `toml::Value::as_bool`.
#[verifier::external_body]
pub(crate) fn bool_value(node: &TomlNode) -> (r: Option<bool>)
    ensures
        r == toml_bool_at(node.text(), node.path()),
{
    node.value.as_bool()
}

} // verus!
