//! JSON documents as trees of plain values, read from text by `serde_json`.

use vstd::prelude::*;
use vstd::utf8::{encode_utf8, encode_utf8_decode_utf8};

verus! {

/// A JSON value.
#[derive(Debug, PartialEq, Eq)]
pub enum Json {
    Null,
    Bool(bool),
    /// A number, held as the bit pattern of the double-precision value it
    /// reads as; `None` where `serde_json` gives it no such value.
    Number(Option<u64>),
    Text(String),
    List(Vec<Json>),
    /// The members of an object. In a parsed document each key stands once,
    /// and the members in the order `serde_json` hands them out.
    Object(Vec<(String, Json)>),
}

/// `serde_json::Value`, carried unopened from the parser to [`tree_from_value`].
#[verifier::external_type_specification]
#[verifier::external_body]
pub struct ExValue(serde_json::Value);

/// `serde_json::Error`, carried unopened from the parser to [`message_from_error`].
#[verifier::external_type_specification]
#[verifier::external_body]
pub struct ExError(serde_json::Error);

/// What `serde_json::from_str` makes of a text when asked for a `serde_json::Value`.
pub uninterp spec fn read_value(text: Seq<char>) -> Result<serde_json::Value, serde_json::Error>;

/// The tree that a `serde_json::Value` holds.
pub uninterp spec fn value_tree(value: serde_json::Value) -> Json;

/// The message that a `serde_json::Error` displays.
pub uninterp spec fn error_message(error: serde_json::Error) -> Seq<char>;

/// JSON's insignificant whitespace: space, tab, line feed, carriage return.
pub open spec fn is_json_whitespace(c: char) -> bool {
    c == ' ' || c == '\t' || c == '\n' || c == '\r'
}

/// A text with nothing in it but JSON whitespace; the empty text is blank.
pub open spec fn is_blank(text: Seq<char>) -> bool {
    forall|i: int| 0 <= i < text.len() ==> is_json_whitespace(#[trigger] text[i])
}

/// The document that a text holds, or the message of the syntax error in it.
pub open spec fn document_of(text: Seq<char>) -> Result<Json, Seq<char>> {
    match read_value(text) {
        Ok(value) => Ok(value_tree(value)),
        Err(error) => Err(error_message(error)),
    }
}

/// Calls `serde_json::from_str` for a `serde_json::Value`. Believed of it,
/// not proved: the result is a function of the text alone, and a text of
/// nothing but whitespace, which holds no value, is an error.
#[verifier::external_body]
fn value_from_text(text: &str) -> (r: Result<serde_json::Value, serde_json::Error>)
    ensures
        r == read_value(text@),
        is_blank(text@) ==> r is Err,
{
    serde_json::from_str::<serde_json::Value>(text)
}

/// Moves a `serde_json::Value` into a tree, variant by variant; a number goes
/// through `serde_json::Number::as_f64`, an object's members through the
/// iterator of `serde_json::Map`. Believed of it, not proved: the tree is a
/// function of the value.
#[verifier::external_body]
fn tree_from_value(value: serde_json::Value) -> (r: Json)
    ensures
        r == value_tree(value),
{
    match value {
        serde_json::Value::Null => Json::Null,
        serde_json::Value::Bool(b) => Json::Bool(b),
        serde_json::Value::Number(n) => Json::Number(n.as_f64().map(|x| x.to_bits())),
        serde_json::Value::String(s) => Json::Text(s),
        serde_json::Value::Array(items) => Json::List(
            items.into_iter().map(tree_from_value).collect(),
        ),
        serde_json::Value::Object(members) => Json::Object(
            members.into_iter().map(|(key, item)| (key, tree_from_value(item))).collect(),
        ),
    }
}

/// Renders a `serde_json::Error` through its `Display` impl. Believed of it,
/// not proved: the message is a function of the error.
#[verifier::external_body]
fn message_from_error(error: &serde_json::Error) -> (r: String)
    ensures
        r@ == error_message(*error),
{
    error.to_string()
}

/// Reads one JSON document from `text`.
pub fn parse_document(text: &str) -> (r: Result<Json, String>)
    ensures
        match document_of(text@) {
            Ok(document) => r == Ok::<Json, String>(document),
            Err(message) => r matches Err(m) && m@ == message,
        },
        is_blank(text@) ==> r is Err,
{
    match value_from_text(text) {
        Ok(value) => Ok(tree_from_value(value)),
        Err(error) => Err(message_from_error(&error)),
    }
}

/// The value of the first member of `members` whose key is `key`.
pub open spec fn find_member(members: Seq<(String, Json)>, key: Seq<char>) -> Option<Json>
    decreases members.len(),
{
    if members.len() == 0 {
        None
    } else if members[0].0@ == key {
        Some(members[0].1)
    } else {
        find_member(members.drop_first(), key)
    }
}

/// Whether two texts are the same, decided on their UTF-8 bytes.
pub fn same_text(first: &str, second: &str) -> (r: bool)
    ensures
        r == (first@ == second@),
{
    let one = first.as_bytes();
    let other = second.as_bytes();
    proof {
        encode_utf8_decode_utf8(first@);
        encode_utf8_decode_utf8(second@);
    }
    if one.len() != other.len() {
        return false;
    }
    let mut i: usize = 0;
    while i < one.len()
        invariant
            i <= one.len(),
            one.len() == other.len(),
            one@ == encode_utf8(first@),
            other@ == encode_utf8(second@),
            forall|k: int| 0 <= k < i ==> one@[k] == other@[k],
        decreases one.len() - i,
    {
        if one[i] != other[i] {
            return false;
        }
        i += 1;
    }
    assert(one@ =~= other@);
    true
}

/// Looks a key up among the members of an object.
pub fn member<'a>(members: &'a Vec<(String, Json)>, key: &str) -> (r: Option<&'a Json>)
    ensures
        match find_member(members@, key@) {
            Some(value) => r matches Some(found) && *found == value,
            None => r is None,
        },
{
    let mut i: usize = 0;
    assert(members@.skip(0) =~= members@);
    while i < members.len()
        invariant
            i <= members.len(),
            find_member(members@, key@) == find_member(members@.skip(i as int), key@),
        decreases members.len() - i,
    {
        if same_text(members[i].0.as_str(), key) {
            return Some(&members[i].1);
        }
        assert(members@.skip(i as int).drop_first() =~= members@.skip(i + 1));
        i += 1;
    }
    None
}

} // verus!
