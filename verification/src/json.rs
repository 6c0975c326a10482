//! JSON documents as the provider sends them.
//!
//! The text is parsed by `serde_json`. This module holds the parsed document
//! as a tree of its own, so that what is read from a document is stated over
//! plain values.

use vstd::prelude::*;

use crate::digest::{hex_digit, hex_digit_of};
use crate::text::str_eq;

verus! {

/// A JSON document.
#[derive(Debug, PartialEq, Eq)]
pub enum Json {
    Null,
    Bool(bool),
    /// A number, with its value where it is an integer of 64 bits.
    Number(Option<i64>),
    Text(String),
    Array(Vec<Json>),
    /// An object: its members, each with its key.
    Object(Vec<(String, Json)>),
}

/// The value of the first member with the given key.
pub open spec fn lookup(members: Seq<(String, Json)>, key: Seq<char>) -> Option<Json>
    decreases members.len(),
{
    if members.len() == 0 {
        None
    } else if members[0].0@ == key {
        Some(members[0].1)
    } else {
        lookup(members.drop_first(), key)
    }
}

impl Json {
    /// The member of an object with the given key, if this is an object
    /// that has one.
    pub open spec fn member(self, key: Seq<char>) -> Option<Json> {
        match self {
            Json::Object(members) => lookup(members@, key),
            _ => None,
        }
    }

    /// The items of an array, if this is one.
    pub open spec fn items(self) -> Option<Seq<Json>> {
        match self {
            Json::Array(items) => Some(items@),
            _ => None,
        }
    }

    /// The text of a string, if this is one.
    pub open spec fn text(self) -> Option<Seq<char>> {
        match self {
            Json::Text(text) => Some(text@),
            _ => None,
        }
    }

    /// The value of a number, if this is an integer of 64 bits.
    pub open spec fn integer(self) -> Option<i64> {
        match self {
            Json::Number(value) => value,
            _ => None,
        }
    }

    /// The member of an object with the given key.
    pub fn get(&self, key: &str) -> (found: Option<&Json>)
        ensures
            match found {
                Some(value) => self.member(key@) == Some(*value),
                None => self.member(key@) is None,
            },
    {
        match self {
            Json::Object(members) => {
                let mut i: usize = 0;
                assert(members@.skip(0) =~= members@);
                while i < members.len()
                    invariant
                        i <= members.len(),
                        self.member(key@) == lookup(members@, key@),
                        lookup(members@, key@) == lookup(members@.skip(i as int), key@),
                    decreases members.len() - i,
                {
                    proof {
                        assert(members@.skip(i as int)[0] == members@[i as int]);
                        assert(members@.skip(i as int).drop_first() =~= members@.skip(i + 1));
                    }
                    if str_eq(members[i].0.as_str(), key) {
                        return Some(&members[i].1);
                    }
                    i += 1;
                }
                None
            },
            _ => None,
        }
    }

    /// The items of an array.
    pub fn as_array(&self) -> (items: Option<&Vec<Json>>)
        ensures
            match items {
                Some(v) => self.items() == Some(v@),
                None => self.items() is None,
            },
    {
        match self {
            Json::Array(items) => Some(items),
            _ => None,
        }
    }

    /// The text of a string.
    pub fn as_str(&self) -> (text: Option<&str>)
        ensures
            match text {
                Some(s) => self.text() == Some(s@),
                None => self.text() is None,
            },
    {
        match self {
            Json::Text(text) => Some(text.as_str()),
            _ => None,
        }
    }

    /// The value of a number that is an integer of 64 bits.
    pub fn as_i64(&self) -> (value: Option<i64>)
        ensures
            value == self.integer(),
    {
        match self {
            Json::Number(value) => *value,
            _ => None,
        }
    }
}

/// A parsed document of `serde_json`.
#[verifier::external_type_specification]
#[verifier::external_body]
pub struct ExValue(serde_json::Value);

/// What `serde_json::from_str` makes of a text: the parsed document, or
/// nothing where the text is not one JSON document.
pub uninterp spec fn json_value(text: Seq<char>) -> Option<serde_json::Value>;

/// The tree that stands for a parsed document of `serde_json`: variant for
/// variant, a number by `Number::as_i64`, the members of an object in the
/// order in which `serde_json` hands them out.
pub uninterp spec fn json_tree(value: serde_json::Value) -> Json;

/// Calls `serde_json::from_str` for a `serde_json::Value`. Trusted: the
/// result is the document named [`json_value`]; a text that does not parse
/// gives none.
#[verifier::external_body]
fn read_value(text: &str) -> (value: Option<serde_json::Value>)
    ensures
        value == json_value(text@),
{
    match serde_json::from_str::<serde_json::Value>(text) {
        Ok(value) => Some(value),
        Err(_) => None,
    }
}

/// Turns a parsed document of `serde_json` into a [`Json`], one variant for
/// one, by `Number::as_i64` for a number and by the iterators of the array
/// and the map. Trusted: the result is the tree named [`json_tree`].
#[verifier::external_body]
fn tree_of(value: serde_json::Value) -> (tree: Json)
    ensures
        tree == json_tree(value),
{
    match value {
        serde_json::Value::Null => Json::Null,
        serde_json::Value::Bool(b) => Json::Bool(b),
        serde_json::Value::Number(n) => Json::Number(n.as_i64()),
        serde_json::Value::String(s) => Json::Text(s),
        serde_json::Value::Array(items) => Json::Array(items.into_iter().map(tree_of).collect()),
        serde_json::Value::Object(members) => Json::Object(
            members.into_iter().map(|(k, v)| (k, tree_of(v))).collect(),
        ),
    }
}

/// The document that a text holds, if it holds one.
pub open spec fn json_document(text: Seq<char>) -> Option<Json> {
    match json_value(text) {
        Some(value) => Some(json_tree(value)),
        None => None,
    }
}

/// Parses a text as one JSON document.
pub fn parse_json(text: &str) -> (document: Option<Json>)
    ensures
        document == json_document(text@),
{
    match read_value(text) {
        Some(value) => Some(tree_of(value)),
        None => None,
    }
}

/// Whether a character stands for itself inside a JSON string: it is no
/// quote, no backslash and no control character.
pub open spec fn is_plain_char(c: char) -> bool {
    c != '"' && c != '\\' && c as u32 >= 0x20
}

/// One character as a JSON string holds it: a quote and a backslash behind a
/// backslash, a control character as `\u00` and its two hexadecimal digits,
/// any other character as it is.
pub open spec fn escaped_char(c: char) -> Seq<char> {
    if c == '"' {
        seq!['\\', '"']
    } else if c == '\\' {
        seq!['\\', '\\']
    } else if (c as u32) < 0x20 {
        seq!['\\', 'u', '0', '0', hex_digit((c as u32 / 16) as int), hex_digit((c as u32 % 16) as int)]
    } else {
        seq![c]
    }
}

/// A text as the inside of a JSON string, character by character.
pub open spec fn escaped(text: Seq<char>) -> Seq<char>
    decreases text.len(),
{
    if text.len() == 0 {
        Seq::empty()
    } else {
        escaped(text.drop_last()) + escaped_char(text.last())
    }
}

/// A text as a JSON string: between two quotes, with every character that
/// cannot stand for itself escaped.
pub open spec fn json_string(text: Seq<char>) -> Seq<char> {
    seq!['"'] + escaped(text) + seq!['"']
}

/// A text of plain characters is written as it is.
pub proof fn lemma_escaped_plain(text: Seq<char>)
    requires
        forall|i: int| 0 <= i < text.len() ==> is_plain_char(#[trigger] text[i]),
    ensures
        escaped(text) == text,
    decreases text.len(),
{
    if text.len() > 0 {
        lemma_escaped_plain(text.drop_last());
        assert(is_plain_char(text[text.len() - 1]));
        assert(text.drop_last() + seq![text.last()] =~= text);
    }
}

/// A text that holds no quote, no backslash and no control character is, as
/// a JSON string, the text itself between two quotes.
pub proof fn lemma_json_string_of_plain_text(text: Seq<char>)
    requires
        forall|i: int| 0 <= i < text.len() ==> is_plain_char(#[trigger] text[i]),
    ensures
        json_string(text) == seq!['"'] + text + seq!['"'],
{
    lemma_escaped_plain(text);
}

/// Inside a JSON string nothing ends the string or breaks the line: there is
/// no control character, and every quote stands directly behind a backslash.
pub proof fn lemma_escaped_is_closed(text: Seq<char>)
    ensures
        forall|i: int|
            0 <= i < escaped(text).len() ==> (#[trigger] escaped(text)[i]) as u32 >= 0x20,
        forall|i: int|
            0 <= i < escaped(text).len() && #[trigger] escaped(text)[i] == '"' ==> i > 0
                && escaped(text)[i - 1] == '\\',
    decreases text.len(),
{
    if text.len() > 0 {
        let front = escaped(text.drop_last());
        let last = escaped_char(text.last());
        lemma_escaped_is_closed(text.drop_last());
        let c = text.last();
        let high = (c as u32 / 16) as int;
        let low = (c as u32 % 16) as int;
        if (c as u32) < 0x20 {
            assert(0 <= high < 2 && 0 <= low < 16);
            assert(hex_digit(high) as u32 >= 0x30 && hex_digit(low) as u32 >= 0x30);
            assert(hex_digit(high) != '"' && hex_digit(low) != '"');
        }
        assert forall|i: int| 0 <= i < escaped(text).len() implies (#[trigger] escaped(
            text,
        )[i]) as u32 >= 0x20 by {
            if i >= front.len() {
                assert(escaped(text)[i] == last[i - front.len()]);
            } else {
                assert(escaped(text)[i] == front[i]);
            }
        }
        assert forall|i: int|
            0 <= i < escaped(text).len() && #[trigger] escaped(text)[i] == '"' implies i > 0
            && escaped(text)[i - 1] == '\\' by {
            if i >= front.len() {
                assert(escaped(text)[i] == last[i - front.len()]);
                assert(i - front.len() == 1);
                assert(escaped(text)[i - 1] == last[0]);
            } else {
                assert(escaped(text)[i] == front[i]);
                assert(escaped(text)[i - 1] == front[i - 1]);
            }
        }
    }
}

/// Appends one character as a JSON string holds it.
fn push_escaped_char(out: &mut String, c: char)
    ensures
        final(out)@ == old(out)@ + escaped_char(c),
{
    if c == '"' {
        out.push('\\');
        out.push('"');
    } else if c == '\\' {
        out.push('\\');
        out.push('\\');
    } else if (c as u32) < 0x20 {
        let code = c as u32 as u8;
        out.push('\\');
        out.push('u');
        out.push('0');
        out.push('0');
        out.push(hex_digit_of(code / 16));
        out.push(hex_digit_of(code % 16));
    } else {
        out.push(c);
    }
    assert(out@ =~= old(out)@ + escaped_char(c));
}

/// Appends a text as a JSON string.
pub fn push_json_string(out: &mut String, text: &str)
    ensures
        final(out)@ == old(out)@ + json_string(text@),
{
    out.push('"');
    let ghost start = out@;
    let n = text.unicode_len();
    let mut i: usize = 0;
    while i < n
        invariant
            i <= n,
            n == text@.len(),
            out@ == start + escaped(text@.take(i as int)),
        decreases n - i,
    {
        let c = text.get_char(i);
        push_escaped_char(out, c);
        i += 1;
        proof {
            assert(text@.take(i as int).drop_last() =~= text@.take(i - 1));
            assert(text@.take(i as int).last() == c);
            assert(out@ =~= start + escaped(text@.take(i as int)));
        }
    }
    assert(text@.take(n as int) =~= text@);
    out.push('"');
    assert(out@ =~= old(out)@ + json_string(text@));
}

} // verus!
