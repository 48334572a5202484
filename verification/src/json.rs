//! A plain model of JSON values, the lookups that this tool makes in the
//! replies of the chat service, and the quoting of strings (by `serde_json`)
//! that the requests need.
use vstd::prelude::*;

use serde_json::Value;

use crate::text::str_eq;

verus! {

/// A JSON value. Numbers keep their text; an object keeps its members in
/// order (the parser below gives each key once; a value built by hand may
/// repeat one, and lookups then see the first).
#[derive(Debug, PartialEq)]
pub enum Json {
    Null,
    Bool(bool),
    Number(String),
    Str(String),
    Array(Vec<Json>),
    Object(Vec<(String, Json)>),
}

/// The value of the first member named `key`.
pub open spec fn member_value(members: Seq<(String, Json)>, key: Seq<char>) -> Option<Json>
    decreases members.len(),
{
    if members.len() == 0 {
        None
    } else if members[0].0@ == key {
        Some(members[0].1)
    } else {
        member_value(members.drop_first(), key)
    }
}

/// `value.get(key)` of `serde_json`: the member named `key` of an object,
/// nothing for any other value.
pub open spec fn json_get_key(v: Json, key: Seq<char>) -> Option<Json> {
    match v {
        Json::Object(m) => member_value(m@, key),
        _ => None,
    }
}

/// `value.get(i)` of `serde_json`: element `i` of an array, nothing for any
/// other value.
pub open spec fn json_get_index(v: Json, i: int) -> Option<Json> {
    match v {
        Json::Array(a) => if 0 <= i < a@.len() {
            Some(a@[i])
        } else {
            None
        },
        _ => None,
    }
}

/// `value.as_str()` of `serde_json`: the text of a string value.
pub open spec fn json_as_str(v: Json) -> Option<Seq<char>> {
    match v {
        Json::Str(s) => Some(s@),
        _ => None,
    }
}

/// `json_get_key` lifted to an optional value.
pub open spec fn opt_get_key(v: Option<Json>, key: Seq<char>) -> Option<Json> {
    match v {
        Some(x) => json_get_key(x, key),
        None => None,
    }
}

/// `json_as_str` lifted to an optional value.
pub open spec fn opt_as_str(v: Option<Json>) -> Option<Seq<char>> {
    match v {
        Some(x) => json_as_str(x),
        None => None,
    }
}

impl Json {
    /// The member named `key` of an object.
    pub fn get_key(&self, key: &str) -> (r: Option<&Json>)
        ensures
            match r {
                Some(x) => json_get_key(*self, key@) == Some(*x),
                None => json_get_key(*self, key@) is None,
            },
    {
        match self {
            Json::Object(members) => {
                let mut i: usize = 0;
                assert(members@.skip(0) == members@);
                while i < members.len()
                    invariant
                        i <= members@.len(),
                        json_get_key(*self, key@) == member_value(members@, key@),
                        member_value(members@, key@) == member_value(members@.skip(i as int), key@),
                    decreases members@.len() - i,
                {
                    assert(members@.skip(i as int)[0] == members@[i as int]);
                    if str_eq(members[i].0.as_str(), key) {
                        let found = &members[i].1;
                        assert(members@.skip(i as int).len() > 0);
                        assert(member_value(members@.skip(i as int), key@) == Some(*found));
                        return Some(found);
                    }
                    assert(members@.skip(i as int).drop_first() == members@.skip(i + 1));
                    i = i + 1;
                }
                None
            },
            _ => None,
        }
    }

    /// Element `i` of an array.
    pub fn get_index(&self, i: usize) -> (r: Option<&Json>)
        ensures
            match r {
                Some(x) => json_get_index(*self, i as int) == Some(*x),
                None => json_get_index(*self, i as int) is None,
            },
    {
        match self {
            Json::Array(items) => {
                if i < items.len() {
                    Some(&items[i])
                } else {
                    None
                }
            },
            _ => None,
        }
    }

    /// The text of a string value.
    pub fn as_str(&self) -> (r: Option<&String>)
        ensures
            match r {
                Some(s) => json_as_str(*self) == Some(s@),
                None => json_as_str(*self) is None,
            },
    {
        match self {
            Json::Str(s) => Some(s),
            _ => None,
        }
    }
}

/// A hexadecimal digit, in lower case.
pub open spec fn hex_digit(n: u32) -> char {
    if n < 10 {
        (0x30 + n) as char
    } else {
        (0x57 + n) as char
    }
}

/// How `serde_json` writes one character inside a string: `"` and `\` and the
/// control characters below U+0020 escaped (the short forms `\b \t \n \f \r`
/// where JSON has them, `\u00xx` in lower-case hexadecimal otherwise), every
/// other character as it is.
pub open spec fn json_escape_char(c: char) -> Seq<char> {
    let u = c as u32;
    if c == '"' {
        seq!['\\', '"']
    } else if c == '\\' {
        seq!['\\', '\\']
    } else if u == 0x08 {
        seq!['\\', 'b']
    } else if u == 0x09 {
        seq!['\\', 't']
    } else if u == 0x0a {
        seq!['\\', 'n']
    } else if u == 0x0c {
        seq!['\\', 'f']
    } else if u == 0x0d {
        seq!['\\', 'r']
    } else if u < 0x20 {
        seq!['\\', 'u', '0', '0', hex_digit(u / 16), hex_digit(u % 16)]
    } else {
        seq![c]
    }
}

/// The escaped characters of `s`.
pub open spec fn json_escaped(s: Seq<char>) -> Seq<char>
    decreases s.len(),
{
    if s.len() == 0 {
        Seq::empty()
    } else {
        json_escaped(s.drop_last()) + json_escape_char(s.last())
    }
}

/// The JSON text of the string `s`.
pub open spec fn json_quoted(s: Seq<char>) -> Seq<char> {
    seq!['"'] + json_escaped(s) + seq!['"']
}

/// `serde_json::to_string` on a string slice. Its source writes the string
/// between quotes with `format_escaped_str` (the `ESCAPE` table and
/// `write_char_escape`, compact formatter) into a `Vec<u8>`, which never
/// fails; this contract claims that text, as `json_quoted` states it.
#[verifier::external_body]
pub(crate) fn json_string_literal(s: &str) -> (r: String)
    ensures
        r@ == json_quoted(s@),
{
    match serde_json::to_string(s) {
        Ok(t) => t,
        Err(_) => String::new(),
    }
}

/// The `serde_json` value type, opaque to proofs.
#[verifier::external_type_specification]
#[verifier::external_body]
pub struct ExValue(Value);

/// What `serde_json::from_str::<Value>` makes of `text`, in the model above:
/// nothing when the text is not JSON.
pub uninterp spec fn json_parse(text: Seq<char>) -> Option<Json>;

/// A `serde_json` value in the model above, variant for variant (a number as
/// the text that `serde_json` writes for it, an object's members in the order
/// of its map).
#[verifier::external_body]
fn json_of_value(v: Value) -> Json {
    match v {
        Value::Null => Json::Null,
        Value::Bool(b) => Json::Bool(b),
        Value::Number(n) => Json::Number(n.to_string()),
        Value::String(s) => Json::Str(s),
        Value::Array(items) => Json::Array(items.into_iter().map(json_of_value).collect()),
        Value::Object(members) => Json::Object(
            members.into_iter().map(|(k, v)| (k, json_of_value(v))).collect(),
        ),
    }
}

/// `serde_json::from_str::<serde_json::Value>`, its result converted to the
/// model above. The parse is a function of the text alone; the contract names
/// its result.
#[verifier::external_body]
pub fn parse_json(text: &str) -> (r: Option<Json>)
    ensures
        r == json_parse(text@),
{
    match serde_json::from_str::<Value>(text) {
        Ok(v) => Some(json_of_value(v)),
        Err(_) => None,
    }
}

} // verus!
