use vstd::prelude::*;

verus! {

/// The lower-case hexadecimal digit of `d` (below 16).
pub open spec fn hex_char(d: nat) -> char {
    (if d < 10 {
        48 + d
    } else {
        87 + d
    }) as char
}

/// How a character is written inside a JSON string: quote and backslash
/// are escaped with a backslash, the control characters with their short
/// escape where JSON has one and as `\u00xx` otherwise; every other
/// character stands for itself.
pub open spec fn json_escape(c: char) -> Seq<char> {
    if c == '"' {
        seq!['\\', '"']
    } else if c == '\\' {
        seq!['\\', '\\']
    } else if c == '\u{8}' {
        seq!['\\', 'b']
    } else if c == '\t' {
        seq!['\\', 't']
    } else if c == '\n' {
        seq!['\\', 'n']
    } else if c == '\u{c}' {
        seq!['\\', 'f']
    } else if c == '\r' {
        seq!['\\', 'r']
    } else if (c as u32) < 0x20 {
        seq!['\\', 'u', '0', '0', hex_char((c as u32 / 16) as nat), hex_char((c as u32 % 16) as nat)]
    } else {
        seq![c]
    }
}

/// The escaped characters of `s`.
pub open spec fn json_escaped(s: Seq<char>) -> Seq<char>
    decreases s.len(),
{
    if s.len() == 0 {
        seq![]
    } else {
        json_escaped(s.drop_last()) + json_escape(s.last())
    }
}

/// `s` as a JSON string literal.
pub open spec fn json_quoted(s: Seq<char>) -> Seq<char> {
    seq!['"'] + json_escaped(s) + seq!['"']
}

/// The JSON string literals of `items`, separated by commas.
pub open spec fn json_joined(items: Seq<Seq<char>>) -> Seq<char>
    decreases items.len(),
{
    if items.len() == 0 {
        seq![]
    } else if items.len() == 1 {
        json_quoted(items[0])
    } else {
        json_joined(items.drop_last()) + seq![','] + json_quoted(items.last())
    }
}

/// A list of strings as compact JSON, e.g. `["a","b"]`.
pub open spec fn json_string_list(items: Seq<Seq<char>>) -> Seq<char> {
    seq!['['] + json_joined(items) + seq![']']
}

/// The views of a list of strings.
pub open spec fn string_views(items: Seq<String>) -> Seq<Seq<char>> {
    items.map_values(|s: String| s@)
}

/// Serializes a list of strings as a compact JSON array.
///
/// Trusted: calls `serde_json::to_string` on a `Vec<String>`. The contract
/// claims the compact output of serde_json's serializer: `[`, the strings
/// as literals escaped by its escape table (quote, backslash and the
/// control characters), separated by `,`, then `]`. Serializing strings
/// cannot fail; the empty text stands for the error case.
#[verifier::external_body]
pub(crate) fn to_json_string_list(items: &Vec<String>) -> (text: String)
    ensures
        text@ == json_string_list(string_views(items@)),
{
    serde_json::to_string(items).unwrap_or_default()
}

/// A JSON value. Numbers keep their text and, when they are a
/// non-negative integer that fits, their `u64` value; object members keep
/// the order they are given in.
#[derive(Debug)]
pub enum Json {
    Null,
    Bool(bool),
    Number { text: String, as_u64: Option<u64> },
    Str(String),
    Array(Vec<Json>),
    Object(Vec<(String, Json)>),
}

/// The value of the first member named `key` among `entries[i..]`.
pub open spec fn entry_value(entries: Seq<(String, Json)>, key: Seq<char>, i: nat) -> Option<Json>
    decreases entries.len() - i,
{
    if i >= entries.len() {
        None
    } else if entries[i as int].0@ == key {
        Some(entries[i as int].1)
    } else {
        entry_value(entries, key, i + 1)
    }
}

/// The member `key` of `v`, when `v` is an object that has one.
pub open spec fn member_of(v: Json, key: Seq<char>) -> Option<Json> {
    match v {
        Json::Object(entries) => entry_value(entries@, key, 0),
        _ => None,
    }
}

/// The member `key` of `v`, when it is a string.
pub open spec fn text_of(v: Json, key: Seq<char>) -> Option<Seq<char>> {
    match member_of(v, key) {
        Some(Json::Str(s)) => Some(s@),
        _ => None,
    }
}

/// The member `key` of `v`, when it is a boolean.
pub open spec fn flag_of(v: Json, key: Seq<char>) -> Option<bool> {
    match member_of(v, key) {
        Some(Json::Bool(b)) => Some(b),
        _ => None,
    }
}

/// The member `key` of `v`, when it is a number that fits a `u64`.
pub open spec fn count_of(v: Json, key: Seq<char>) -> Option<u64> {
    match member_of(v, key) {
        Some(Json::Number { as_u64, .. }) => as_u64,
        _ => None,
    }
}

/// The member `key` of `v`.
pub fn get_member<'a>(v: &'a Json, key: &str) -> (r: Option<&'a Json>)
    ensures
        match r {
            Some(m) => member_of(*v, key@) == Some(*m),
            None => member_of(*v, key@) is None,
        },
{
    match v {
        Json::Object(entries) => {
            let k = String::from_str(key);
            let mut i: usize = 0;
            while i < entries.len()
                invariant
                    i <= entries@.len(),
                    k@ == key@,
                    member_of(*v, key@) == entry_value(entries@, key@, i as nat),
                decreases entries@.len() - i,
            {
                let entry = &entries[i];
                if entry.0 == k {
                    assert(entry_value(entries@, key@, i as nat) == Some(entry.1));
                    return Some(&entry.1);
                }
                i = i + 1;
            }
            None
        },
        _ => None,
    }
}

/// The member `key` of `v`, when it is a string.
pub fn get_text(v: &Json, key: &str) -> (r: Option<String>)
    ensures
        match r {
            Some(s) => text_of(*v, key@) == Some(s@),
            None => text_of(*v, key@) is None,
        },
{
    match get_member(v, key) {
        Some(m) => match m {
            Json::Str(s) => Some(s.clone()),
            _ => None,
        },
        None => None,
    }
}

/// The member `key` of `v`, when it is a boolean.
pub fn get_flag(v: &Json, key: &str) -> (r: Option<bool>)
    ensures
        r == flag_of(*v, key@),
{
    match get_member(v, key) {
        Some(m) => match m {
            Json::Bool(b) => Some(*b),
            _ => None,
        },
        None => None,
    }
}

/// The member `key` of `v`, when it is a number that fits a `u64`.
pub fn get_count(v: &Json, key: &str) -> (r: Option<u64>)
    ensures
        r == count_of(*v, key@),
{
    match get_member(v, key) {
        Some(m) => match m {
            Json::Number { as_u64, .. } => *as_u64,
            _ => None,
        },
        None => None,
    }
}

} // verus!
