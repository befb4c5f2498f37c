//! JSON texts, read through `serde_json`. A JSON value is carried through the
//! library as its text; what serde_json makes of a text is named here.
use vstd::prelude::*;

verus! {

/// Whether serde_json accepts `text` as one JSON value.
pub uninterp spec fn json_parses(text: Seq<char>) -> bool;

/// The compact serialization that serde_json writes for the value that it
/// reads from `text`.
pub uninterp spec fn json_compact_text(text: Seq<char>) -> Seq<char>;

/// The compact text of the member `key` of the object that `text` holds; none
/// where `text` is not an object or has no such member.
pub uninterp spec fn json_member_text(text: Seq<char>, key: Seq<char>) -> Option<Seq<char>>;

/// The compact text of the element at `index` of the array that `text`
/// holds; none where `text` is not an array or is shorter.
pub uninterp spec fn json_element_text(text: Seq<char>, index: nat) -> Option<Seq<char>>;

/// The compact texts of the elements of the array that `text` holds, in
/// order; none where `text` is not an array.
pub uninterp spec fn json_elements_text(text: Seq<char>) -> Option<Seq<Seq<char>>>;

/// The contents of the JSON string that `text` holds; none where `text` is
/// not a string.
pub uninterp spec fn json_string_content(text: Seq<char>) -> Option<Seq<char>>;

/// A lowercase hexadecimal digit.
pub open spec fn hex_digit(n: int) -> char {
    seq!['0', '1', '2', '3', '4', '5', '6', '7', '8', '9', 'a', 'b', 'c', 'd', 'e', 'f'][n]
}

/// How serde_json writes one character inside a string literal: `"` and `\`
/// behind a backslash; backspace, tab, line feed, form feed and carriage
/// return as `\b`, `\t`, `\n`, `\f`, `\r`; any other character below
/// U+0020 as `\u00` and two lowercase hex digits; every other character as
/// it is.
pub open spec fn json_escape_char(c: char) -> Seq<char> {
    if c == '"' {
        seq!['\\', '"']
    } else if c == '\\' {
        seq!['\\', '\\']
    } else if c == '\u{8}' {
        seq!['\\', 'b']
    } else if c == '\t' {
        seq!['\\', 't']
    } else if c == '\n' {
        seq!['\\', 'n']
    } else if c == '\u{c}' {
        seq!['\\', 'f']
    } else if c == '\r' {
        seq!['\\', 'r']
    } else if (c as int) < 32 {
        seq!['\\', 'u', '0', '0', hex_digit(c as int / 16), hex_digit(c as int % 16)]
    } else {
        seq![c]
    }
}

/// The characters of `s`, each written as serde_json writes it inside a
/// string literal.
pub open spec fn json_escaped(s: Seq<char>) -> Seq<char>
    decreases s.len(),
{
    if s.len() == 0 {
        seq![]
    } else {
        json_escaped(s.drop_last()) + json_escape_char(s.last())
    }
}

/// The JSON string literal that serde_json writes for `s`: the escaped
/// characters between double quotes.
pub open spec fn json_quoted(s: Seq<char>) -> Seq<char> {
    seq!['"'] + json_escaped(s) + seq!['"']
}

/// The character view of an optional string.
pub open spec fn opt_text(o: Option<String>) -> Option<Seq<char>> {
    match o {
        Some(s) => Some(s@),
        None => None,
    }
}

/// The character views of an optional list of strings.
pub open spec fn opt_texts(o: Option<Vec<String>>) -> Option<Seq<Seq<char>>> {
    match o {
        Some(v) => Some(v@.map_values(|e: String| e@)),
        None => None,
    }
}

/// Calls `serde_json::from_str::<Value>` and reports whether it succeeded.
#[verifier::external_body]
pub(crate) fn json_is_valid(text: &str) -> (ok: bool)
    ensures
        ok == json_parses(text@),
{
    serde_json::from_str::<serde_json::Value>(text).is_ok()
}

/// Calls `serde_json::from_str::<Value>` and writes the value back with its
/// `Display` impl (compact form). Claimed: a result exactly where the text
/// parses, and that result is the named compact text.
#[verifier::external_body]
pub(crate) fn json_compact(text: &str) -> (r: Option<String>)
    ensures
        r is Some <==> json_parses(text@),
        r matches Some(c) ==> c@ == json_compact_text(text@),
{
    match serde_json::from_str::<serde_json::Value>(text) {
        Ok(v) => Some(v.to_string()),
        Err(_) => None,
    }
}

/// Calls `serde_json::from_str::<Value>`, then `Value::get` with a string
/// key, and writes the member back compactly. Claimed: the result is the
/// named member text, and a member is only found in a text that parses.
#[verifier::external_body]
pub(crate) fn json_member(text: &str, key: &str) -> (r: Option<String>)
    ensures
        opt_text(r) == json_member_text(text@, key@),
        r is Some ==> json_parses(text@),
{
    match serde_json::from_str::<serde_json::Value>(text) {
        Ok(v) => match v.get(key) {
            Some(m) => Some(m.to_string()),
            None => None,
        },
        Err(_) => None,
    }
}

/// Calls `serde_json::from_str::<Value>`, then `Value::get` with an array
/// index, and writes the element back compactly. Claimed: the result is the
/// named element text, and an element is only found in a text that parses.
#[verifier::external_body]
pub(crate) fn json_element(text: &str, index: usize) -> (r: Option<String>)
    ensures
        opt_text(r) == json_element_text(text@, index as nat),
        r is Some ==> json_parses(text@),
{
    match serde_json::from_str::<serde_json::Value>(text) {
        Ok(v) => match v.get(index) {
            Some(m) => Some(m.to_string()),
            None => None,
        },
        Err(_) => None,
    }
}

/// Calls `serde_json::from_str::<Value>`, then `Value::as_array`, and writes
/// each element back compactly. Claimed: the result is the named sequence of
/// element texts, and it is only found in a text that parses.
#[verifier::external_body]
pub(crate) fn json_elements(text: &str) -> (r: Option<Vec<String>>)
    ensures
        opt_texts(r) == json_elements_text(text@),
        r is Some ==> json_parses(text@),
{
    match serde_json::from_str::<serde_json::Value>(text) {
        Ok(v) => match v.as_array() {
            Some(items) => Some(items.iter().map(|e| e.to_string()).collect()),
            None => None,
        },
        Err(_) => None,
    }
}

/// Calls `serde_json::from_str::<Value>`, then `Value::as_str`. Claimed: the
/// result is the named string contents, and it is only found in a text that
/// parses.
#[verifier::external_body]
pub(crate) fn json_string(text: &str) -> (r: Option<String>)
    ensures
        opt_text(r) == json_string_content(text@),
        r is Some ==> json_parses(text@),
{
    match serde_json::from_str::<serde_json::Value>(text) {
        Ok(v) => match v.as_str() {
            Some(s) => Some(s.to_string()),
            None => None,
        },
        Err(_) => None,
    }
}

/// Wraps `s` in a `serde_json::Value::String` and writes it with its
/// `Display` impl (compact). Claimed, as serde_json's string writer does it
/// (`format_escaped_str` with its escape table): the result is `json_quoted`.
#[verifier::external_body]
pub(crate) fn json_quote(s: &str) -> (r: String)
    ensures
        r@ == json_quoted(s@),
{
    serde_json::Value::String(s.to_string()).to_string()
}

} // verus!
