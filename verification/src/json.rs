//! JSON texts of string lists, written through `serde_json`.

use vstd::prelude::*;
use crate::text::views;

verus! {

/// A lowercase hexadecimal digit.
pub open spec fn hex_digit(n: int) -> char {
    if n < 10 {
        (48 + n) as char
    } else {
        (87 + n) as char
    }
}

/// How serde_json writes one character inside a string: `"` and `\` and
/// the control characters with a short form are escaped by a backslash,
/// other control characters as `\u00XX` with lowercase digits, and every
/// other character as itself.
pub open spec fn escaped_char(c: char) -> Seq<char> {
    if c == '"' {
        seq!['\\', '"']
    } else if c == '\\' {
        seq!['\\', '\\']
    } else if c == '\u{8}' {
        seq!['\\', 'b']
    } else if c == '\t' {
        seq!['\\', 't']
    } else if c == '\n' {
        seq!['\\', 'n']
    } else if c == '\u{c}' {
        seq!['\\', 'f']
    } else if c == '\r' {
        seq!['\\', 'r']
    } else if (c as int) < 0x20 {
        seq!['\\', 'u', '0', '0', hex_digit((c as int) / 16), hex_digit((c as int) % 16)]
    } else {
        seq![c]
    }
}

/// The characters of a string, each as serde_json writes it.
pub open spec fn escaped_text(s: Seq<char>) -> Seq<char>
    decreases s.len(),
{
    if s.len() == 0 {
        Seq::empty()
    } else {
        escaped_text(s.drop_last()) + escaped_char(s.last())
    }
}

/// A string as a JSON string literal.
pub open spec fn json_string(s: Seq<char>) -> Seq<char> {
    seq!['"'] + escaped_text(s) + seq!['"']
}

/// The string literals of a list, separated by commas.
pub open spec fn json_items(items: Seq<Seq<char>>) -> Seq<char>
    decreases items.len(),
{
    if items.len() == 0 {
        Seq::empty()
    } else if items.len() == 1 {
        json_string(items[0])
    } else {
        json_items(items.drop_last()) + seq![','] + json_string(items.last())
    }
}

/// The compact JSON text that `serde_json::to_string` writes for a list of
/// strings: `[`, the string literals separated by commas, `]`.
pub open spec fn json_string_array(items: Seq<Seq<char>>) -> Seq<char> {
    seq!['['] + json_items(items) + seq![']']
}

/// `serde_json::to_string` of a list of strings. It cannot fail for strings
/// (they have no map keys and their `Serialize` never errs); it writes the
/// compact form, with the escapes of serde_json's string formatter.
#[verifier::external_body]
pub(crate) fn to_json_string_array(items: &[String]) -> (r: Option<String>)
    ensures
        r is Some,
        r.unwrap()@ == json_string_array(views(items@)),
{
    serde_json::to_string(items).ok()
}

/// The JSON text of a list of strings, `[]` where writing it failed.
pub fn json_list_or_empty(items: &[String]) -> (r: String)
    ensures
        r@ == json_string_array(views(items@)),
{
    match to_json_string_array(items) {
        Some(t) => t,
        None => String::from_str("[]"),
    }
}

} // verus!
