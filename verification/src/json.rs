//! The JSON that fingerprints are taken of.

use vstd::prelude::*;
use vstd::string::*;

use crate::digest::hex_digit;
use crate::format::{joined, texts};

verus! {

/// A character inside a JSON string: quotes, backslashes and control characters
/// are escaped.
pub open spec fn json_char(c: char) -> Seq<char> {
    if c == '"' {
        seq!['\\', '"']
    } else if c == '\\' {
        seq!['\\', '\\']
    } else if c == '\n' {
        seq!['\\', 'n']
    } else if c == '\r' {
        seq!['\\', 'r']
    } else if c == '\t' {
        seq!['\\', 't']
    } else if c as int == 8 {
        seq!['\\', 'b']
    } else if c as int == 12 {
        seq!['\\', 'f']
    } else if (c as int) < 32 {
        seq!['\\', 'u', '0', '0', hex_digit(c as int / 16), hex_digit(c as int % 16)]
    } else {
        seq![c]
    }
}

/// The characters of a text inside a JSON string.
pub open spec fn json_chars(text: Seq<char>) -> Seq<char>
    decreases text.len(),
{
    if text.len() == 0 {
        text
    } else {
        json_chars(text.drop_last()) + json_char(text.last())
    }
}

/// A text as a JSON string.
pub open spec fn json_string(text: Seq<char>) -> Seq<char> {
    seq!['"'] + json_chars(text) + seq!['"']
}

/// Calls `serde_json::to_string` on a string slice, which never fails. The text
/// stands between quotes; quotes, backslashes and control characters are escaped.
#[verifier::external_body]
pub(crate) fn json_string_text(text: &str) -> (json: String)
    ensures
        json@ == json_string(text@),
{
    serde_json::to_string(text).expect("a string serializes")
}

/// The texts as JSON strings.
pub open spec fn json_strings(list: Seq<Seq<char>>) -> Seq<Seq<char>> {
    list.map_values(|s: Seq<char>| json_string(s))
}

/// A list of texts as a JSON array.
pub open spec fn json_list(list: Seq<Seq<char>>) -> Seq<char> {
    "["@ + joined(json_strings(list), ","@) + "]"@
}

/// A list of texts as a JSON array.
pub fn json_list_text(list: &Vec<String>) -> (json: String)
    ensures
        json@ == json_list(texts(list@)),
{
    let mut parts: Vec<String> = Vec::new();
    let mut k: usize = 0;
    while k < list.len()
        invariant
            k <= list@.len(),
            parts@.len() == k,
            forall|n: int| 0 <= n < k ==> (#[trigger] parts@[n])@ == json_string(list@[n]@),
        decreases list@.len() - k,
    {
        parts.push(json_string_text(list[k].as_str()));
        k = k + 1;
    }
    assert(texts(parts@) =~= json_strings(texts(list@)));
    let mut json = "[".to_owned();
    let body = crate::format::join(&parts, ",");
    json.append(body.as_str());
    json.append("]");
    json
}

} // verus!
