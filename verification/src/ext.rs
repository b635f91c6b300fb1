//! Calls into std, `serde_json` and `sha2` whose results the library names or bounds.
use vstd::prelude::*;

verus! {

/// Unicode lower-case mapping of a text (`str::to_lowercase`).
pub uninterp spec fn unicode_lowercase(s: Seq<char>) -> Seq<char>;

/// `str::to_lowercase`: the contract names the result `unicode_lowercase` of the input; a
/// text of ASCII chars only is lower-cased as ASCII, as the std documentation of
/// `char::to_lowercase` gives for those chars.
#[verifier::external_body]
pub(crate) fn to_lowercase(s: &str) -> (r: String)
    ensures
        r@ == unicode_lowercase(s@),
        (forall|i: int| 0 <= i < s@.len() ==> (#[trigger] s@[i] as u32) < 128) ==> r@ == crate::text::ascii_lower(
            s@,
        ),
{
    s.to_lowercase()
}

/// Unicode `Alphabetic` or `Numeric` property of a char (`char::is_alphanumeric`).
pub uninterp spec fn unicode_alphanumeric(c: char) -> bool;

/// `char::is_alphanumeric`: the result is named `unicode_alphanumeric`; for ASCII chars
/// the std documentation's definition reduces to ASCII letters and digits.
#[verifier::external_body]
pub(crate) fn is_alphanumeric(c: char) -> (b: bool)
    ensures
        b == unicode_alphanumeric(c),
        (c as u32) < 128 ==> (b <==> (('a' <= c && c <= 'z') || ('A' <= c && c <= 'Z') || (
        '0' <= c && c <= '9'))),
{
    c.is_alphanumeric()
}

/// The string found in the JSON document `body` at JSON pointer `pointer`, if `body` parses
/// and the pointer leads to a string.
pub uninterp spec fn json_string_at(body: Seq<char>, pointer: Seq<char>) -> Option<Seq<char>>;

/// `serde_json::from_str::<Value>`, `Value::pointer` and `Value::as_str`: the contract names
/// the result `json_string_at` of the two arguments.
#[verifier::external_body]
pub(crate) fn json_string_at_pointer(body: &str, pointer: &str) -> (r: Option<String>)
    ensures
        match r {
            Some(s) => json_string_at(body@, pointer@) == Some(s@),
            None => json_string_at(body@, pointer@) is None,
        },
{
    serde_json::from_str::<serde_json::Value>(body).ok().and_then(
        |v| v.pointer(pointer).and_then(|x| x.as_str()).map(|x| x.to_string()),
    )
}

/// Compact serialisation of the JSON value that `raw` parses to, if it parses. Object keys
/// come out sorted, so equivalent documents give the same text.
pub uninterp spec fn json_reserialized(raw: Seq<char>) -> Option<Seq<char>>;

/// `serde_json::from_str::<Value>` followed by `Value::to_string`: the contract names the
/// result `json_reserialized` of the input.
#[verifier::external_body]
pub(crate) fn json_reserialize(raw: &str) -> (r: Option<String>)
    ensures
        match r {
            Some(s) => json_reserialized(raw@) == Some(s@),
            None => json_reserialized(raw@) is None,
        },
{
    serde_json::from_str::<serde_json::Value>(raw).ok().map(|v| v.to_string())
}

/// Compact JSON text of the object with the single string field `key: value`.
pub open spec fn json_object_with_string(key: Seq<char>, value: Seq<char>) -> Seq<char> {
    "{"@ + json_quoted(key) + ":"@ + json_quoted(value) + "}"@
}

/// `serde_json::Map::insert` into a new map and `Value::to_string`: an object with one member
/// is written as `{`, the quoted key, `:`, the quoted value and `}`.
#[verifier::external_body]
pub(crate) fn json_object_string_field(key: &str, value: &str) -> (r: String)
    ensures
        r@ == json_object_with_string(key@, value@),
{
    let mut map = serde_json::Map::new();
    map.insert(key.to_string(), serde_json::Value::String(value.to_string()));
    serde_json::Value::Object(map).to_string()
}

/// The SHA-256 digest of a byte sequence.
pub uninterp spec fn sha256_digest(data: Seq<u8>) -> Seq<u8>;

/// `sha2::Sha256::digest`: the contract names the result `sha256_digest` of the input; the
/// digest's output size is 32 bytes.
#[verifier::external_body]
pub(crate) fn sha256(data: &[u8]) -> (r: Vec<u8>)
    ensures
        r@ == sha256_digest(data@),
        r@.len() == 32,
{
    <sha2::Sha256 as sha2::Digest>::digest(data).to_vec()
}

/// Text that `String::from_utf8_lossy` makes of a byte sequence.
pub uninterp spec fn utf8_lossy_text(bytes: Seq<u8>) -> Seq<char>;

/// `String::from_utf8_lossy`: the contract names the result `utf8_lossy_text` of the
/// input; the std documentation promises the decoded text itself for valid UTF-8.
#[verifier::external_body]
pub(crate) fn utf8_lossy(bytes: &[u8]) -> (r: String)
    ensures
        r@ == utf8_lossy_text(bytes@),
        vstd::utf8::valid_utf8(bytes@) ==> r@ == vstd::utf8::decode_utf8(bytes@),
{
    String::from_utf8_lossy(bytes).into_owned()
}

/// `String::from_utf8`: the text the bytes encode, or the error's message when they are not
/// UTF-8 (the message itself is left unsaid).
#[verifier::external_body]
pub(crate) fn utf8_string(bytes: Vec<u8>) -> (r: Result<String, String>)
    ensures
        match r {
            Ok(s) => vstd::utf8::valid_utf8(bytes@) && s@ == vstd::utf8::decode_utf8(bytes@),
            Err(_) => !vstd::utf8::valid_utf8(bytes@),
        },
{
    match String::from_utf8(bytes) {
        Ok(s) => Ok(s),
        Err(e) => Err(e.to_string()),
    }
}

/// Whether the JSON document `text` is an object holding `key`; `None` when it is not a JSON
/// object.
pub uninterp spec fn json_object_has_key(text: Seq<char>, key: Seq<char>) -> Option<bool>;

/// `serde_json::from_str::<Value>` and `Map::contains_key`: the contract names the result
/// `json_object_has_key` of the two arguments.
#[verifier::external_body]
pub(crate) fn json_object_key_present(text: &str, key: &str) -> (r: Option<bool>)
    ensures
        r == json_object_has_key(text@, key@),
{
    match serde_json::from_str::<serde_json::Value>(text) {
        Ok(serde_json::Value::Object(map)) => Some(map.contains_key(key)),
        _ => None,
    }
}

/// Compact text of the JSON object `object` with `key` set to the JSON value `value`; `None`
/// when `object` is not a JSON object or `value` is not JSON.
pub uninterp spec fn json_inserted(object: Seq<char>, key: Seq<char>, value: Seq<char>) -> Option<
    Seq<char>,
>;

/// `serde_json::from_str`, `Map::insert` and `Value::to_string`: the contract names the
/// result `json_inserted` of the three arguments.
#[verifier::external_body]
pub(crate) fn json_with_field(object: &str, key: &str, value: &str) -> (r: Option<String>)
    ensures
        match r {
            Some(t) => json_inserted(object@, key@, value@) == Some(t@),
            None => json_inserted(object@, key@, value@) is None,
        },
{
    match (
        serde_json::from_str::<serde_json::Value>(object),
        serde_json::from_str::<serde_json::Value>(value),
    ) {
        (Ok(serde_json::Value::Object(mut map)), Ok(v)) => {
            map.insert(key.to_string(), v);
            Some(serde_json::Value::Object(map).to_string())
        },
        _ => None,
    }
}

/// A lowercase hexadecimal digit.
pub open spec fn lower_hex_digit(v: int) -> char {
    if v < 10 {
        (('0' as int) + v) as char
    } else {
        (('a' as int) + v - 10) as char
    }
}

/// How JSON writes one char inside a string literal: `"` and `\` behind a backslash, the
/// control chars with a short escape where JSON has one and as `\u00XX` otherwise, every
/// other char as it is.
pub open spec fn json_escaped_char(c: char) -> Seq<char> {
    if c == '"' {
        seq!['\\', '"']
    } else if c == '\\' {
        seq!['\\', '\\']
    } else if c == '\u{8}' {
        seq!['\\', 'b']
    } else if c == '\t' {
        seq!['\\', 't']
    } else if c == '\n' {
        seq!['\\', 'n']
    } else if c == '\u{c}' {
        seq!['\\', 'f']
    } else if c == '\r' {
        seq!['\\', 'r']
    } else if (c as u32) < 0x20 {
        seq!['\\', 'u', '0', '0', lower_hex_digit((c as int) / 16), lower_hex_digit((c as int) % 16)]
    } else {
        seq![c]
    }
}

/// The chars of a text as JSON writes them inside a string literal.
pub open spec fn json_escaped(s: Seq<char>) -> Seq<char>
    decreases s.len(),
{
    if s.len() == 0 {
        Seq::empty()
    } else {
        json_escaped(s.drop_last()) + json_escaped_char(s.last())
    }
}

/// JSON string literal of a text: its escaped chars between double quotes.
pub open spec fn json_quoted(s: Seq<char>) -> Seq<char> {
    seq!['"'] + json_escaped(s) + seq!['"']
}

/// `serde_json::to_string` of a `&str`: the string literal `json_quoted` of the input.
#[verifier::external_body]
pub(crate) fn json_string_literal(s: &str) -> (r: String)
    ensures
        r@ == json_quoted(s@),
{
    serde_json::Value::String(s.to_string()).to_string()
}

/// A char an HTTP header name may hold: an ASCII letter or digit, or one of
/// ``!#$%&'*+-.^_`|~``.
pub open spec fn header_name_char(c: char) -> bool {
    ||| ('a' <= c && c <= 'z')
    ||| ('A' <= c && c <= 'Z')
    ||| ('0' <= c && c <= '9')
    ||| c == '!' || c == '#' || c == '$' || c == '%' || c == '&' || c == '\'' || c == '*'
    ||| c == '+' || c == '-' || c == '.' || c == '^' || c == '_' || c == '`' || c == '|' || c == '~'
}

/// Whether a text is a valid HTTP header name: from 1 to 65535 chars, each one a header
/// name char (ASCII case is folded).
pub open spec fn http_header_name_valid(name: Seq<char>) -> bool {
    &&& 1 <= name.len() <= 65535
    &&& forall|i: int| 0 <= i < name.len() ==> header_name_char(#[trigger] name[i])
}

/// `str::parse::<reqwest::header::HeaderName>` (`HeaderName::from_bytes`): it succeeds
/// exactly on the names `http_header_name_valid` describes.
#[verifier::external_body]
pub(crate) fn parses_as_header_name(name: &str) -> (b: bool)
    ensures
        b == http_header_name_valid(name@),
{
    name.parse::<reqwest::header::HeaderName>().is_ok()
}

/// Whether a text is a valid HTTP header value: every byte of its UTF-8 form is a tab or at
/// least 32 and not 127, that is, every char is a tab, a visible ASCII char or space, or a
/// char outside ASCII.
pub open spec fn http_header_value_valid(value: Seq<char>) -> bool {
    forall|i: int| 0 <= i < value.len() ==> value[i] == '\t' || (' ' <= #[trigger] value[i] && value[i] != '\u{7f}')
}

/// `reqwest::header::HeaderValue::from_str` (the `http` crate's, which checks each byte):
/// the contract states when the conversion succeeds, as `http_header_value_valid`.
#[verifier::external_body]
pub(crate) fn parses_as_header_value(value: &str) -> (b: bool)
    ensures
        b == http_header_value_valid(value@),
{
    reqwest::header::HeaderValue::from_str(value).is_ok()
}

/// Unicode `Alphabetic` property of a char (`char::is_alphabetic`).
pub uninterp spec fn unicode_alphabetic(c: char) -> bool;

/// `char::is_alphabetic`: the result is named `unicode_alphabetic`; for ASCII chars the
/// property holds exactly of the ASCII letters.
#[verifier::external_body]
pub(crate) fn is_alphabetic(c: char) -> (b: bool)
    ensures
        b == unicode_alphabetic(c),
        (c as u32) < 128 ==> (b <==> (('a' <= c && c <= 'z') || ('A' <= c && c <= 'Z'))),
{
    c.is_alphabetic()
}

/// Compact JSON text of the member `key` of the JSON object `doc` when that member is itself
/// an object; `None` when `doc` is not a JSON object, lacks `key`, or the member is not an
/// object.
pub uninterp spec fn json_object_member_text(doc: Seq<char>, key: Seq<char>) -> Option<Seq<char>>;

/// `serde_json::from_str::<Value>`, `Map::get` and `Value::to_string`: the contract names the
/// result `json_object_member_text` of the two arguments.
#[verifier::external_body]
pub(crate) fn json_object_member(doc: &str, key: &str) -> (r: Option<String>)
    ensures
        match r {
            Some(t) => json_object_member_text(doc@, key@) == Some(t@),
            None => json_object_member_text(doc@, key@) is None,
        },
{
    match serde_json::from_str::<serde_json::Value>(doc) {
        Ok(serde_json::Value::Object(map)) => match map.get(key) {
            Some(serde_json::Value::Object(member)) => Some(
                serde_json::Value::Object(member.clone()).to_string(),
            ),
            _ => None,
        },
        _ => None,
    }
}


/// Views of optional strings.
pub open spec fn opt_text_views(v: Seq<Option<String>>) -> Seq<Option<Seq<char>>> {
    v.map_values(|o: Option<String>| match o {
        Some(s) => Some(s@),
        None => None,
    })
}

/// For the JSON document `body`: when it parses and its top-level member `field` is an array,
/// the member `key` of each item of that array, in order, where it is a string.
pub uninterp spec fn json_array_item_strings(body: Seq<char>, field: Seq<char>, key: Seq<char>) -> Option<
    Seq<Option<Seq<char>>>,
>;

/// `serde_json::from_str::<Value>`, `Value::get`, `Value::as_array` and, for each item,
/// `Value::get` and `Value::as_str`: the contract names the result `json_array_item_strings`
/// of the three arguments.
#[verifier::external_body]
pub(crate) fn json_array_items_member(body: &str, field: &str, key: &str) -> (r: Option<Vec<Option<String>>>)
    ensures
        match r {
            Some(v) => json_array_item_strings(body@, field@, key@) == Some(opt_text_views(v@)),
            None => json_array_item_strings(body@, field@, key@) is None,
        },
{
    let doc = serde_json::from_str::<serde_json::Value>(body).ok()?;
    let items = doc.get(field)?.as_array()?;
    Some(items.iter().map(|item| item.get(key).and_then(|x| x.as_str()).map(|x| x.to_string())).collect())
}


/// Compact JSON text of the value found in the JSON document `doc` at JSON pointer `pointer`,
/// if `doc` parses and the pointer leads somewhere.
pub uninterp spec fn json_value_text_at(doc: Seq<char>, pointer: Seq<char>) -> Option<Seq<char>>;

/// `serde_json::from_str::<Value>`, `Value::pointer` and `Value::to_string`: the contract
/// names the result `json_value_text_at` of the two arguments.
#[verifier::external_body]
pub(crate) fn json_value_at_pointer(doc: &str, pointer: &str) -> (r: Option<String>)
    ensures
        match r {
            Some(t) => json_value_text_at(doc@, pointer@) == Some(t@),
            None => json_value_text_at(doc@, pointer@) is None,
        },
{
    serde_json::from_str::<serde_json::Value>(doc).ok().and_then(|v| v.pointer(pointer).map(|x| x.to_string()))
}


/// The unsigned integer found in the JSON document `doc` at JSON pointer `pointer`, if `doc`
/// parses and the pointer leads to a number that fits in `u64`.
pub uninterp spec fn json_u64_at(doc: Seq<char>, pointer: Seq<char>) -> Option<u64>;

/// `serde_json::from_str::<Value>`, `Value::pointer` and `Value::as_u64`: the contract names
/// the result `json_u64_at` of the two arguments.
#[verifier::external_body]
pub(crate) fn json_u64_at_pointer(doc: &str, pointer: &str) -> (r: Option<u64>)
    ensures
        r == json_u64_at(doc@, pointer@),
{
    serde_json::from_str::<serde_json::Value>(doc).ok().and_then(|v| v.pointer(pointer).and_then(|x| x.as_u64()))
}

/// For the JSON document `doc`: when it parses, its member `field` is an array and that array
/// has a first item holding `key`, the compact JSON text of that member.
pub uninterp spec fn json_first_item_member_text(doc: Seq<char>, field: Seq<char>, key: Seq<char>) -> Option<
    Seq<char>,
>;

/// `serde_json::from_str::<Value>`, `Value::get`, `Value::as_array`, `slice::first`,
/// `Value::get` and `Value::to_string`: the contract names the result
/// `json_first_item_member_text` of the three arguments.
#[verifier::external_body]
pub(crate) fn json_first_item_member(doc: &str, field: &str, key: &str) -> (r: Option<String>)
    ensures
        match r {
            Some(t) => json_first_item_member_text(doc@, field@, key@) == Some(t@),
            None => json_first_item_member_text(doc@, field@, key@) is None,
        },
{
    let v = serde_json::from_str::<serde_json::Value>(doc).ok()?;
    v.get(field)?.as_array()?.first()?.get(key).map(|x| x.to_string())
}

} // verus!
