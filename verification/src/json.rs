//! The few serde_json operations the cipher rules rely on, each stated over
//! the compact text that serde_json prints for a value.
use vstd::prelude::*;
use serde_json::Value;
use crate::attachment::hex_digit;

verus! {

/// `serde_json::Value`, carried through the rules without Verus looking inside.
#[verifier::external_type_specification]
#[verifier::external_body]
pub struct ExJsonValue(serde_json::Value);

/// What a JSON value holds, written as the compact text serde_json prints
/// for it (its `Display` output). The printed text determines the value.
pub uninterp spec fn json_text(v: serde_json::Value) -> Seq<char>;

/// How serde_json writes one character inside a JSON string: `"` and `\`
/// behind a backslash, the short escapes for backspace, tab, line feed,
/// form feed and carriage return, any other character below U+0020 as
/// `\u00` and two lowercase hex digits, and every other character as is.
pub open spec fn json_escape_char(c: char) -> Seq<char> {
    if c == '"' {
        seq!['\\', '"']
    } else if c == '\\' {
        seq!['\\', '\\']
    } else if c == '\u{8}' {
        seq!['\\', 'b']
    } else if c == '\t' {
        seq!['\\', 't']
    } else if c == '\n' {
        seq!['\\', 'n']
    } else if c == '\u{c}' {
        seq!['\\', 'f']
    } else if c == '\r' {
        seq!['\\', 'r']
    } else if (c as int) < 0x20 {
        seq!['\\', 'u', '0', '0', hex_digit(c as int / 16), hex_digit(c as int % 16)]
    } else {
        seq![c]
    }
}

/// The characters of `s`, each written as `json_escape_char` writes it.
pub open spec fn json_escape(s: Seq<char>) -> Seq<char>
    decreases s.len(),
{
    if s.len() == 0 {
        Seq::empty()
    } else {
        json_escape(s.drop_last()) + json_escape_char(s.last())
    }
}

/// The compact text serde_json prints for a JSON string holding `s`: the
/// escaped characters between double quotes.
pub open spec fn json_quoted(s: Seq<char>) -> Seq<char> {
    seq!['"'] + json_escape(s) + seq!['"']
}

/// The text of the member `key` of the value printed as `t`: `None` unless
/// that value is an object holding such a member.
pub uninterp spec fn json_member(t: Seq<char>, key: Seq<char>) -> Option<Seq<char>>;

/// The texts of the items of the array printed as `t`, in order.
pub uninterp spec fn json_array_items(t: Seq<char>) -> Seq<Seq<char>>;

/// The text of an array: it opens with `[`.
pub open spec fn is_array_text(t: Seq<char>) -> bool {
    t.len() > 0 && t[0] == '['
}

/// The text of a string: it opens with a double quote.
pub open spec fn is_string_text(t: Seq<char>) -> bool {
    t.len() > 0 && t[0] == '"'
}

/// The compact text of the object got from the value printed as `obj`
/// by setting its member `key` to the value printed as `member`
/// (a `null` value first turns into an empty object).
pub uninterp spec fn json_with_member(obj: Seq<char>, key: Seq<char>, member: Seq<char>) -> Seq<char>;

/// The text of JSON `null`.
pub open spec fn json_null_text() -> Seq<char> {
    "null"@
}

/// The text of an object or of `null`: the two kinds of value that
/// serde_json lets a member be set on.
pub open spec fn is_object_or_null_text(t: Seq<char>) -> bool {
    t == json_null_text() || (t.len() > 0 && t[0] == '{')
}

/// The printed text of an optional value, `null` when absent.
pub open spec fn opt_json_text(o: Option<serde_json::Value>) -> Seq<char> {
    match o {
        Some(v) => json_text(v),
        None => json_null_text(),
    }
}

/// The printed text of an optional value, kept optional.
pub open spec fn opt_json_view(o: Option<serde_json::Value>) -> Option<Seq<char>> {
    match o {
        Some(v) => Some(json_text(v)),
        None => None,
    }
}

/// Prints a value as compact JSON through `<Value as Display>` (`to_string`).
/// Claimed: the result is the value's printed text.
#[verifier::external_body]
pub(crate) fn json_to_text(v: &Value) -> (s: String)
    ensures
        s@ == json_text(*v),
{
    v.to_string()
}

/// Builds the variant `Value::String(s)`.
/// Claimed: it prints as the quoted form of `s`.
#[verifier::external_body]
pub(crate) fn json_from_string(s: String) -> (v: Value)
    ensures
        json_text(v) == json_quoted(s@),
{
    Value::String(s)
}

/// Builds the variant `Value::Null`.
/// Claimed: it prints as `null`.
#[verifier::external_body]
pub(crate) fn json_null() -> (v: Value)
    ensures
        json_text(v) == json_null_text(),
{
    Value::Null
}

/// `<Value as Clone>::clone`.
/// Claimed: the copy prints as the value copied does.
#[verifier::external_body]
pub(crate) fn json_clone(v: &Value) -> (c: Value)
    ensures
        json_text(c) == json_text(*v),
{
    v.clone()
}

/// `obj[key] = member` through `<Value as IndexMut<&str>>::index_mut`, which
/// turns `null` into an empty object, inserts or replaces the member of an
/// object, and panics on any other kind of value (left out by `requires`).
/// Claimed: the new text is the old object with that member set, and it is
/// an object's text.
#[verifier::external_body]
pub(crate) fn json_set_member(obj: &mut Value, key: &str, member: Value)
    requires
        is_object_or_null_text(json_text(*old(obj))),
    ensures
        json_text(*final(obj)) == json_with_member(json_text(*old(obj)), key@, json_text(member)),
        json_text(*final(obj)).len() > 0 && json_text(*final(obj))[0] == '{',
{
    obj[key] = member;
}

/// Tells `Value::Object` and `Value::Null` apart from the other variants.
/// Claimed: exactly those two print as an object's text or as `null`.
#[verifier::external_body]
pub(crate) fn json_is_object_or_null(v: &Value) -> (b: bool)
    ensures
        b == is_object_or_null_text(json_text(*v)),
{
    match v {
        Value::Object(_) => true,
        Value::Null => true,
        _ => false,
    }
}

/// `Value::get` with a string key: the member of that name when the value
/// is an object holding one, else `None`.
/// Claimed: the result is the member that `json_member` names, by its text.
#[verifier::external_body]
pub(crate) fn json_get<'a>(v: &'a Value, key: &str) -> (r: Option<&'a Value>)
    ensures
        match r {
            Some(m) => json_member(json_text(*v), key@) == Some(json_text(*m)),
            None => json_member(json_text(*v), key@) is None,
        },
{
    v.get(key)
}

/// `Value::as_array`: the items when the value is an array, else `None`.
/// Claimed: it answers `Some` exactly for a value printed as an array, and
/// then gives the items that `json_array_items` names, by their texts.
#[verifier::external_body]
pub(crate) fn json_as_array(v: &Value) -> (r: Option<&Vec<Value>>)
    ensures
        r is Some <==> is_array_text(json_text(*v)),
        r matches Some(items) ==> items@.len() == json_array_items(json_text(*v)).len()
            && forall|i: int| 0 <= i < items@.len() ==> json_text(#[trigger] items@[i]) == json_array_items(json_text(*v))[i],
{
    v.as_array()
}

/// `Value::as_str`: the string held when the value is a string, else `None`.
/// Claimed: it answers `Some` exactly for a value printed as a string, and
/// the value then prints as the quoted form of what it gives.
#[verifier::external_body]
pub(crate) fn json_as_str(v: &Value) -> (r: Option<&str>)
    ensures
        r is Some <==> is_string_text(json_text(*v)),
        r matches Some(s) ==> json_text(*v) == json_quoted(s@),
{
    v.as_str()
}

} // verus!
