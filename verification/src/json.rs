//! JSON objects as lists of members, each with the compact JSON text of its
//! value.
//!
//! `serde_json` takes an object apart and reads and writes strings; numbers
//! and booleans are read from their compact text here, and an object is
//! written by framing its members between braces.

use crate::scalar::{int_of, milli_of, read_int, read_milli};
use vstd::prelude::*;
use vstd::utf8::encode_utf8;

verus! {

/// The members of the JSON object that `bytes` spell, each with the compact
/// JSON text of its value, or `None` where `bytes` are not a JSON object.
pub uninterp spec fn json_members(bytes: Seq<u8>) -> Option<Seq<(Seq<char>, Seq<char>)>>;

/// The integer that a compact JSON text spells, if it spells one that fits
/// 64 bits.
pub open spec fn json_int(raw: Seq<char>) -> Option<i64> {
    int_of(encode_utf8(raw))
}

/// The boolean that a compact JSON text spells, if it spells one.
pub open spec fn json_bool(raw: Seq<char>) -> Option<bool> {
    if raw == "true"@ {
        Some(true)
    } else if raw == "false"@ {
        Some(false)
    } else {
        None
    }
}

/// The string that a JSON text spells, if it spells one.
pub uninterp spec fn json_text(raw: Seq<char>) -> Option<Seq<char>>;

/// The list of strings that a JSON text spells, if it spells one.
pub uninterp spec fn json_text_list(raw: Seq<char>) -> Option<Seq<Seq<char>>>;

/// The JSON string literal for a text, quoted and escaped.
pub uninterp spec fn json_quoted(text: Seq<char>) -> Seq<char>;

/// Members as pairs of texts.
pub open spec fn member_views(members: Seq<(String, String)>) -> Seq<(Seq<char>, Seq<char>)> {
    members.map_values(|m: (String, String)| (m.0@, m.1@))
}

/// Texts as sequences of characters.
pub open spec fn list_views(items: Seq<String>) -> Seq<Seq<char>> {
    items.map_values(|t: String| t@)
}

/// The JSON text of the first member called `name`, if there is one.
pub open spec fn member(members: Seq<(Seq<char>, Seq<char>)>, name: Seq<char>) -> Option<Seq<char>>
    decreases members.len(),
{
    if members.len() == 0 {
        None
    } else if members[0].0 == name {
        Some(members[0].1)
    } else {
        member(members.drop_first(), name)
    }
}

/// The members of an object, separated by commas.
pub open spec fn members_text(members: Seq<(Seq<char>, Seq<char>)>) -> Seq<char>
    decreases members.len(),
{
    if members.len() == 0 {
        Seq::empty()
    } else if members.len() == 1 {
        json_quoted(members[0].0) + seq![':'] + members[0].1
    } else {
        members_text(members.drop_last()) + seq![','] + json_quoted(members.last().0) + seq![':']
            + members.last().1
    }
}

/// The text of a JSON object with the given members, in order.
pub open spec fn object_text(members: Seq<(Seq<char>, Seq<char>)>) -> Seq<char> {
    seq!['{'] + members_text(members) + seq!['}']
}

/// The quoted items of a list, separated by commas.
pub open spec fn items_text(items: Seq<Seq<char>>) -> Seq<char>
    decreases items.len(),
{
    if items.len() == 0 {
        Seq::empty()
    } else if items.len() == 1 {
        json_quoted(items[0])
    } else {
        items_text(items.drop_last()) + seq![','] + json_quoted(items.last())
    }
}

/// The text of a JSON array of strings.
pub open spec fn text_list_text(items: Seq<Seq<char>>) -> Seq<char> {
    seq!['['] + items_text(items) + seq![']']
}

/// Calls `serde_json::from_slice` for an object and `Value::to_string` for
/// each member. The result is named, not spelled out.
#[verifier::external_body]
pub(crate) fn read_members(bytes: &[u8]) -> (members: Option<Vec<(String, String)>>)
    ensures
        match members {
            Some(found) => json_members(bytes@) == Some(member_views(found@)),
            None => json_members(bytes@) is None,
        },
{
    serde_json::from_slice::<serde_json::Map<String, serde_json::Value>>(bytes).ok().map(
        |object| object.into_iter().map(|(name, value)| (name, value.to_string())).collect(),
    )
}

/// Reads a boolean from compact JSON text.
pub fn read_bool(raw: &str) -> (value: Option<bool>)
    ensures
        value == json_bool(raw@),
{
    let text = String::from_str(raw);
    if text == String::from_str("true") {
        Some(true)
    } else if text == String::from_str("false") {
        Some(false)
    } else {
        None
    }
}

/// Calls `serde_json::from_str` for a `String`. The result is named.
#[verifier::external_body]
pub(crate) fn read_text(raw: &str) -> (value: Option<String>)
    ensures
        match value {
            Some(text) => json_text(raw@) == Some(text@),
            None => json_text(raw@) is None,
        },
{
    serde_json::from_str::<String>(raw).ok()
}

/// Calls `serde_json::from_str` for a `Vec<String>`. The result is named.
#[verifier::external_body]
pub(crate) fn read_text_list(raw: &str) -> (value: Option<Vec<String>>)
    ensures
        match value {
            Some(items) => json_text_list(raw@) == Some(list_views(items@)),
            None => json_text_list(raw@) is None,
        },
{
    serde_json::from_str::<Vec<String>>(raw).ok()
}

/// Calls `serde_json::to_string` for a `str`. The result is named.
#[verifier::external_body]
pub(crate) fn quote(text: &str) -> (literal: String)
    ensures
        literal@ == json_quoted(text@),
{
    serde_json::to_string(text).unwrap_or_default()
}

/// Returns the JSON text of the first member called `name`.
pub fn find_member<'a>(members: &'a Vec<(String, String)>, name: &str) -> (found: Option<&'a String>)
    ensures
        match found {
            Some(raw) => member(member_views(members@), name@) == Some(raw@),
            None => member(member_views(members@), name@) is None,
        },
{
    let wanted = String::from_str(name);
    let mut i: usize = 0;
    proof {
        assert(member_views(members@).skip(0) =~= member_views(members@));
    }
    while i < members.len()
        invariant
            i <= members.len(),
            wanted@ == name@,
            member(member_views(members@), name@) == member(
                member_views(members@).skip(i as int),
                name@,
            ),
        decreases members.len() - i,
    {
        let ghost rest = member_views(members@).skip(i as int);
        proof {
            assert(rest[0] == (members@[i as int].0@, members@[i as int].1@));
            assert(rest.drop_first() =~= member_views(members@).skip(i + 1));
        }
        if members[i].0 == wanted {
            return Some(&members[i].1);
        }
        i = i + 1;
    }
    None
}

/// The view of an optional text.
pub open spec fn text_opt(text: Option<String>) -> Option<Seq<char>> {
    match text {
        Some(t) => Some(t@),
        None => None,
    }
}

/// The view of an optional list of texts.
pub open spec fn list_opt(items: Option<Vec<String>>) -> Option<Seq<Seq<char>>> {
    match items {
        Some(l) => Some(list_views(l@)),
        None => None,
    }
}

/// The JSON text `null`.
pub open spec fn null_text() -> Seq<char> {
    "null"@
}

/// A string member that must be present.
pub open spec fn required_text(members: Seq<(Seq<char>, Seq<char>)>, name: Seq<char>) -> Option<
    Seq<char>,
> {
    match member(members, name) {
        Some(raw) => json_text(raw),
        None => None,
    }
}

/// A string member that may be missing or `null`. The outer `None` stands
/// for a member of another type.
pub open spec fn optional_text(members: Seq<(Seq<char>, Seq<char>)>, name: Seq<char>) -> Option<
    Option<Seq<char>>,
> {
    match member(members, name) {
        None => Some(None),
        Some(raw) => if raw == null_text() {
            Some(None)
        } else {
            match json_text(raw) {
                Some(text) => Some(Some(text)),
                None => None,
            }
        },
    }
}

/// A string member that defaults to the empty text where it is missing.
pub open spec fn text_or_empty(members: Seq<(Seq<char>, Seq<char>)>, name: Seq<char>) -> Option<
    Seq<char>,
> {
    match member(members, name) {
        Some(raw) => json_text(raw),
        None => Some(Seq::empty()),
    }
}

/// An integer member that must be present.
pub open spec fn required_int(members: Seq<(Seq<char>, Seq<char>)>, name: Seq<char>) -> Option<
    i64,
> {
    match member(members, name) {
        Some(raw) => json_int(raw),
        None => None,
    }
}

/// An integer member with a default for where it is missing.
pub open spec fn int_or(members: Seq<(Seq<char>, Seq<char>)>, name: Seq<char>, default: i64)
    -> Option<i64> {
    match member(members, name) {
        Some(raw) => json_int(raw),
        None => Some(default),
    }
}

/// A boolean member with a default for where it is missing.
pub open spec fn bool_or(members: Seq<(Seq<char>, Seq<char>)>, name: Seq<char>, default: bool)
    -> Option<bool> {
    match member(members, name) {
        Some(raw) => json_bool(raw),
        None => Some(default),
    }
}

/// A fixed-point member with a default for where it is missing.
pub open spec fn milli_or(members: Seq<(Seq<char>, Seq<char>)>, name: Seq<char>, default: u32)
    -> Option<u32> {
    match member(members, name) {
        Some(raw) => milli_of(encode_utf8(raw)),
        None => Some(default),
    }
}

/// A list-of-strings member that defaults to the empty list.
pub open spec fn text_list_or_empty(members: Seq<(Seq<char>, Seq<char>)>, name: Seq<char>)
    -> Option<Seq<Seq<char>>> {
    match member(members, name) {
        Some(raw) => json_text_list(raw),
        None => Some(Seq::empty()),
    }
}

/// The raw JSON text of a member, `null` where it is missing.
pub open spec fn raw_or_null(members: Seq<(Seq<char>, Seq<char>)>, name: Seq<char>) -> Seq<char> {
    match member(members, name) {
        Some(raw) => raw,
        None => null_text(),
    }
}

/// The raw JSON text of a member, absent where it is missing or `null`.
pub open spec fn optional_raw(members: Seq<(Seq<char>, Seq<char>)>, name: Seq<char>) -> Option<
    Seq<char>,
> {
    match member(members, name) {
        Some(raw) => if raw == null_text() {
            None
        } else {
            Some(raw)
        },
        None => None,
    }
}

/// Returns the raw JSON text of a member, `None` where it is missing or
/// `null`.
pub fn get_optional_raw(members: &Vec<(String, String)>, name: &str) -> (raw: Option<String>)
    ensures
        text_opt(raw) == optional_raw(member_views(members@), name@),
{
    match find_member(members, name) {
        Some(raw) => {
            let null = String::from_str("null");
            if *raw == null {
                None
            } else {
                Some(raw.clone())
            }
        },
        None => None,
    }
}

/// Reads a string member that must be present.
pub fn get_text(members: &Vec<(String, String)>, name: &str) -> (value: Option<String>)
    ensures
        text_opt(value) == required_text(member_views(members@), name@),
{
    match find_member(members, name) {
        Some(raw) => read_text(raw.as_str()),
        None => None,
    }
}

/// Reads a string member that may be missing or `null`.
pub fn get_optional_text(members: &Vec<(String, String)>, name: &str) -> (value: Option<
    Option<String>,
>)
    ensures
        match value {
            Some(inner) => optional_text(member_views(members@), name@) == Some(text_opt(inner)),
            None => optional_text(member_views(members@), name@) is None,
        },
{
    match find_member(members, name) {
        None => Some(None),
        Some(raw) => {
            let null = String::from_str("null");
            if *raw == null {
                Some(None)
            } else {
                match read_text(raw.as_str()) {
                    Some(text) => Some(Some(text)),
                    None => None,
                }
            }
        },
    }
}

/// Reads a string member that defaults to the empty text.
pub fn get_text_or_empty(members: &Vec<(String, String)>, name: &str) -> (value: Option<String>)
    ensures
        text_opt(value) == text_or_empty(member_views(members@), name@),
{
    match find_member(members, name) {
        Some(raw) => read_text(raw.as_str()),
        None => Some(String::new()),
    }
}

/// Reads an integer member that must be present.
pub fn get_int(members: &Vec<(String, String)>, name: &str) -> (value: Option<i64>)
    ensures
        value == required_int(member_views(members@), name@),
{
    match find_member(members, name) {
        Some(raw) => read_int(raw.as_str()),
        None => None,
    }
}

/// Reads an integer member with a default.
pub fn get_int_or(members: &Vec<(String, String)>, name: &str, default: i64) -> (value: Option<
    i64,
>)
    ensures
        value == int_or(member_views(members@), name@, default),
{
    match find_member(members, name) {
        Some(raw) => read_int(raw.as_str()),
        None => Some(default),
    }
}

/// Reads a boolean member with a default.
pub fn get_bool_or(members: &Vec<(String, String)>, name: &str, default: bool) -> (value: Option<
    bool,
>)
    ensures
        value == bool_or(member_views(members@), name@, default),
{
    match find_member(members, name) {
        Some(raw) => read_bool(raw.as_str()),
        None => Some(default),
    }
}

/// Reads a fixed-point member with a default.
pub fn get_milli_or(members: &Vec<(String, String)>, name: &str, default: u32) -> (value: Option<
    u32,
>)
    ensures
        value == milli_or(member_views(members@), name@, default),
{
    match find_member(members, name) {
        Some(raw) => read_milli(raw.as_str()),
        None => Some(default),
    }
}

/// Reads a list-of-strings member that defaults to the empty list.
pub fn get_text_list_or_empty(members: &Vec<(String, String)>, name: &str) -> (value: Option<
    Vec<String>,
>)
    ensures
        list_opt(value) == text_list_or_empty(member_views(members@), name@),
{
    match find_member(members, name) {
        Some(raw) => read_text_list(raw.as_str()),
        None => {
            let empty: Vec<String> = Vec::new();
            proof {
                assert(list_views(empty@) =~= Seq::<Seq<char>>::empty());
            }
            Some(empty)
        },
    }
}

/// Returns the raw JSON text of a member, `null` where it is missing.
pub fn get_raw_or_null(members: &Vec<(String, String)>, name: &str) -> (raw: String)
    ensures
        raw@ == raw_or_null(member_views(members@), name@),
{
    match find_member(members, name) {
        Some(raw) => raw.clone(),
        None => String::from_str("null"),
    }
}

/// Appends a member to a list of members.
pub fn push_member(members: &mut Vec<(String, String)>, name: &str, raw: String)
    ensures
        member_views(final(members)@) == member_views(old(members)@).push((name@, raw@)),
{
    let ghost before = members@;
    members.push((String::from_str(name), raw));
    proof {
        assert(member_views(members@) =~= member_views(before).push((name@, raw@)));
    }
}

/// Writes the text of a JSON object with the given members, in order.
pub fn write_object(members: &Vec<(String, String)>) -> (text: String)
    ensures
        text@ == object_text(member_views(members@)),
{
    let mut text = String::from_str("{");
    proof {
        reveal_strlit("{");
        reveal_strlit("}");
        reveal_strlit(",");
        reveal_strlit(":");
        assert(text@ =~= seq!['{']);
    }
    let mut i: usize = 0;
    while i < members.len()
        invariant
            i <= members.len(),
            text@ == seq!['{'] + members_text(member_views(members@).take(i as int)),
        decreases members.len() - i,
    {
        let ghost seen = member_views(members@).take(i as int);
        let ghost next = member_views(members@).take(i + 1);
        proof {
            reveal_strlit(",");
            reveal_strlit(":");
            assert(next.drop_last() =~= seen);
            assert(next.last() == (members@[i as int].0@, members@[i as int].1@));
        }
        if i > 0 {
            text.append(",");
        }
        let name = quote(members[i].0.as_str());
        text.append(name.as_str());
        text.append(":");
        text.append(members[i].1.as_str());
        proof {
            assert(text@ =~= seq!['{'] + members_text(next));
        }
        i = i + 1;
    }
    proof {
        assert(member_views(members@).take(members.len() as int) =~= member_views(members@));
    }
    text.append("}");
    proof {
        reveal_strlit("}");
        assert(text@ =~= object_text(member_views(members@)));
    }
    text
}

/// Writes the text of a JSON array of strings.
pub fn write_text_list(items: &Vec<String>) -> (text: String)
    ensures
        text@ == text_list_text(list_views(items@)),
{
    let mut text = String::from_str("[");
    proof {
        reveal_strlit("[");
        assert(text@ =~= seq!['[']);
    }
    let mut i: usize = 0;
    while i < items.len()
        invariant
            i <= items.len(),
            text@ == seq!['['] + items_text(list_views(items@).take(i as int)),
        decreases items.len() - i,
    {
        let ghost seen = list_views(items@).take(i as int);
        let ghost next = list_views(items@).take(i + 1);
        proof {
            reveal_strlit(",");
            assert(next.drop_last() =~= seen);
            assert(next.last() == items@[i as int]@);
        }
        if i > 0 {
            text.append(",");
        }
        let literal = quote(items[i].as_str());
        text.append(literal.as_str());
        proof {
            assert(text@ =~= seq!['['] + items_text(next));
        }
        i = i + 1;
    }
    proof {
        assert(list_views(items@).take(items.len() as int) =~= list_views(items@));
    }
    text.append("]");
    proof {
        reveal_strlit("]");
        assert(text@ =~= text_list_text(list_views(items@)));
    }
    text
}

} // verus!
