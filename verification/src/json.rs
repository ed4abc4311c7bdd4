//! JSON text, read and written by serde_json: the members of an object, the elements of
//! an array, and quoted strings. A JSON value is carried as its compact text.
use vstd::prelude::*;
use crate::strmap::lookup;
use crate::text::text_equals;

verus! {

/// The members of the JSON object that serde_json reads from `text` (`from_str` into a
/// `Value`), each key with its value written back as compact JSON text; `None` where
/// the text is not JSON or not an object.
pub uninterp spec fn json_members(text: Seq<char>) -> Option<Seq<(Seq<char>, Seq<char>)>>;

/// The elements of the JSON array that serde_json reads from `text`, each written back
/// as compact JSON text; `None` where the text is not JSON or not an array.
pub uninterp spec fn json_elements(text: Seq<char>) -> Option<Seq<Seq<char>>>;

/// The compact JSON text that serde_json writes (`Display` of `Value`) for the value it
/// reads from `text` (`from_str`); `None` where the text is not JSON.
pub uninterp spec fn json_value(text: Seq<char>) -> Option<Seq<char>>;

/// The lower-case hexadecimal digit of `d`, for `d` below 16.
pub open spec fn hex_digit(d: int) -> char {
    seq!['0', '1', '2', '3', '4', '5', '6', '7', '8', '9', 'a', 'b', 'c', 'd', 'e', 'f'][d]
}

/// How one character appears inside a JSON string: the quote and the backslash behind a
/// backslash, the five control characters with short escapes as those, the other
/// control characters below U+0020 as `\u00XX`, and every other character as itself.
pub open spec fn escaped_char(c: char) -> Seq<char> {
    if c == '"' {
        seq!['\\', '"']
    } else if c == '\\' {
        seq!['\\', '\\']
    } else if c == '\u{8}' {
        seq!['\\', 'b']
    } else if c == '\t' {
        seq!['\\', 't']
    } else if c == '\n' {
        seq!['\\', 'n']
    } else if c == '\u{c}' {
        seq!['\\', 'f']
    } else if c == '\r' {
        seq!['\\', 'r']
    } else if (c as int) < 0x20 {
        seq!['\\', 'u', '0', '0', hex_digit((c as int) / 16), hex_digit((c as int) % 16)]
    } else {
        seq![c]
    }
}

/// The characters of `s`, each as it appears inside a JSON string.
pub open spec fn escaped(s: Seq<char>) -> Seq<char>
    decreases s.len(),
{
    if s.len() == 0 {
        Seq::empty()
    } else {
        escaped_char(s[0]) + escaped(s.drop_first())
    }
}

/// The JSON string literal for `s`: its characters, escaped, in double quotes.
pub open spec fn json_quoted(s: Seq<char>) -> Seq<char> {
    seq!['"'] + escaped(s) + seq!['"']
}

/// The members of `v`, as character sequences.
pub open spec fn members_view(v: Seq<(String, String)>) -> Seq<(Seq<char>, Seq<char>)> {
    v.map_values(|p: (String, String)| (p.0@, p.1@))
}

/// The elements of `v`, as character sequences.
pub open spec fn elements_view(v: Seq<String>) -> Seq<Seq<char>> {
    v.map_values(|s: String| s@)
}

/// Reads `text` with `serde_json::from_str` into a `Value` and, where it is an object,
/// hands back its members (serde_json's map order) with each value written by
/// `Value`'s `Display`. Claimed of serde_json: the outcome depends on the text alone,
/// and is `json_members(text@)`.
#[verifier::external_body]
pub fn parse_json_object(text: &str) -> (r: Option<Vec<(String, String)>>)
    ensures
        match r {
            Some(v) => json_members(text@) == Some(members_view(v@)),
            None => json_members(text@) is None,
        },
{
    match serde_json::from_str::<serde_json::Value>(text) {
        Ok(serde_json::Value::Object(m)) => Some(m.iter().map(|(k, v)| (k.clone(), v.to_string())).collect()),
        _ => None,
    }
}

/// Reads `text` with `serde_json::from_str` into a `Value` and, where it is an array,
/// hands back its elements, each written by `Value`'s `Display`. Claimed of serde_json:
/// the outcome depends on the text alone, and is `json_elements(text@)`.
#[verifier::external_body]
pub fn parse_json_array(text: &str) -> (r: Option<Vec<String>>)
    ensures
        match r {
            Some(v) => json_elements(text@) == Some(elements_view(v@)),
            None => json_elements(text@) is None,
        },
{
    match serde_json::from_str::<serde_json::Value>(text) {
        Ok(serde_json::Value::Array(a)) => Some(a.iter().map(|v| v.to_string()).collect()),
        _ => None,
    }
}

/// Writes `s` as a JSON string by `Display` of `serde_json::Value::String`. Claimed of
/// serde_json (its escape table in `ser.rs`): the text is `json_quoted(s@)`.
#[verifier::external_body]
pub fn quote_json(s: &str) -> (r: String)
    ensures
        r@ == json_quoted(s@),
{
    serde_json::Value::String(s.to_string()).to_string()
}

/// Reads `text` with `serde_json::from_str` into a `Value` and writes the value back by
/// `Value`'s `Display`. Claimed of serde_json: the outcome depends on the text alone, and
/// is `json_value(text@)`.
#[verifier::external_body]
pub fn parse_json(text: &str) -> (r: Option<String>)
    ensures
        match r {
            Some(v) => json_value(text@) == Some(v@),
            None => json_value(text@) is None,
        },
{
    serde_json::from_str::<serde_json::Value>(text).ok().map(|v| v.to_string())
}

/// Whether `text` is JSON.
pub fn is_json(text: &str) -> (r: bool)
    ensures
        r == (json_value(text@) is Some),
{
    parse_json(text).is_some()
}

/// The value text of the member `key` among `members`: that of its first occurrence.
pub fn member_value<'a>(members: &'a Vec<(String, String)>, key: &str) -> (r: Option<&'a String>)
    ensures
        match r {
            Some(v) => lookup(members_view(members@), key@) == Some(v@),
            None => lookup(members_view(members@), key@) is None,
        },
{
    let ghost s = members_view(members@);
    let n = members.len();
    let mut i: usize = 0;
    assert(s.skip(0) =~= s);
    while i < n
        invariant
            n == members@.len(),
            s == members_view(members@),
            i <= n,
            lookup(s, key@) == lookup(s.skip(i as int), key@),
        decreases n - i,
    {
        proof {
            assert(s.skip(i as int)[0] == s[i as int]);
            assert(s.skip(i as int).drop_first() =~= s.skip(i + 1));
        }
        if text_equals(members[i].0.as_str(), key) {
            return Some(&members[i].1);
        }
        i = i + 1;
    }
    None
}

/// The value text of the member `key` of the JSON object `text`.
pub open spec fn member_of(text: Seq<char>, key: Seq<char>) -> Option<Seq<char>> {
    match json_members(text) {
        Some(members) => lookup(members, key),
        None => None,
    }
}

/// The objects listed under `data.<query_name>` of a GraphQL response, each as its
/// JSON text; `None` where the response does not hold such an array.
pub open spec fn response_objects(response: Seq<char>, query_name: Seq<char>) -> Option<
    Seq<Seq<char>>,
> {
    match member_of(response, "data"@) {
        Some(data) => match member_of(data, query_name) {
            Some(list) => json_elements(list),
            None => None,
        },
        None => None,
    }
}

/// The value text of the member `key` of the JSON object `text`.
fn json_member(text: &str, key: &str) -> (r: Option<String>)
    ensures
        match r {
            Some(v) => member_of(text@, key@) == Some(v@),
            None => member_of(text@, key@) is None,
        },
{
    match parse_json_object(text) {
        Some(members) => match member_value(&members, key) {
            Some(v) => Some(v.clone()),
            None => None,
        },
        None => None,
    }
}

/// The objects under `data.<query_name>` of a GraphQL response, each as its JSON text.
pub fn objects_in_response(response: &str, query_name: &str) -> (r: Option<Vec<String>>)
    ensures
        match r {
            Some(v) => response_objects(response@, query_name@) == Some(elements_view(v@)),
            None => response_objects(response@, query_name@) is None,
        },
{
    let data = match json_member(response, "data") {
        Some(d) => d,
        None => {
            return None;
        },
    };
    let list = match json_member(data.as_str(), query_name) {
        Some(l) => l,
        None => {
            return None;
        },
    };
    parse_json_array(list.as_str())
}

/// The JSON text of the `id` member of the JSON object `object`.
pub open spec fn object_id(object: Seq<char>) -> Option<Seq<char>> {
    member_of(object, "id"@)
}

/// The JSON text of the `id` of each object, in order; every object must have one.
pub fn get_object_ids(objects: &Vec<String>) -> (r: Vec<String>)
    requires
        forall|i: int| 0 <= i < objects@.len() ==> object_id(#[trigger] objects@[i]@) is Some,
    ensures
        r@.len() == objects@.len(),
        forall|i: int|
            0 <= i < objects@.len() ==> object_id(#[trigger] objects@[i]@) == Some(r@[i]@),
{
    let mut r: Vec<String> = Vec::new();
    let n = objects.len();
    let mut i: usize = 0;
    while i < n
        invariant
            n == objects@.len(),
            i <= n,
            r@.len() == i,
            forall|j: int| 0 <= j < objects@.len() ==> object_id(#[trigger] objects@[j]@) is Some,
            forall|j: int| 0 <= j < i ==> object_id(#[trigger] objects@[j]@) == Some(r@[j]@),
        decreases n - i,
    {
        match json_member(objects[i].as_str(), "id") {
            Some(id) => {
                r.push(id);
            },
            None => {
                assert(object_id(objects@[i as int]@) is Some);
                assert(false);
            },
        }
        i = i + 1;
    }
    r
}

/// The JSON text of the `id` of each object, in order; `None` when some object is not a
/// JSON object with an `id`.
pub fn object_ids(objects: &Vec<String>) -> (r: Option<Vec<String>>)
    ensures
        (r is Some) <==> forall|i: int| 0 <= i < objects@.len() ==> object_id(#[trigger] objects@[i]@) is Some,
        match r {
            Some(ids) => ids@.len() == objects@.len() && forall|i: int|
                0 <= i < objects@.len() ==> object_id(#[trigger] objects@[i]@) == Some(ids@[i]@),
            None => true,
        },
{
    let n = objects.len();
    let mut i: usize = 0;
    while i < n
        invariant
            n == objects@.len(),
            i <= n,
            forall|j: int| 0 <= j < i ==> object_id(#[trigger] objects@[j]@) is Some,
        decreases n - i,
    {
        if json_member(objects[i].as_str(), "id").is_none() {
            return None;
        }
        i = i + 1;
    }
    Some(get_object_ids(objects))
}

} // verus!
