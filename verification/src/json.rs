//! JSON documents as plain data, and the reads the status parser makes of
//! them: a member of an object, a string, a boolean, the strings of an
//! array.

use crate::text::same_text;
use vstd::prelude::*;

verus! {

broadcast use vstd::string::group_string_axioms;

/// A JSON value. Numbers are kept as the JSON crate holds them; object
/// members come in the order the JSON crate lists them.
#[derive(Debug)]
pub enum Json {
    Null,
    Bool(bool),
    Number(serde_json::Number),
    Str(String),
    Array(Vec<Json>),
    Object(Vec<(String, Json)>),
}

/// The value of the first member named `key`, or null where there is none.
pub open spec fn entry_value(entries: Seq<(String, Json)>, key: Seq<char>) -> Json
    decreases entries.len(),
{
    if entries.len() == 0 {
        Json::Null
    } else if entries[0].0@ == key {
        entries[0].1
    } else {
        entry_value(entries.drop_first(), key)
    }
}

/// `value[key]`: the member `key` of an object; null for a missing member
/// and for a value that is not an object.
pub open spec fn member_of(j: Json, key: Seq<char>) -> Json {
    match j {
        Json::Object(entries) => entry_value(entries@, key),
        _ => Json::Null,
    }
}

/// `value.as_str()`.
pub open spec fn str_of(j: Json) -> Option<Seq<char>> {
    match j {
        Json::Str(s) => Some(s@),
        _ => None,
    }
}

/// `value.as_str().unwrap_or(default)`.
pub open spec fn str_or(j: Json, default: Seq<char>) -> Seq<char> {
    match j {
        Json::Str(s) => s@,
        _ => default,
    }
}

/// `value.as_bool()`.
pub open spec fn bool_of(j: Json) -> Option<bool> {
    match j {
        Json::Bool(b) => Some(b),
        _ => None,
    }
}

/// The strings among a list of values, in order (non-strings are skipped).
pub open spec fn strings_among(items: Seq<Json>) -> Seq<Seq<char>>
    decreases items.len(),
{
    if items.len() == 0 {
        Seq::empty()
    } else {
        match items.last() {
            Json::Str(s) => strings_among(items.drop_last()).push(s@),
            _ => strings_among(items.drop_last()),
        }
    }
}

/// The strings of an array value; nothing for a value that is not an array.
pub open spec fn array_strings(j: Json) -> Seq<Seq<char>> {
    match j {
        Json::Array(items) => strings_among(items@),
        _ => Seq::empty(),
    }
}

proof fn entry_value_skip(entries: Seq<(String, Json)>, key: Seq<char>, i: int)
    requires
        0 <= i <= entries.len(),
        forall|k: int| 0 <= k < i ==> (#[trigger] entries[k]).0@ != key,
    ensures
        entry_value(entries, key) == entry_value(entries.skip(i), key),
    decreases i,
{
    if i == 0 {
        assert(entries.skip(0) =~= entries);
    } else {
        assert(entries[0].0@ != key);
        assert forall|k: int| 0 <= k < i - 1 implies (#[trigger] entries.drop_first()[k]).0@ != key by {
            assert(entries.drop_first()[k] == entries[k + 1]);
        }
        entry_value_skip(entries.drop_first(), key, i - 1);
        assert(entries.drop_first().skip(i - 1) =~= entries.skip(i));
    }
}

/// `value[key]`, or `None` where that reads as null.
pub fn member<'a>(j: &'a Json, key: &str) -> (r: Option<&'a Json>)
    ensures
        r matches Some(x) ==> *x == member_of(*j, key@),
        r is None ==> member_of(*j, key@) == Json::Null,
{
    match j {
        Json::Object(entries) => {
            let mut i: usize = 0;
            while i < entries.len()
                invariant
                    i <= entries.len(),
                    member_of(*j, key@) == entry_value(entries@, key@),
                    forall|k: int| 0 <= k < i ==> (#[trigger] entries@[k]).0@ != key@,
                decreases entries.len() - i,
            {
                if same_text(entries[i].0.as_str(), key) {
                    proof {
                        entry_value_skip(entries@, key@, i as int);
                        assert(entries@.skip(i as int)[0] == entries@[i as int]);
                    }
                    return Some(&entries[i].1);
                }
                i += 1;
            }
            proof {
                entry_value_skip(entries@, key@, i as int);
                assert(entries@.skip(i as int).len() == 0);
            }
            None
        },
        _ => None,
    }
}

/// `value[key].as_str()`, for a value read as `Option`.
pub fn member_str(j: Option<&Json>, key: &str) -> (r: Option<String>)
    ensures
        r matches Some(s) ==> str_of(member_of(json_or_null(j), key@)) == Some(s@),
        r is None ==> str_of(member_of(json_or_null(j), key@)) is None,
{
    match j {
        None => None,
        Some(v) => match member(v, key) {
            Some(Json::Str(s)) => Some(s.clone()),
            _ => None,
        },
    }
}

/// A value read as `Option`, with null for `None`.
pub open spec fn json_or_null(j: Option<&Json>) -> Json {
    match j {
        Some(v) => *v,
        None => Json::Null,
    }
}

/// `value[key]`, for a value read as `Option`.
pub fn member_opt<'a>(j: Option<&'a Json>, key: &str) -> (r: Option<&'a Json>)
    ensures
        json_or_null(r) == member_of(json_or_null(j), key@),
{
    match j {
        None => None,
        Some(v) => member(v, key),
    }
}

/// The strings of an array value, in order.
pub fn strings_of(j: Option<&Json>) -> (r: Vec<String>)
    ensures
        r@.map_values(|s: String| s@) == array_strings(json_or_null(j)),
{
    let mut out: Vec<String> = Vec::new();
    match j {
        Some(Json::Array(items)) => {
            let mut i: usize = 0;
            while i < items.len()
                invariant
                    i <= items.len(),
                    out@.map_values(|s: String| s@) == strings_among(items@.take(i as int)),
                decreases items.len() - i,
            {
                assert(items@.take(i + 1).drop_last() =~= items@.take(i as int));
                match &items[i] {
                    Json::Str(s) => {
                        out.push(s.clone());
                        assert(out@.map_values(|s: String| s@) =~= strings_among(
                            items@.take(i as int),
                        ).push(s@));
                    },
                    _ => {},
                }
                i += 1;
            }
            assert(items@.take(items.len() as int) =~= items@);
        },
        _ => {
            assert(out@.map_values(|s: String| s@) =~= Seq::<Seq<char>>::empty());
        },
    }
    out
}

} // verus!
