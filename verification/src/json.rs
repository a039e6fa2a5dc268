//! Reading and writing JSON text, one level at a time.
//!
//! The grammar of JSON is `serde_json`'s business. This module asks it to
//! take one value apart into the texts of its parts, and gives each answer
//! a name, so that the decoders of the library can say exactly what they
//! return for a text without saying what JSON is. Where `serde_json`
//! refuses a text, its message and its `Debug` text are handed on as they
//! stand.

use crate::error::Cause;
use serde_json::value::RawValue;
use std::collections::BTreeMap;
use vstd::prelude::*;

verus! {

/// The members of the JSON object that `text` holds, each as its name and
/// the text of its value, in ascending order of the names; `None` where
/// `text` is not one JSON object.
pub uninterp spec fn json_members(text: Seq<char>) -> Option<Seq<(Seq<char>, Seq<char>)>>;

/// The texts of the elements of the JSON array that `text` holds, in order;
/// `None` where `text` is not one JSON array.
pub uninterp spec fn json_items(text: Seq<char>) -> Option<Seq<Seq<char>>>;

/// The characters of the JSON string that `text` holds, escapes resolved;
/// `None` where `text` is not one JSON string.
pub uninterp spec fn json_string(text: Seq<char>) -> Option<Seq<char>>;

/// The integer that `text` holds; `None` where `text` is not one JSON
/// integer that fits in 64 bits with a sign.
pub uninterp spec fn json_integer(text: Seq<char>) -> Option<i64>;

/// The number that `text` holds, as `serde_json` writes it; `None` where
/// `text` is not one JSON number.
pub uninterp spec fn json_number(text: Seq<char>) -> Option<Seq<char>>;

/// The JSON string that holds the characters `s`, quotation marks and
/// escapes included; `None` where `serde_json` declines to write it.
pub uninterp spec fn json_quoted(s: Seq<char>) -> Option<Seq<char>>;

/// `serde_json::from_str` at the type of a map from names to raw values
/// (`BTreeMap<String, Box<RawValue>>`). Claimed: whether it succeeds, and
/// the names and value texts that it yields in the map's order, depend on
/// `text` alone; `json_members` names that result.
#[verifier::external_body]
pub(crate) fn read_object(text: &str) -> (r: Result<Vec<(String, String)>, Cause>)
    ensures
        match r {
            Ok(members) => json_members(text@) == Some(members.deep_view()),
            Err(_) => json_members(text@) is None,
        },
{
    let members: BTreeMap<String, Box<RawValue>> =
        serde_json::from_str(text).map_err(|error| {
            Cause { message: error.to_string(), debug: format!("{:?}", error) }
        })?;
    Ok(members.into_iter().map(|(name, value)| (name, value.get().to_string())).collect())
}

/// `serde_json::from_str` at the type of a list of raw values
/// (`Vec<Box<RawValue>>`). Claimed: whether it succeeds, and the element
/// texts that it yields, depend on `text` alone; `json_items` names that
/// result.
#[verifier::external_body]
pub(crate) fn read_array(text: &str) -> (r: Result<Vec<String>, Cause>)
    ensures
        match r {
            Ok(items) => json_items(text@) == Some(items.deep_view()),
            Err(_) => json_items(text@) is None,
        },
{
    let items: Vec<Box<RawValue>> =
        serde_json::from_str(text).map_err(|error| {
            Cause { message: error.to_string(), debug: format!("{:?}", error) }
        })?;
    Ok(items.into_iter().map(|item| item.get().to_string()).collect())
}

/// `serde_json::from_str` at the type `String`. Claimed: its result depends
/// on `text` alone; `json_string` names it.
#[verifier::external_body]
pub(crate) fn read_string(text: &str) -> (r: Result<String, Cause>)
    ensures
        match r {
            Ok(s) => json_string(text@) == Some(s@),
            Err(_) => json_string(text@) is None,
        },
{
    serde_json::from_str::<String>(text).map_err(|error| {
        Cause { message: error.to_string(), debug: format!("{:?}", error) }
    })
}

/// `serde_json::from_str` at the type `i64`. Claimed: its result depends on
/// `text` alone; `json_integer` names it.
#[verifier::external_body]
pub(crate) fn read_integer(text: &str) -> (r: Result<i64, Cause>)
    ensures
        match r {
            Ok(n) => json_integer(text@) == Some(n),
            Err(_) => json_integer(text@) is None,
        },
{
    serde_json::from_str::<i64>(text).map_err(|error| {
        Cause { message: error.to_string(), debug: format!("{:?}", error) }
    })
}

/// `serde_json::from_str` at the type `serde_json::Number`, and the text
/// that the number's `Display` writes. Claimed: the result depends on `text`
/// alone; `json_number` names it.
#[verifier::external_body]
pub(crate) fn read_number(text: &str) -> (r: Result<String, Cause>)
    ensures
        match r {
            Ok(s) => json_number(text@) == Some(s@),
            Err(_) => json_number(text@) is None,
        },
{
    serde_json::from_str::<serde_json::Number>(text)
        .map(|number| number.to_string())
        .map_err(|error| Cause { message: error.to_string(), debug: format!("{:?}", error) })
}

/// `serde_json::to_string` of a string slice. Claimed: it succeeds, since
/// writing a string into memory cannot fail, and its result depends on `s`
/// alone; `json_quoted` names it.
#[verifier::external_body]
pub(crate) fn write_string(s: &str) -> (r: Result<String, Cause>)
    ensures
        r is Ok,
        match r {
            Ok(q) => json_quoted(s@) == Some(q@),
            Err(_) => json_quoted(s@) is None,
        },
{
    serde_json::to_string(s).map_err(|error| {
        Cause { message: error.to_string(), debug: format!("{:?}", error) }
    })
}

/// The text of the first member called `name`, if there is one.
pub open spec fn member(members: Seq<(Seq<char>, Seq<char>)>, name: Seq<char>) -> Option<
    Seq<char>,
>
    decreases members.len(),
{
    if members.len() == 0 {
        None
    } else if members[0].0 == name {
        Some(members[0].1)
    } else {
        member(members.drop_first(), name)
    }
}

/// The string that the member called `name` holds.
pub open spec fn string_member(members: Seq<(Seq<char>, Seq<char>)>, name: Seq<char>) -> Option<
    Seq<char>,
> {
    match member(members, name) {
        Some(text) => json_string(text),
        None => None,
    }
}

/// The integer that the member called `name` holds.
pub open spec fn integer_member(members: Seq<(Seq<char>, Seq<char>)>, name: Seq<char>) -> Option<
    i64,
> {
    match member(members, name) {
        Some(text) => json_integer(text),
        None => None,
    }
}

/// The number that the member called `name` holds.
pub open spec fn number_member(members: Seq<(Seq<char>, Seq<char>)>, name: Seq<char>) -> Option<
    Seq<char>,
> {
    match member(members, name) {
        Some(text) => json_number(text),
        None => None,
    }
}

/// Whether two texts hold the same characters.
pub fn same_text(a: &str, b: &str) -> (same: bool)
    ensures
        same == (a@ == b@),
{
    let left = String::from_str(a);
    let right = String::from_str(b);
    left == right
}

/// Finds the text of the first member called `name`.
pub fn find_member<'a>(members: &'a Vec<(String, String)>, name: &str) -> (r: Option<&'a String>)
    ensures
        match r {
            Some(text) => member(members.deep_view(), name@) == Some(text@),
            None => member(members.deep_view(), name@) is None,
        },
{
    let ghost all = members.deep_view();
    let mut i: usize = 0;
    assert(all.skip(0) =~= all);
    while i < members.len()
        invariant
            i <= members.len(),
            all == members.deep_view(),
            member(all, name@) == member(all.skip(i as int), name@),
        decreases members.len() - i,
    {
        let ghost rest = all.skip(i as int);
        assert(rest[0] == all[i as int]);
        assert(rest.drop_first() =~= all.skip(i + 1));
        if same_text(members[i].0.as_str(), name) {
            return Some(&members[i].1);
        }
        i += 1;
    }
    assert(all.skip(i as int).len() == 0);
    None
}

/// What to say when an object lacks a member: the words `missing field` and
/// the member's name between backticks.
pub(crate) fn missing(name: &str) -> (cause: Cause)
    ensures
        cause.message@ == missing_text(name@),
        cause.debug@ == crate::error::own_debug(missing_text(name@)),
{
    let mut message = String::from_str("missing field `");
    message.append(name);
    message.append("`");
    Cause::of_message(message)
}

/// The message for an object that lacks the member called `name`.
pub open spec fn missing_text(name: Seq<char>) -> Seq<char> {
    "missing field `"@ + name + "`"@
}

/// Reads the string that the member called `name` holds; the error is a
/// message that says what was wrong.
pub fn read_string_member(members: &Vec<(String, String)>, name: &str) -> (r: Result<String, Cause>)
    ensures
        match r {
            Ok(s) => string_member(members.deep_view(), name@) == Some(s@),
            Err(_) => string_member(members.deep_view(), name@) is None,
        },
{
    match find_member(members, name) {
        None => Err(missing(name)),
        Some(text) => match read_string(text.as_str()) {
            Ok(s) => Ok(s),
            Err(message) => Err(message),
        },
    }
}

/// Reads the integer that the member called `name` holds.
pub fn read_integer_member(members: &Vec<(String, String)>, name: &str) -> (r: Result<i64, Cause>)
    ensures
        match r {
            Ok(n) => integer_member(members.deep_view(), name@) == Some(n),
            Err(_) => integer_member(members.deep_view(), name@) is None,
        },
{
    match find_member(members, name) {
        None => Err(missing(name)),
        Some(text) => match read_integer(text.as_str()) {
            Ok(n) => Ok(n),
            Err(message) => Err(message),
        },
    }
}

/// Reads the number that the member called `name` holds, as text.
pub fn read_number_member(members: &Vec<(String, String)>, name: &str) -> (r: Result<String, Cause>)
    ensures
        match r {
            Ok(s) => number_member(members.deep_view(), name@) == Some(s@),
            Err(_) => number_member(members.deep_view(), name@) is None,
        },
{
    match find_member(members, name) {
        None => Err(missing(name)),
        Some(text) => match read_number(text.as_str()) {
            Ok(s) => Ok(s),
            Err(message) => Err(message),
        },
    }
}

} // verus!
