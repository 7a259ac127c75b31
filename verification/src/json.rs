//! JSON values as the library reads them: model configurations, repository
//! manifests and shard indexes.
use crate::text::{i64_to_string, owned, signed_decimal, decimal, text_eq, u64_to_string};
use vstd::prelude::*;

verus! {

/// A JSON number that is neither a `u64` nor an `i64`.
#[derive(Debug)]
pub struct RealNumber {
    /// Its JSON notation.
    pub text: String,
    /// Its value cut toward zero to a whole number (saturating at `u64::MAX`)
    /// when it is not negative; `None` when it is negative.
    pub whole: Option<u64>,
}

/// A JSON number.
#[derive(Debug)]
pub enum JsonNumber {
    /// A number that fits in a `u64`.
    PosInt(u64),
    /// A negative number that fits in an `i64`.
    NegInt(i64),
    /// Any other number.
    Real(RealNumber),
}

/// A JSON value; an object keeps its members in order.
#[derive(Debug)]
pub enum JsonValue {
    Null,
    Bool(bool),
    Number(JsonNumber),
    Str(String),
    Array(Vec<JsonValue>),
    Object(Vec<(String, JsonValue)>),
}

/// The value of the first member named `key` among `entries`.
pub open spec fn entry_lookup(entries: Seq<(String, JsonValue)>, key: Seq<char>) -> Option<JsonValue>
    decreases entries.len(),
{
    if entries.len() == 0 {
        None
    } else {
        match entry_lookup(entries.drop_last(), key) {
            Some(v) => Some(v),
            None => if entries.last().0@ == key {
                Some(entries.last().1)
            } else {
                None
            },
        }
    }
}

/// The member `key` of an object; nothing for other values (`Value::get`).
pub open spec fn json_get(v: JsonValue, key: Seq<char>) -> Option<JsonValue> {
    match v {
        JsonValue::Object(entries) => entry_lookup(entries@, key),
        _ => None,
    }
}

/// The text of a string value.
pub open spec fn json_text(v: Option<JsonValue>) -> Option<Seq<char>> {
    match v {
        Some(JsonValue::Str(s)) => Some(s@),
        _ => None,
    }
}

/// A number read as a count: a `u64` as it is, a non-negative `i64` converted,
/// a non-negative real cut to a whole number; anything else gives nothing.
pub open spec fn json_count(v: JsonValue) -> Option<u64> {
    match v {
        JsonValue::Number(JsonNumber::PosInt(u)) => Some(u),
        JsonValue::Number(JsonNumber::NegInt(i)) => if i >= 0 {
            Some(i as u64)
        } else {
            None
        },
        JsonValue::Number(JsonNumber::Real(r)) => r.whole,
        _ => None,
    }
}

/// The text a scalar is shown with: a string as it is, `null`, `true` or
/// `false`, a number in JSON notation.
pub open spec fn scalar_text(v: JsonValue) -> Seq<char> {
    match v {
        JsonValue::Str(s) => s@,
        JsonValue::Null => "null"@,
        JsonValue::Bool(b) => if b {
            "true"@
        } else {
            "false"@
        },
        JsonValue::Number(JsonNumber::PosInt(u)) => decimal(u as nat),
        JsonValue::Number(JsonNumber::NegInt(i)) => signed_decimal(i as int),
        JsonValue::Number(JsonNumber::Real(r)) => r.text@,
        _ => Seq::empty(),
    }
}

/// The number of members of an object, zero for other values.
pub open spec fn member_count(v: JsonValue) -> nat {
    match v {
        JsonValue::Object(entries) => entries@.len(),
        _ => 0,
    }
}

impl JsonValue {
    /// The member `key` of an object (`Value::get`).
    pub fn get(&self, key: &str) -> (r: Option<&JsonValue>)
        ensures
            match r {
                Some(x) => json_get(*self, key@) == Some(*x),
                None => json_get(*self, key@) is None,
            },
    {
        match self {
            JsonValue::Object(entries) => {
                let mut i: usize = 0;
                assert(json_get(*self, key@) == entry_lookup(entries@, key@));
                while i < entries.len()
                    invariant
                        i <= entries.len(),
                        json_get(*self, key@) == entry_lookup(entries@, key@),
                        entry_lookup(entries@.take(i as int), key@) is None,
                    decreases entries.len() - i,
                {
                    proof {
                        assert(entries@.take(i + 1).drop_last() =~= entries@.take(i as int));
                    }
                    if text_eq(entries[i].0.as_str(), key) {
                        proof {
                            assert(entries@.take(i + 1).last() == entries@[i as int]);
                            assert(entry_lookup(entries@.take(i + 1), key@) == Some(entries@[i as int].1));
                            lemma_entry_lookup_prefix(entries@, key@, i as int + 1);
                            assert(json_get(*self, key@) == Some(entries@[i as int].1));
                        }
                        return Some(&entries[i].1);
                    }
                    i += 1;
                }
                assert(entries@.take(entries.len() as int) =~= entries@);
                None
            },
            _ => None,
        }
    }

    /// The text of a string value (`Value::as_str`).
    pub fn as_str(&self) -> (r: Option<&str>)
        ensures
            match r {
                Some(s) => json_text(Some(*self)) == Some(s@),
                None => json_text(Some(*self)) is None,
            },
    {
        match self {
            JsonValue::Str(s) => Some(s.as_str()),
            _ => None,
        }
    }

    /// The number of members of an object, zero otherwise.
    pub fn member_count(&self) -> (r: usize)
        ensures
            r == member_count(*self),
    {
        match self {
            JsonValue::Object(entries) => entries.len(),
            _ => 0,
        }
    }
}

/// Once found in a prefix, the first member named `key` stays the first one.
proof fn lemma_entry_lookup_prefix(entries: Seq<(String, JsonValue)>, key: Seq<char>, k: int)
    requires
        0 <= k <= entries.len(),
        entry_lookup(entries.take(k), key) is Some,
    ensures
        entry_lookup(entries, key) == entry_lookup(entries.take(k), key),
    decreases entries.len() - k,
{
    if k < entries.len() {
        assert(entries.take(k + 1).drop_last() =~= entries.take(k));
        lemma_entry_lookup_prefix(entries, key, k + 1);
    } else {
        assert(entries.take(k) =~= entries);
    }
}

/// The text a scalar is shown with.
pub fn scalar_to_text(v: &JsonValue) -> (r: String)
    ensures
        r@ == scalar_text(*v),
{
    match v {
        JsonValue::Str(s) => s.clone(),
        JsonValue::Null => owned("null"),
        JsonValue::Bool(b) => if *b {
            owned("true")
        } else {
            owned("false")
        },
        JsonValue::Number(JsonNumber::PosInt(u)) => u64_to_string(*u),
        JsonValue::Number(JsonNumber::NegInt(i)) => i64_to_string(*i),
        JsonValue::Number(JsonNumber::Real(r)) => r.text.clone(),
        _ => String::new(),
    }
}

} // verus!
