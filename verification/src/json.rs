//! A plain model of the loosely typed documents the bridge reads:
//! null, booleans, unsigned numbers, strings, arrays and objects.
//! Numbers outside the unsigned 64-bit range carry no information the
//! ingestor reads and are modelled as null.

use vstd::prelude::*;
use crate::strutil::str_eq;

verus! {

/// One node of an untrusted document.
pub enum JsonValue {
    /// Null, or a number the ingestor cannot read.
    Null,
    /// A boolean.
    Bool(bool),
    /// An unsigned number.
    UInt(u64),
    /// A string.
    Str(String),
    /// An array of values.
    Arr(Vec<JsonValue>),
    /// An object: named fields in document order.
    Obj(Vec<(String, JsonValue)>),
}

/// The first value stored under `key`, searching in order.
pub open spec fn spec_obj_lookup(fields: Seq<(String, JsonValue)>, key: Seq<char>) -> Option<
    JsonValue,
>
    decreases fields.len(),
{
    if fields.len() == 0 {
        None
    } else if fields[0].0@ == key {
        Some(fields[0].1)
    } else {
        spec_obj_lookup(fields.drop_first(), key)
    }
}

/// The field `key` of `v`, when `v` is an object that has it.
pub open spec fn spec_get(v: JsonValue, key: Seq<char>) -> Option<JsonValue> {
    match v {
        JsonValue::Obj(fields) => spec_obj_lookup(fields@, key),
        _ => None,
    }
}

/// Look a field up in an object's field list.
pub fn obj_lookup<'a>(fields: &'a Vec<(String, JsonValue)>, key: &str) -> (r: Option<
    &'a JsonValue,
>)
    ensures
        match r {
            Some(v) => spec_obj_lookup(fields@, key@) == Some(*v),
            None => spec_obj_lookup(fields@, key@) is None,
        },
{
    let n = fields.len();
    let mut i: usize = 0;
    proof {
        assert(fields@.subrange(0, n as int) =~= fields@);
    }
    while i < n
        invariant
            n == fields@.len(),
            0 <= i <= n,
            spec_obj_lookup(fields@.subrange(i as int, n as int), key@) == spec_obj_lookup(
                fields@,
                key@,
            ),
        decreases n - i,
    {
        proof {
            assert(fields@.subrange(i as int, n as int).drop_first() =~= fields@.subrange(
                i + 1,
                n as int,
            ));
        }
        if str_eq(fields[i].0.as_str(), key) {
            return Some(&fields[i].1);
        }
        i += 1;
    }
    None
}

/// The field `key` of `v`, when `v` is an object that has it.
pub fn json_get<'a>(v: &'a JsonValue, key: &str) -> (r: Option<&'a JsonValue>)
    ensures
        match r {
            Some(x) => spec_get(*v, key@) == Some(*x),
            None => spec_get(*v, key@) is None,
        },
{
    match v {
        JsonValue::Obj(fields) => obj_lookup(fields, key),
        _ => None,
    }
}

} // verus!
