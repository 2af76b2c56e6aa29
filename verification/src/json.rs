use vstd::prelude::*;
use crate::text::str_eq;

verus! {

/// A JSON number, as the payload holds it: a non-negative integer, a
/// negative integer, or a floating-point number carried by its display text.
///
/// `serde_json` holds every non-negative integer as `PosInt` and only negative
/// ones as `NegInt`; a `NegInt` with a non-negative value is accepted here and
/// read as `serde_json` would read it (see [`canonical_number`]).
pub enum JsonNumber {
    PosInt(u64),
    NegInt(i64),
    Float(String),
}

/// A JSON document tree.  An object keeps its members in order; a lookup by
/// key finds the first member with that key.
///
/// A document parsed by `serde_json` never holds the same key twice in one
/// object; a tree built by hand may, and then the first member counts.
/// [`from_serde_json`] says which trees `serde_json` can produce.
pub enum JsonValue {
    Null,
    Bool(bool),
    Number(JsonNumber),
    String(String),
    Array(Vec<JsonValue>),
    Object(Vec<(String, JsonValue)>),
}

/// How `serde_json` holds an integer: `NegInt` only for negative values.
pub open spec fn canonical_number(n: JsonNumber) -> bool {
    match n {
        JsonNumber::NegInt(i) => i < 0,
        _ => true,
    }
}

/// No key occurs twice among `members`.
pub open spec fn distinct_keys(members: Seq<(String, JsonValue)>) -> bool {
    forall|i: int, j: int|
        0 <= i < j < members.len() ==> #[trigger] members[i].0@ != #[trigger] members[j].0@
}

/// A tree of the shape `serde_json` produces: canonical integers and objects
/// without repeated keys, at every level.
pub open spec fn from_serde_json(v: JsonValue) -> bool
    decreases v,
{
    match v {
        JsonValue::Number(n) => canonical_number(n),
        JsonValue::Array(items) => forall|i: int|
            0 <= i < items@.len() ==> from_serde_json(#[trigger] items@[i]),
        JsonValue::Object(members) => distinct_keys(members@) && forall|i: int|
            0 <= i < members@.len() ==> from_serde_json(#[trigger] members@[i].1),
        _ => true,
    }
}

/// The value of the first member named `key` among `members`.
pub open spec fn member_lookup(members: Seq<(String, JsonValue)>, key: Seq<char>) -> Option<JsonValue>
    decreases members.len(),
{
    if members.len() == 0 {
        None
    } else if members[0].0@ == key {
        Some(members[0].1)
    } else {
        member_lookup(members.drop_first(), key)
    }
}

/// The member `key` of an object; nothing for any other value.
pub open spec fn spec_get(v: JsonValue, key: Seq<char>) -> Option<JsonValue> {
    match v {
        JsonValue::Object(members) => member_lookup(members@, key),
        _ => None,
    }
}

proof fn lemma_member_lookup_distinct(members: Seq<(String, JsonValue)>, i: int)
    requires
        distinct_keys(members),
        0 <= i < members.len(),
    ensures
        member_lookup(members, members[i].0@) == Some(members[i].1),
    decreases members.len(),
{
    if i > 0 {
        let rest = members.drop_first();
        assert(members[0].0@ != members[i].0@);
        assert(rest[i - 1] == members[i]);
        assert forall|a: int, b: int| 0 <= a < b < rest.len() implies #[trigger] rest[a].0@
            != #[trigger] rest[b].0@ by {
            assert(rest[a] == members[a + 1]);
            assert(rest[b] == members[b + 1]);
        }
        lemma_member_lookup_distinct(rest, i - 1);
    }
}

/// In an object of the shape `serde_json` produces, looking up a member's key
/// gives that member's value, wherever the member stands.
pub proof fn lookup_finds_each_member(members: Vec<(String, JsonValue)>, i: int)
    requires
        from_serde_json(JsonValue::Object(members)),
        0 <= i < members@.len(),
    ensures
        spec_get(JsonValue::Object(members), members@[i].0@) == Some(members@[i].1),
{
    lemma_member_lookup_distinct(members@, i);
}

/// The member `key` of an optional value.
pub open spec fn spec_get_opt(v: Option<JsonValue>, key: Seq<char>) -> Option<JsonValue> {
    match v {
        Some(x) => spec_get(x, key),
        None => None,
    }
}

pub open spec fn spec_as_str(v: Option<JsonValue>) -> Option<Seq<char>> {
    match v {
        Some(JsonValue::String(s)) => Some(s@),
        _ => None,
    }
}

pub open spec fn spec_as_bool(v: Option<JsonValue>) -> Option<bool> {
    match v {
        Some(JsonValue::Bool(b)) => Some(b),
        _ => None,
    }
}

/// A number that is a non-negative integer.
pub open spec fn spec_as_u64(v: Option<JsonValue>) -> Option<u64> {
    match v {
        Some(JsonValue::Number(JsonNumber::PosInt(n))) => Some(n),
        _ => None,
    }
}

/// A number that is an integer within the range of `i64`.
pub open spec fn spec_as_i64(v: Option<JsonValue>) -> Option<i64> {
    match v {
        Some(JsonValue::Number(JsonNumber::PosInt(n))) => if n <= i64::MAX { Some(n as i64) } else { None },
        Some(JsonValue::Number(JsonNumber::NegInt(n))) => Some(n),
        _ => None,
    }
}

pub open spec fn spec_as_array(v: Option<JsonValue>) -> Option<Seq<JsonValue>> {
    match v {
        Some(JsonValue::Array(items)) => Some(items@),
        _ => None,
    }
}

/// The string member `key`, if there is one.
pub open spec fn string_member(v: JsonValue, key: Seq<char>) -> Option<Seq<char>> {
    spec_as_str(spec_get(v, key))
}

pub open spec fn u64_member(v: JsonValue, key: Seq<char>) -> Option<u64> {
    spec_as_u64(spec_get(v, key))
}

pub open spec fn bool_member(v: JsonValue, key: Seq<char>) -> Option<bool> {
    spec_as_bool(spec_get(v, key))
}

pub open spec fn array_member(v: JsonValue, key: Seq<char>) -> Option<Seq<JsonValue>> {
    spec_as_array(spec_get(v, key))
}

/// The characters of an optional string.
pub open spec fn opt_view(o: Option<&str>) -> Option<Seq<char>> {
    match o {
        Some(s) => Some(s@),
        None => None,
    }
}

/// An optional reference seen as an optional value.
pub open spec fn opt_deref(o: Option<&JsonValue>) -> Option<JsonValue> {
    match o {
        Some(v) => Some(*v),
        None => None,
    }
}

impl JsonValue {
    /// The member `key` of an object.
    pub fn get(&self, key: &str) -> (r: Option<&JsonValue>)
        ensures
            opt_deref(r) == spec_get(*self, key@),
    {
        match self {
            JsonValue::Object(members) => {
                let n = members.len();
                let mut i: usize = 0;
                assert(members@.skip(0) =~= members@);
                while i < n
                    invariant
                        n == members@.len(),
                        i <= n,
                        spec_get(*self, key@) == member_lookup(members@.skip(i as int), key@),
                    decreases n - i,
                {
                    let entry = &members[i];
                    assert(members@.skip(i as int)[0] == members@[i as int]);
                    if str_eq(entry.0.as_str(), key) {
                        return Some(&entry.1);
                    }
                    assert(members@.skip(i as int).drop_first() =~= members@.skip(i + 1));
                    i = i + 1;
                }
                None
            },
            _ => None,
        }
    }

    pub fn as_str(&self) -> (r: Option<&str>)
        ensures
            opt_view(r) == spec_as_str(Some(*self)),
    {
        match self {
            JsonValue::String(s) => Some(s.as_str()),
            _ => None,
        }
    }

    pub fn as_bool(&self) -> (r: Option<bool>)
        ensures
            r == spec_as_bool(Some(*self)),
    {
        match self {
            JsonValue::Bool(b) => Some(*b),
            _ => None,
        }
    }

    pub fn as_u64(&self) -> (r: Option<u64>)
        ensures
            r == spec_as_u64(Some(*self)),
    {
        match self {
            JsonValue::Number(JsonNumber::PosInt(n)) => Some(*n),
            _ => None,
        }
    }

    pub fn as_i64(&self) -> (r: Option<i64>)
        ensures
            r == spec_as_i64(Some(*self)),
    {
        match self {
            JsonValue::Number(JsonNumber::PosInt(n)) => {
                if *n <= i64::MAX as u64 {
                    Some(*n as i64)
                } else {
                    None
                }
            },
            JsonValue::Number(JsonNumber::NegInt(n)) => Some(*n),
            _ => None,
        }
    }

    pub fn as_array(&self) -> (r: Option<&Vec<JsonValue>>)
        ensures
            match r {
                Some(items) => spec_as_array(Some(*self)) == Some(items@),
                None => spec_as_array(Some(*self)) is None,
            },
    {
        match self {
            JsonValue::Array(items) => Some(items),
            _ => None,
        }
    }
}

/// The string member `key` of `v`, if there is one.
pub fn string_value<'a>(v: &'a JsonValue, key: &str) -> (r: Option<&'a str>)
    ensures
        opt_view(r) == string_member(*v, key@),
{
    match v.get(key) {
        Some(x) => x.as_str(),
        None => None,
    }
}

pub fn u64_value(v: &JsonValue, key: &str) -> (r: Option<u64>)
    ensures
        r == u64_member(*v, key@),
{
    match v.get(key) {
        Some(x) => x.as_u64(),
        None => None,
    }
}

pub fn bool_value(v: &JsonValue, key: &str) -> (r: Option<bool>)
    ensures
        r == bool_member(*v, key@),
{
    match v.get(key) {
        Some(x) => x.as_bool(),
        None => None,
    }
}

pub fn array_value<'a>(v: &'a JsonValue, key: &str) -> (r: Option<&'a Vec<JsonValue>>)
    ensures
        match r {
            Some(items) => array_member(*v, key@) == Some(items@),
            None => array_member(*v, key@) is None,
        },
{
    match v.get(key) {
        Some(x) => x.as_array(),
        None => None,
    }
}

} // verus!
