//! JSON values as the command layer reads them. Integers (what
//! `serde_json` calls `i64`/`u64` numbers) are kept exactly; any other
//! number is kept as its decimal text. An `Integer` beyond the `i64` and
//! `u64` ranges is one JSON can only carry as an inexact number, and it
//! counts as a number that is not an integer.

use vstd::prelude::*;
use crate::text::str_to_string;

verus! {

#[derive(Debug)]
pub enum JsonValue {
    Null,
    Bool(bool),
    Integer(i128),
    Number(String),
    Str(String),
    Array(Vec<JsonValue>),
    Object(Vec<(String, JsonValue)>),
}

/// A JSON value as plain mathematical values, all the way down.
pub enum JsonV {
    Null,
    Bool(bool),
    Integer(i128),
    Number(Seq<char>),
    Str(Seq<char>),
    Array(Seq<JsonV>),
    Object(Seq<(Seq<char>, JsonV)>),
}

/// `v` as plain values.
pub open spec fn json_view(v: JsonValue) -> JsonV
    decreases v,
{
    match v {
        JsonValue::Null => JsonV::Null,
        JsonValue::Bool(b) => JsonV::Bool(b),
        JsonValue::Integer(n) => JsonV::Integer(n),
        JsonValue::Number(t) => JsonV::Number(t@),
        JsonValue::Str(t) => JsonV::Str(t@),
        JsonValue::Array(items) => {
            proof {
                vstd::std_specs::vec::axiom_vec_decreases_to_view(items);
            }
            JsonV::Array(json_views(items@))
        },
        JsonValue::Object(entries) => {
            proof {
                vstd::std_specs::vec::axiom_vec_decreases_to_view(entries);
            }
            JsonV::Object(entry_json_views(entries@))
        },
    }
}

/// An optional value as plain values.
pub open spec fn opt_json_view(o: Option<JsonValue>) -> Option<JsonV> {
    match o {
        Some(v) => Some(json_view(v)),
        None => None,
    }
}

/// Each item of `s` as plain values.
pub open spec fn json_views(s: Seq<JsonValue>) -> Seq<JsonV>
    decreases s,
{
    if s.len() == 0 {
        Seq::empty()
    } else {
        json_views(s.drop_last()).push(json_view(s[s.len() - 1]))
    }
}

/// Each entry of `s` as plain values.
pub open spec fn entry_json_views(s: Seq<(String, JsonValue)>) -> Seq<(Seq<char>, JsonV)>
    decreases s,
{
    if s.len() == 0 {
        Seq::empty()
    } else {
        entry_json_views(s.drop_last()).push((s[s.len() - 1].0@, json_view(s[s.len() - 1].1)))
    }
}

/// Keys of an object, in order.
pub open spec fn object_keys(m: Seq<(String, JsonValue)>) -> Seq<Seq<char>> {
    m.map_values(|e: (String, JsonValue)| e.0@)
}

/// Value of the first entry named `k`, if any.
pub open spec fn object_get(m: Seq<(String, JsonValue)>, k: Seq<char>) -> Option<JsonValue>
    decreases m.len(),
{
    if m.len() == 0 {
        None
    } else if m[0].0@ == k {
        Some(m[0].1)
    } else {
        object_get(m.drop_first(), k)
    }
}

pub open spec fn json_kind_spec(v: JsonValue) -> Seq<char> {
    match v {
        JsonValue::Null => "nil"@,
        JsonValue::Bool(_) => "boolean"@,
        JsonValue::Integer(n) => if json_int(n) { "integer"@ } else { "number"@ },
        JsonValue::Number(_) => "number"@,
        JsonValue::Str(_) => "string"@,
        JsonValue::Array(_) => "array"@,
        JsonValue::Object(_) => "table"@,
    }
}

/// The kind a value is reported as: `nil`, `boolean`, `string`,
/// `array`, `table`; `integer` for an integer in the `i64` or `u64`
/// range and `number` for any other number.
pub proof fn lemma_json_kind(v: JsonValue)
    ensures
        v is Null ==> json_kind_spec(v) == "nil"@,
        v is Bool ==> json_kind_spec(v) == "boolean"@,
        v is Str ==> json_kind_spec(v) == "string"@,
        v is Array ==> json_kind_spec(v) == "array"@,
        v is Object ==> json_kind_spec(v) == "table"@,
        v is Number ==> json_kind_spec(v) == "number"@,
        v is Integer ==> json_kind_spec(v) == (if i64::MIN <= v->Integer_0 && v->Integer_0 <= u64::MAX {
            "integer"@
        } else {
            "number"@
        }),
{
}

/// A scalar: null, a boolean, a number or a string.
pub open spec fn is_scalar(v: JsonValue) -> bool {
    !(v is Array) && !(v is Object)
}

/// `a` is a copy of `b`: the same value all the way down (and the very
/// same value where `b` is a scalar).
pub open spec fn json_copy(a: JsonValue, b: JsonValue) -> bool {
    &&& json_view(a) == json_view(b)
    &&& is_scalar(b) ==> a == b
}

/// A JSON string holding `s`.
pub fn str_json(s: &str) -> (r: JsonValue)
    ensures
        json_view(r) == JsonV::Str(s@),
{
    JsonValue::Str(str_to_string(s))
}

/// Append the entry `key: value` to an object's entries.
pub fn put_field(fields: &mut Vec<(String, JsonValue)>, key: &str, value: JsonValue)
    ensures
        entry_json_views(final(fields)@) == entry_json_views(old(fields)@).push((key@, json_view(value))),
{
    let ghost before = fields@;
    fields.push((str_to_string(key), value));
    assert(fields@.drop_last() == before);
}

impl JsonValue {
    /// A deep copy of `self`.
    pub fn duplicate(&self) -> (r: JsonValue)
        ensures
            json_copy(r, *self),
        decreases self,
    {
        match self {
            JsonValue::Null => JsonValue::Null,
            JsonValue::Bool(b) => JsonValue::Bool(*b),
            JsonValue::Integer(n) => JsonValue::Integer(*n),
            JsonValue::Number(t) => JsonValue::Number(t.clone()),
            JsonValue::Str(t) => JsonValue::Str(t.clone()),
            JsonValue::Array(items) => {
                let mut out: Vec<JsonValue> = Vec::new();
                let mut i: usize = 0;
                while i < items.len()
                    invariant
                        i <= items.len(),
                        *self == JsonValue::Array(*items),
                        json_views(out@) == json_views(items@.take(i as int)),
                    decreases items.len() - i,
                {
                    proof {
                        vstd::std_specs::vec::axiom_vec_index_decreases(*items, i as int);
                        assert(decreases_to!(*self => self->Array_0));
                    }
                    let x = items[i].duplicate();
                    let ghost before = out@;
                    out.push(x);
                    proof {
                        assert(out@.drop_last() =~= before);
                        assert(items@.take(i + 1).drop_last() =~= items@.take(i as int));
                    }
                    i += 1;
                }
                assert(items@.take(items@.len() as int) =~= items@);
                JsonValue::Array(out)
            },
            JsonValue::Object(entries) => {
                let mut out: Vec<(String, JsonValue)> = Vec::new();
                let mut i: usize = 0;
                while i < entries.len()
                    invariant
                        i <= entries.len(),
                        *self == JsonValue::Object(*entries),
                        entry_json_views(out@) == entry_json_views(entries@.take(i as int)),
                        object_keys(out@) == object_keys(entries@.take(i as int)),
                    decreases entries.len() - i,
                {
                    proof {
                        vstd::std_specs::vec::axiom_vec_index_decreases(*entries, i as int);
                        assert(decreases_to!(*self => self->Object_0));
                        assert(decreases_to!(entries[i as int] => entries[i as int].1));
                    }
                    let v = entries[i].1.duplicate();
                    let ghost before = out@;
                    out.push((entries[i].0.clone(), v));
                    proof {
                        assert(out@.drop_last() =~= before);
                        assert(entries@.take(i + 1).drop_last() =~= entries@.take(i as int));
                        assert(object_keys(out@) =~= object_keys(before).push(out@[i as int].0@));
                        assert(object_keys(entries@.take(i + 1)) =~= object_keys(entries@.take(i as int)).push(entries@[i as int].0@));
                        assert(object_keys(out@) =~= object_keys(entries@.take(i + 1)));
                    }
                    i += 1;
                }
                assert(entries@.take(entries@.len() as int) =~= entries@);
                assert(object_keys(out@) =~= object_keys(entries@));
                JsonValue::Object(out)
            },
        }
    }
}

/// `nil`, `boolean`, `integer`, `number`, `string`, `array` or `table`.
/// `n` is an integer JSON can carry as one: within the range of `i64`
/// or of `u64`. Larger magnitudes only come as (inexact) numbers.
pub open spec fn json_int(n: i128) -> bool {
    i64::MIN <= n && n <= u64::MAX
}

pub fn is_json_int(n: i128) -> (r: bool)
    ensures
        r == json_int(n),
{
    -9223372036854775808i128 <= n && n <= 18446744073709551615i128
}

pub fn json_kind(value: &JsonValue) -> (r: &'static str)
    ensures
        r@ == json_kind_spec(*value),
{
    match value {
        JsonValue::Null => "nil",
        JsonValue::Bool(_) => "boolean",
        JsonValue::Integer(n) => if is_json_int(*n) { "integer" } else { "number" },
        JsonValue::Number(_) => "number",
        JsonValue::Str(_) => "string",
        JsonValue::Array(_) => "array",
        JsonValue::Object(_) => "table",
    }
}

/// The first entry named `k` is at `i` when no earlier entry has that name.
pub proof fn lemma_object_get_at(m: Seq<(String, JsonValue)>, k: Seq<char>, i: int)
    requires
        0 <= i < m.len(),
        m[i].0@ == k,
        forall|j: int| 0 <= j < i ==> (#[trigger] m[j]).0@ != k,
    ensures
        object_get(m, k) == Some(m[i].1),
    decreases i,
{
    if i > 0 {
        assert(m[0].0@ != k);
        assert forall|j: int| 0 <= j < i - 1 implies (#[trigger] m.drop_first()[j]).0@ != k by {
            assert(m.drop_first()[j] == m[j + 1]);
        }
        lemma_object_get_at(m.drop_first(), k, i - 1);
    }
}

/// Value of the first entry named `key`.
pub fn object_lookup<'a>(m: &'a Vec<(String, JsonValue)>, key: &str) -> (r: Option<&'a JsonValue>)
    ensures
        match r {
            Some(v) => object_get(m@, key@) == Some(*v),
            None => object_get(m@, key@) is None,
        },
{
    let mut i: usize = 0;
    assert(m@.subrange(0, m.len() as int) == m@);
    while i < m.len()
        invariant
            i <= m.len(),
            object_get(m@, key@) == object_get(m@.subrange(i as int, m.len() as int), key@),
        decreases m.len() - i,
    {
        let ghost rest = m@.subrange(i as int, m.len() as int);
        assert(rest[0] == m@[i as int]);
        if crate::text::str_eq(m[i].0.as_str(), key) {
            return Some(&m[i].1);
        }
        assert(rest.drop_first() == m@.subrange(i + 1, m.len() as int));
        i += 1;
    }
    None
}

} // verus!
