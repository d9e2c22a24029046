//! `leviathan.settings`: how a settings update is merged into the current
//! values, and how stored values are cut down to the keys a schema
//! declares.

use vstd::prelude::*;
use crate::commands::{entry_views, entries_match, put, put_entry, lemma_put_preserves_match};
use crate::json::{JsonValue, object_get, object_lookup, json_copy};

verus! {

/// `cur` with the entries of `inc` put in one after another.
pub open spec fn merge_spec(cur: Seq<(Seq<char>, JsonValue)>, inc: Seq<(Seq<char>, JsonValue)>) -> Seq<(Seq<char>, JsonValue)>
    decreases inc.len(),
{
    if inc.len() == 0 {
        cur
    } else {
        put(merge_spec(cur, inc.drop_last()), inc.last().0, inc.last().1)
    }
}

/// A settings update: when both are tables, every key of `incoming` set on
/// `current`; otherwise `incoming` replaces `current` whole.
pub fn merge_object(current: JsonValue, incoming: JsonValue) -> (r: JsonValue)
    ensures
        match (current, incoming) {
            (JsonValue::Object(c), JsonValue::Object(i)) => r matches JsonValue::Object(m)
                && entry_views(m@) == merge_spec(entry_views(c@), entry_views(i@)),
            _ => r == incoming,
        },
{
    match current {
        JsonValue::Object(c) => match incoming {
            JsonValue::Object(inc) => {
                let mut out = c;
                let mut rest = inc;
                let ghost cv = entry_views(out@);
                let ghost iv = entry_views(rest@);
                let n: usize = rest.len();
                let mut k: usize = 0;
                while rest.len() > 0
                    invariant
                        k + rest@.len() == n,
                        iv.len() == n,
                        entry_views(rest@) == iv.subrange(k as int, n as int),
                        entry_views(out@) == merge_spec(cv, iv.take(k as int)),
                    decreases rest@.len(),
                {
                    let ghost before = rest@;
                    let (key, v) = rest.remove(0);
                    proof {
                        assert(entry_views(before)[0] == iv[k as int]);
                        assert(iv.take(k + 1).drop_last() =~= iv.take(k as int));
                        assert(iv.take(k + 1).last() == iv[k as int]);
                        assert(entry_views(rest@) =~= entry_views(before).drop_first());
                        assert(iv.subrange(k + 1, n as int) =~= iv.subrange(k as int, n as int).drop_first());
                    }
                    put_entry(&mut out, key, v);
                    k += 1;
                }
                assert(iv.take(n as int) =~= iv);
                JsonValue::Object(out)
            },
            other => other,
        },
        _ => incoming,
    }
}

/// The entries of `values` whose keys the schema `schema` declares, in the
/// schema's order.
pub open spec fn prune_spec(schema: Seq<(String, JsonValue)>, values: Seq<(String, JsonValue)>) -> Seq<(Seq<char>, JsonValue)>
    decreases schema.len(),
{
    if schema.len() == 0 {
        Seq::empty()
    } else {
        let acc = prune_spec(schema.drop_last(), values);
        let k = schema.last().0@;
        match object_get(values, k) {
            Some(v) => put(acc, k, v),
            None => acc,
        }
    }
}

/// Keep of `values` only the keys `schema` declares. A schema that is not
/// a table gives `fallback` (the default values of an empty settings
/// file); values that are not a table give an empty table.
pub fn prune_to_schema(schema: &JsonValue, values: &JsonValue, fallback: JsonValue) -> (r: JsonValue)
    ensures
        match *schema {
            JsonValue::Object(s) => match *values {
                JsonValue::Object(v) => r matches JsonValue::Object(m) && entries_match(entry_views(m@), prune_spec(s@, v@)),
                _ => r matches JsonValue::Object(m) && m@.len() == 0,
            },
            _ => r == fallback,
        },
{
    let s = match schema {
        JsonValue::Object(s) => s,
        _ => return fallback,
    };
    let v = match values {
        JsonValue::Object(v) => v,
        _ => return JsonValue::Object(Vec::new()),
    };
    let mut out: Vec<(String, JsonValue)> = Vec::new();
    let mut i: usize = 0;
    assert(s@.take(0) =~= Seq::<(String, JsonValue)>::empty());
    assert(entry_views(out@) =~= Seq::<(Seq<char>, JsonValue)>::empty());
    while i < s.len()
        invariant
            i <= s@.len(),
            entries_match(entry_views(out@), prune_spec(s@.take(i as int), v@)),
        decreases s@.len() - i,
    {
        let key = &s[i].0;
        let ghost acc = prune_spec(s@.take(i as int), v@);
        proof {
            assert(s@.take(i + 1).drop_last() =~= s@.take(i as int));
            assert(s@.take(i + 1).last() == s@[i as int]);
        }
        match object_lookup(v, key.as_str()) {
            Some(x) => {
                let copy = x.duplicate();
                let ghost before = entry_views(out@);
                put_entry(&mut out, key.clone(), copy);
                proof {
                    lemma_put_preserves_match(before, acc, key@, copy, *x);
                }
            },
            None => {},
        }
        i += 1;
    }
    assert(s@.take(s@.len() as int) =~= s@);
    JsonValue::Object(out)
}

} // verus!
