//! How UI slots, containers, render scopes and migration files are named.

use vstd::prelude::*;
use vstd::string::StrSliceExecFns;
use crate::text::{chars_of, str_to_string, str_concat, cat3, cat5, find_char, lemma_find_char_is, starts_with};

verus! {

/// `pane.section`, or `section` alone without a pane.
pub fn compose_container(pane: Option<&str>, section: &str) -> (r: String)
    ensures
        r@ == match pane {
            Some(p) => p@ + "."@ + section@,
            None => section@,
        },
{
    match pane {
        Some(p) => cat3(p, ".", section),
        None => str_to_string(section),
    }
}

/// `region:container:id`, the handle of a UI slot.
pub fn slot_handle(region: &str, container: &str, id: &str) -> (r: String)
    ensures
        r@ == region@ + ":"@ + container@ + ":"@ + id@,
{
    cat5(region, ":", container, ":", id)
}

/// `replace_slot` keeps a slot in its container: refused when the new
/// spec's container differs from the target's.
pub fn check_replace_container(region: &str, spec_container: &str, target_container: &str) -> (r: Result<(), String>)
    ensures
        match r {
            Ok(()) => spec_container@ == target_container@,
            Err(m) => spec_container@ != target_container@ && m@ == region@ + ".replace_slot: spec container '"@
                + spec_container@ + "' != target '"@ + target_container@ + "'"@,
        },
{
    if crate::text::str_eq(spec_container, target_container) {
        return Ok(());
    }
    let mut m = cat5(region, ".replace_slot: spec container '", spec_container, "' != target '", target_container);
    m.append("'");
    Err(m)
}

/// `region:container:id`, the target a slot request names.
pub fn slot_target(region: &str, container: &str, id: &str) -> (r: String)
    ensures
        r@ == region@ + ":"@ + container@ + ":"@ + id@,
{
    cat5(region, ":", container, ":", id)
}

/// Owner of slot `id` asked for by `requester_plugin_id`: ids under
/// `builtin.` belong to the built-in plugin `builtin_plugin_id`, all
/// others to the requester.
pub fn default_target_plugin_id(requester_plugin_id: &str, id: &str, builtin_plugin_id: &str) -> (r: String)
    ensures
        r@ == (if starts_with(id@, "builtin."@) { builtin_plugin_id@ } else { requester_plugin_id@ }),
{
    let v = chars_of(id);
    let p = chars_of("builtin.");
    proof {
        reveal_strlit("builtin.");
    }
    if crate::text::vec_starts_with(&v, &p) {
        str_to_string(builtin_plugin_id)
    } else {
        str_to_string(requester_plugin_id)
    }
}

/// The capabilities a plugin `own_plugin_id` needs to `op` (`remove`,
/// `replace`) slot `id` of `region`/`container` owned by `target_plugin_id`
/// beyond the region's own: none for its own slots; for a built-in slot
/// (owned by `builtin_plugin_id`, or unowned with an id under `builtin.`)
/// `ui:<op>:builtin` or the slot's own capability; for another plugin's
/// slot the slot's own capability `ui:<op>:<region>:<container>:<id>`.
/// Any one of them suffices.
pub open spec fn slot_mutation_caps_spec(
    op: Seq<char>,
    target_plugin_id: Option<Seq<char>>,
    own_plugin_id: Seq<char>,
    builtin_plugin_id: Seq<char>,
    region: Seq<char>,
    container: Seq<char>,
    id: Seq<char>,
) -> Seq<Seq<char>> {
    let is_builtin = target_plugin_id == Some(builtin_plugin_id) || (target_plugin_id is None && starts_with(id, "builtin."@));
    let is_other = match target_plugin_id {
        Some(o) => o != own_plugin_id && o != builtin_plugin_id,
        None => false,
    };
    let own_cap = "ui:"@ + op + ":"@ + region + ":"@ + container + ":"@ + id;
    if !is_builtin && !is_other {
        Seq::empty()
    } else if is_builtin {
        seq!["ui:"@ + op + ":builtin"@, own_cap]
    } else {
        seq![own_cap]
    }
}

pub fn slot_mutation_caps(
    op: &str,
    target_plugin_id: Option<&str>,
    own_plugin_id: &str,
    builtin_plugin_id: &str,
    region: &str,
    container: &str,
    id: &str,
) -> (r: Vec<String>)
    ensures
        crate::text::string_views(r@) == slot_mutation_caps_spec(
            op@,
            match target_plugin_id {
                Some(t) => Some(t@),
                None => None,
            },
            own_plugin_id@,
            builtin_plugin_id@,
            region@,
            container@,
            id@,
        ),
{
    let v = chars_of(id);
    let p = chars_of("builtin.");
    proof {
        reveal_strlit("builtin.");
    }
    let is_builtin = match target_plugin_id {
        Some(t) => crate::text::str_eq(t, builtin_plugin_id),
        None => crate::text::vec_starts_with(&v, &p),
    };
    let is_other = match target_plugin_id {
        Some(t) => !crate::text::str_eq(t, own_plugin_id) && !crate::text::str_eq(t, builtin_plugin_id),
        None => false,
    };
    let mut caps: Vec<String> = Vec::new();
    if !is_builtin && !is_other {
        assert(crate::text::string_views(caps@) =~= Seq::<Seq<char>>::empty());
        return caps;
    }
    let mut own = cat3("ui:", op, ":");
    own.append(region);
    own.append(":");
    own.append(container);
    own.append(":");
    own.append(id);
    if is_builtin {
        caps.push(cat3("ui:", op, ":builtin"));
    }
    caps.push(own);
    proof {
        let own_v = "ui:"@ + op@ + ":"@ + region@ + ":"@ + container@ + ":"@ + id@;
        if is_builtin {
            assert(crate::text::string_views(caps@) =~= seq!["ui:"@ + op@ + ":builtin"@, own_v]);
        } else {
            assert(crate::text::string_views(caps@) =~= seq![own_v]);
        }
    }
    caps
}

/// Index of the `(n + 1)`-th `.` of `s`.
pub open spec fn nth_dot(s: Seq<char>, n: nat) -> Option<int>
    decreases s.len(),
{
    let e = find_char(s, '.');
    if !(0 <= e < s.len()) {
        None
    } else if n == 0 {
        Some(e)
    } else {
        match nth_dot(s.subrange(e + 1, s.len() as int), (n - 1) as nat) {
            Some(j) => Some(e + 1 + j),
            None => None,
        }
    }
}

/// Index of the `(n + 1)`-th `.` of `s`, scanning from `from`, given
/// that `count` dots come before `from`.
proof fn lemma_nth_dot_scan(s: Seq<char>, n: nat, i: int)
    requires
        0 <= i <= s.len(),
        s[i] == '.' || i == s.len(),
        forall|k: int| 0 <= k < i ==> s[k] != '.',
    ensures
        n == 0 ==> nth_dot(s, n) == (if i < s.len() { Some(i) } else { None::<int> }),
        n > 0 && i < s.len() ==> nth_dot(s, n) == match nth_dot(s.subrange(i + 1, s.len() as int), (n - 1) as nat) {
            Some(j) => Some(i + 1 + j),
            None => None,
        },
        i == s.len() ==> nth_dot(s, n) is None,
{
    lemma_find_char_is(s, '.', i);
    crate::text::lemma_find_char_bounds(s, '.');
}

/// Split `s` at its `n`-th dot (counting from 1): the part before it and
/// the part after it; `(s, None)` when `s` has fewer dots.
pub fn nth_dot_split(s: &str, n: usize) -> (r: (&str, Option<&str>))
    requires
        n >= 1,
    ensures
        match nth_dot(s@, (n - 1) as nat) {
            Some(i) => r.0@ == s@.subrange(0, i) && (r.1 matches Some(t) && t@ == s@.subrange(i + 1, s@.len() as int)),
            None => r.0@ == s@ && r.1 is None,
        },
{
    let v = chars_of(s);
    let mut seen: usize = 0;
    let mut i: usize = 0;
    let ghost mut start: int = 0;
    assert(s@.subrange(0, s@.len() as int) =~= s@);
    while i < v.len()
        invariant
            i <= v.len(),
            v@ == s@,
            seen < n,
            0 <= start <= i,
            nth_dot(s@, (n - 1) as nat) == match nth_dot(s@.subrange(start, s@.len() as int), (n - 1 - seen) as nat) {
                Some(j) => Some(start + j),
                None => None,
            },
            forall|k: int| start <= k < i ==> s@[k] != '.',
        decreases v.len() - i,
    {
        if v[i] == '.' {
            let ghost rest = s@.subrange(start, s@.len() as int);
            proof {
                assert forall|k: int| 0 <= k < i - start implies rest[k] != '.' by {
                    assert(rest[k] == s@[start + k]);
                }
                lemma_nth_dot_scan(rest, (n - 1 - seen) as nat, i - start);
                assert(rest.subrange(i - start + 1, rest.len() as int) =~= s@.subrange(i + 1, s@.len() as int));
            }
            if seen + 1 == n {
                let head = s.substring_char(0, i);
                let tail = s.substring_char(i + 1, v.len());
                return (head, Some(tail));
            }
            seen = seen + 1;
            proof {
                start = i + 1;
            }
        }
        i += 1;
    }
    proof {
        let rest = s@.subrange(start, s@.len() as int);
        assert forall|k: int| 0 <= k < rest.len() implies rest[k] != '.' by {
            assert(rest[k] == s@[start + k]);
        }
        lemma_nth_dot_scan(rest, (n - 1 - seen) as nat, rest.len() as int);
    }
    (s, None)
}

/// Which render scope a widget tree belongs to.
#[derive(Clone, Copy)]
pub enum DispatchScope<'a> {
    Screen { screen_id: &'a str },
    Slot { region: &'a str, container: &'a str, slot_id: &'a str },
    Overlay { overlay_id: &'a str },
}

impl<'a> DispatchScope<'a> {
    pub open spec fn key_spec(&self) -> Seq<char> {
        match *self {
            DispatchScope::Screen { screen_id } => "screen:"@ + screen_id@,
            DispatchScope::Slot { region, container, slot_id } => "slot:"@ + region@ + ":"@ + container@ + ":"@ + slot_id@,
            DispatchScope::Overlay { overlay_id } => "overlay:"@ + overlay_id@,
        }
    }

    /// A key unique to the scope, for host-side state such as split sizes.
    pub fn storage_key(&self) -> (r: String)
        ensures
            r@ == self.key_spec(),
    {
        match *self {
            DispatchScope::Screen { screen_id } => str_concat("screen:", screen_id),
            DispatchScope::Slot { region, container, slot_id } => {
                let mut r = cat5("slot:", region, ":", container, ":");
                r.append(slot_id);
                r
            },
            DispatchScope::Overlay { overlay_id } => str_concat("overlay:", overlay_id),
        }
    }
}

// ---------------------------------------------------------------------
// Migration file names

pub open spec fn is_digit(c: char) -> bool {
    '0' <= c && c <= '9'
}

/// The number written by decimal digits `s`.
pub open spec fn digits_value(s: Seq<char>) -> int
    decreases s.len(),
{
    if s.len() == 0 {
        0
    } else {
        digits_value(s.drop_last()) * 10 + ((s.last() as int) - ('0' as int))
    }
}

/// `s` without one leading `+`.
pub open spec fn unsigned_part(s: Seq<char>) -> Seq<char> {
    if s.len() > 0 && s[0] == '+' { s.drop_first() } else { s }
}

pub open spec fn all_digits(d: Seq<char>) -> bool {
    forall|i: int| 0 <= i < d.len() ==> is_digit(#[trigger] d[i])
}

/// `str::parse::<u32>`: an optional `+`, then at least one decimal digit,
/// and a value that fits.
pub open spec fn parse_u32(s: Seq<char>) -> Option<u32> {
    let d = unsigned_part(s);
    if d.len() > 0 && all_digits(d) && digits_value(d) <= u32::MAX {
        Some(digits_value(d) as u32)
    } else {
        None
    }
}

/// `s` without one leading `v`.
pub open spec fn strip_v(s: Seq<char>) -> Seq<char> {
    if s.len() > 0 && s[0] == 'v' { s.drop_first() } else { s }
}

/// Index of the first `_to_` in `s`.
pub open spec fn find_to(s: Seq<char>) -> Option<int>
    decreases s.len(),
{
    if s.len() < 4 {
        None
    } else if s.subrange(0, 4) == seq!['_', 't', 'o', '_'] {
        Some(0)
    } else {
        match find_to(s.drop_first()) {
            Some(i) => Some(i + 1),
            None => None,
        }
    }
}

/// The versions a migration file stem names: `1_to_2` and `v1_to_v2`
/// (either `v` optional) migrate from 1 to 2.
pub open spec fn migration_stem_spec(stem: Seq<char>) -> Option<(u32, u32)> {
    let s = strip_v(stem);
    match find_to(s) {
        None => None,
        Some(i) => match (parse_u32(s.subrange(0, i)), parse_u32(strip_v(s.subrange(i + 4, s.len() as int)))) {
            (Some(a), Some(b)) => Some((a, b)),
            _ => None,
        },
    }
}

proof fn lemma_digits_grow(s: Seq<char>, k: int)
    requires
        0 <= k <= s.len(),
        forall|i: int| 0 <= i < s.len() ==> is_digit(#[trigger] s[i]),
    ensures
        digits_value(s) >= digits_value(s.subrange(0, k)),
        digits_value(s) >= 0,
    decreases s.len(),
{
    if s.len() > 0 {
        let t = s.drop_last();
        assert forall|i: int| 0 <= i < t.len() implies is_digit(#[trigger] t[i]) by {
            assert(t[i] == s[i]);
        }
        if k == s.len() {
            assert(s.subrange(0, k) =~= s);
            lemma_digits_grow(t, 0);
        } else {
            lemma_digits_grow(t, k);
            assert(t.subrange(0, k) =~= s.subrange(0, k));
        }
    } else {
        assert(s.subrange(0, k) =~= s);
    }
}

fn parse_u32_chars(v: &Vec<char>, lo: usize, hi: usize) -> (r: Option<u32>)
    requires
        lo <= hi <= v.len(),
    ensures
        r == parse_u32(v@.subrange(lo as int, hi as int)),
{
    let ghost s = v@.subrange(lo as int, hi as int);
    let mut start = lo;
    if lo < hi && v[lo] == '+' {
        start = lo + 1;
    }
    let ghost d = v@.subrange(start as int, hi as int);
    assert(d == unsigned_part(s));
    if start == hi {
        return None;
    }
    let mut val: u64 = 0;
    let mut i: usize = start;
    while i < hi
        invariant
            lo <= start <= i <= hi <= v.len(),
            d == v@.subrange(start as int, hi as int),
            s == v@.subrange(lo as int, hi as int),
            d == unsigned_part(s),
            d.len() > 0,
            forall|k: int| start <= k < i ==> is_digit(#[trigger] v@[k]),
            val == digits_value(v@.subrange(start as int, i as int)),
            val <= u32::MAX,
        decreases hi - i,
    {
        let c = v[i];
        if !('0' <= c && c <= '9') {
            assert(d[i - start] == c);
            assert(!is_digit(d[i - start]));
            assert(!all_digits(d));
            assert(parse_u32(s) is None);
            return None;
        }
        let digit: u64 = (c as u64) - ('0' as u64);
        assert(v@.subrange(start as int, i + 1).drop_last() =~= v@.subrange(start as int, i as int));
        let next = val * 10 + digit;
        if next > 4294967295u64 {
            proof {
                let pre = v@.subrange(start as int, i + 1);
                assert(digits_value(pre) == next);
                if all_digits(d) {
                    lemma_digits_grow(d, i + 1 - start);
                    assert(d.subrange(0, i + 1 - start) =~= pre);
                    assert(digits_value(d) > u32::MAX);
                }
                assert(parse_u32(s) is None);
            }
            return None;
        }
        val = next;
        i += 1;
    }
    assert(v@.subrange(start as int, hi as int) =~= d);
    assert forall|k: int| 0 <= k < d.len() implies is_digit(#[trigger] d[k]) by {
        assert(d[k] == v@[start + k]);
    }
    Some(val as u32)
}

/// The `(from, to)` versions a migration file stem names.
pub fn parse_migration_stem(stem: &str) -> (r: Option<(u32, u32)>)
    ensures
        r == migration_stem_spec(stem@),
{
    let v = chars_of(stem);
    let n = v.len();
    let lo: usize = if n > 0 && v[0] == 'v' { 1 } else { 0 };
    let ghost s = v@.subrange(lo as int, n as int);
    assert(s == strip_v(stem@)) by {
        if n > 0 && v@[0] == 'v' {
            assert(s =~= stem@.drop_first());
        } else {
            assert(s =~= stem@);
        }
    }
    let mut i: usize = lo;
    let mut found = false;
    while !found && i < n && n - i >= 4
        invariant
            lo <= i <= n,
            n == v.len(),
            s == v@.subrange(lo as int, n as int),
            !found ==> find_to(s) == match find_to(v@.subrange(i as int, n as int)) {
                Some(j) => Some(i - lo + j),
                None => None::<int>,
            },
            found ==> i < n && n - i >= 4 && find_to(s) == Some(i - lo),
        decreases n - i + (if found { 0int } else { 1int }),
    {
        let ghost t = v@.subrange(i as int, n as int);
        if v[i] == '_' && v[i + 1] == 't' && v[i + 2] == 'o' && v[i + 3] == '_' {
            assert(t.subrange(0, 4) =~= seq!['_', 't', 'o', '_']);
            found = true;
        } else {
            assert(t.subrange(0, 4) != seq!['_', 't', 'o', '_']) by {
                if t.subrange(0, 4) == seq!['_', 't', 'o', '_'] {
                    assert(t.subrange(0, 4)[0] == '_' && t.subrange(0, 4)[1] == 't');
                    assert(t.subrange(0, 4)[2] == 'o' && t.subrange(0, 4)[3] == '_');
                }
            }
            assert(t.drop_first() =~= v@.subrange(i + 1, n as int));
            i += 1;
        }
    }
    if !found {
        assert(v@.subrange(i as int, n as int).len() < 4);
        return None;
    }
    let from = parse_u32_chars(&v, lo, i);
    assert(v@.subrange(lo as int, i as int) =~= s.subrange(0, i - lo));
    let mut to_lo = i + 4;
    if to_lo < n && v[to_lo] == 'v' {
        to_lo = to_lo + 1;
    }
    let to = parse_u32_chars(&v, to_lo, n);
    assert(v@.subrange(to_lo as int, n as int) =~= strip_v(s.subrange(i - lo + 4, s.len() as int))) by {
        let rest = s.subrange(i - lo + 4, s.len() as int);
        assert(rest =~= v@.subrange(i + 4, n as int));
        if i + 4 < n && v@[i + 4] == 'v' {
            assert(rest.drop_first() =~= v@.subrange(i + 5, n as int));
        }
    }
    match (from, to) {
        (Some(a), Some(b)) => Some((a, b)),
        _ => None,
    }
}

} // verus!
