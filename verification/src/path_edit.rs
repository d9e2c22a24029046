//! Text-level path edits as `std::path` performs them on Unix: parent,
//! join, prefix stripping, and replacing the extension or the file name.
//!
//! The results keep the caller's own spelling: `std::path` slices the
//! original text rather than rebuilding it from components, so a doubled
//! separator inside the kept part stays doubled. The specifications below
//! say which slice is kept: a path is a head (the root `/`, or a leading
//! `.` segment) followed by a body of `/`-separated segments, and the
//! edits drop whole segments from the front or the back of the body.

use vstd::prelude::*;
use crate::text::{chars_of, string_of};
use crate::paths::{
    body_comps, chars_start_with, comp_view_fn, components, components_of, first_sep,
    is_absolute_spec, join_spec, last_dot_index, lemma_first_sep_bounds, lemma_first_sep_is,
    path_starts_with, seg_comps, seq_dot, seq_dotdot, starts_with_cur_dir, stem_spec, CompV,
};

verus! {

/// Length of the head of `s`: 1 for a root or a leading `.` segment, else 0.
pub open spec fn head_len(s: Seq<char>) -> int {
    if is_absolute_spec(s) || starts_with_cur_dir(s) {
        1
    } else {
        0
    }
}

/// The text after the head.
pub open spec fn body_of(s: Seq<char>) -> Seq<char> {
    s.subrange(head_len(s), s.len() as int)
}

/// A segment that names no component: empty, or `.`.
pub open spec fn is_blank_seg(seg: Seq<char>) -> bool {
    seg.len() == 0 || seg == seq_dot()
}

/// Index of the last `/` in `t`, or -1 when there is none.
pub open spec fn last_sep(t: Seq<char>) -> int
    decreases t.len(),
{
    if t.len() == 0 {
        -1
    } else if t.last() == '/' {
        t.len() - 1
    } else {
        last_sep(t.drop_last())
    }
}

/// `t` without its leading blank segments (each taken with the separator
/// after it).
pub open spec fn lead_trim(t: Seq<char>) -> Seq<char>
    decreases t.len(),
{
    if t.len() == 0 {
        t
    } else {
        let e = first_sep(t);
        if is_blank_seg(t.subrange(0, e)) {
            if 0 <= e < t.len() {
                lead_trim(t.subrange(e + 1, t.len() as int))
            } else {
                Seq::empty()
            }
        } else {
            t
        }
    }
}

/// `t` without its trailing blank segments (each taken with the separator
/// before it).
pub open spec fn tail_trim(t: Seq<char>) -> Seq<char>
    decreases t.len(),
{
    if t.len() == 0 {
        t
    } else {
        let f = last_sep(t);
        if is_blank_seg(t.subrange(f + 1, t.len() as int)) {
            if 0 <= f < t.len() {
                tail_trim(t.subrange(0, f))
            } else {
                Seq::empty()
            }
        } else {
            t
        }
    }
}

/// The body text left after reading `k` components from the front of `t`.
pub open spec fn skip_comps(t: Seq<char>, k: nat) -> Seq<char>
    decreases k,
{
    if k == 0 {
        t
    } else {
        let u = lead_trim(t);
        let e = first_sep(u);
        if 0 <= e < u.len() {
            skip_comps(u.subrange(e + 1, u.len() as int), (k - 1) as nat)
        } else {
            Seq::empty()
        }
    }
}

/// The body of `s` without its trailing blank segments; its last segment
/// is the path's last component.
pub open spec fn trimmed_body(s: Seq<char>) -> Seq<char> {
    tail_trim(body_of(s))
}

/// The final component of `s` when it is a name (`Path::file_name`).
pub open spec fn last_name(s: Seq<char>) -> Option<Seq<char>> {
    let b = trimmed_body(s);
    if b.len() == 0 {
        None
    } else {
        let name = b.subrange(last_sep(b) + 1, b.len() as int);
        if name == seq_dotdot() {
            None
        } else {
            Some(name)
        }
    }
}

/// The text of `s` with its last component removed, as `Path::parent`
/// slices it (meaningful when the body is not empty).
pub open spec fn parent_raw(s: Seq<char>) -> Seq<char> {
    let b = trimmed_body(s);
    let f = last_sep(b);
    let rest = if f >= 0 {
        b.subrange(0, f)
    } else {
        Seq::<char>::empty()
    };
    s.subrange(0, head_len(s)) + tail_trim(rest)
}

/// `Path::parent`, with an empty parent read as none.
pub open spec fn parent_spec(s: Seq<char>) -> Option<Seq<char>> {
    if trimmed_body(s).len() == 0 || parent_raw(s).len() == 0 {
        None
    } else {
        Some(parent_raw(s))
    }
}

/// The text `Path::strip_prefix` keeps after `n` leading components.
pub open spec fn strip_text(s: Seq<char>, n: nat) -> Seq<char> {
    let h = head_len(s);
    if n == 0 {
        s.subrange(0, h) + tail_trim(body_of(s))
    } else {
        tail_trim(lead_trim(skip_comps(body_of(s), (n - h) as nat)))
    }
}

/// `path` relative to `base` when `base` is a component-wise prefix of it.
pub open spec fn relative_to_spec(path: Seq<char>, base: Seq<char>) -> Option<Seq<char>> {
    if path_starts_with(path, base) {
        Some(strip_text(path, components(base).len()))
    } else {
        None
    }
}

/// `Path::with_extension` on a path with a file name.
pub open spec fn with_extension_spec(s: Seq<char>, ext: Seq<char>) -> Option<Seq<char>> {
    match last_name(s) {
        None => None,
        Some(name) => {
            let b = trimmed_body(s);
            let kept = s.subrange(0, head_len(s)) + b.subrange(0, last_sep(b) + 1) + stem_spec(
                name,
            );
            Some(
                if ext.len() == 0 {
                    kept
                } else {
                    kept + seq!['.'] + ext
                },
            )
        },
    }
}

/// `Path::with_file_name` on a path with a file name.
pub open spec fn with_file_name_spec(s: Seq<char>, name: Seq<char>) -> Option<Seq<char>> {
    match last_name(s) {
        None => None,
        Some(_) => Some(join_spec(parent_raw(s), name)),
    }
}

proof fn lemma_last_sep_is(t: Seq<char>, f: int)
    requires
        -1 <= f < t.len(),
        f >= 0 ==> t[f] == '/',
        forall|k: int| f < k < t.len() ==> t[k] != '/',
    ensures
        last_sep(t) == f,
    decreases t.len(),
{
    if t.len() > 0 {
        if t.last() == '/' {
            if f < t.len() - 1 {
                assert(t[t.len() - 1] != '/');
            }
        } else {
            assert(f != t.len() - 1);
            let d = t.drop_last();
            assert forall|k: int| f < k < d.len() implies d[k] != '/' by {
                assert(d[k] == t[k]);
            }
            if f >= 0 {
                assert(d[f] == t[f]);
            }
            lemma_last_sep_is(d, f);
        }
    }
}

/// Head length of a path given as characters.
fn head_len_of(v: &Vec<char>) -> (h: usize)
    ensures
        h == head_len(v@),
        h <= v.len(),
{
    let n = v.len();
    if (n > 0 && v[0] == '/') || (n >= 1 && v[0] == '.' && (n == 1 || v[1] == '/')) {
        1
    } else {
        0
    }
}

/// Position of the first `/` in `v[lo..hi]` (`hi` when there is none).
fn first_sep_in(v: &Vec<char>, lo: usize, hi: usize) -> (e: usize)
    requires
        lo <= hi <= v.len(),
    ensures
        lo <= e <= hi,
        e - lo == first_sep(v@.subrange(lo as int, hi as int)),
{
    let mut j: usize = lo;
    while j < hi && v[j] != '/'
        invariant
            lo <= j <= hi <= v.len(),
            forall|k: int| lo <= k < j ==> v@[k] != '/',
        decreases hi - j,
    {
        j += 1;
    }
    proof {
        let t = v@.subrange(lo as int, hi as int);
        assert forall|k: int| 0 <= k < j - lo implies t[k] != '/' by {
            assert(t[k] == v@[lo + k]);
        }
        if j < hi {
            assert(t[j - lo] == v@[j as int]);
        }
        lemma_first_sep_is(t, (j - lo) as int);
    }
    j
}

/// Start of the last segment of `v[lo..hi]`: one past its last `/`, or `lo`.
fn last_seg_start(v: &Vec<char>, lo: usize, hi: usize) -> (p: usize)
    requires
        lo <= hi <= v.len(),
    ensures
        lo <= p <= hi,
        p - lo == last_sep(v@.subrange(lo as int, hi as int)) + 1,
{
    let mut j: usize = hi;
    while j > lo && v[j - 1] != '/'
        invariant
            lo <= j <= hi <= v.len(),
            forall|k: int| j <= k < hi ==> v@[k] != '/',
        decreases j - lo,
    {
        j -= 1;
    }
    proof {
        let t = v@.subrange(lo as int, hi as int);
        let f = j - lo - 1;
        assert forall|k: int| f < k < t.len() implies t[k] != '/' by {
            assert(t[k] == v@[lo + k]);
        }
        if f >= 0 {
            assert(t[f] == v@[j - 1]);
        }
        lemma_last_sep_is(t, f);
    }
    j
}

/// Whether `v[lo..hi]` is a blank segment.
fn blank_between(v: &Vec<char>, lo: usize, hi: usize) -> (r: bool)
    requires
        lo <= hi <= v.len(),
    ensures
        r == is_blank_seg(v@.subrange(lo as int, hi as int)),
{
    let ghost seg = v@.subrange(lo as int, hi as int);
    if lo == hi {
        true
    } else if hi - lo == 1 && v[lo] == '.' {
        assert(seg =~= seq_dot());
        true
    } else {
        assert(seg != seq_dot()) by {
            if seg == seq_dot() {
                assert(seg.len() == 1);
                assert(seg[0] == v@[lo as int]);
                assert(seq_dot()[0] == '.');
            }
        }
        false
    }
}

/// Start of `lead_trim(v[lo..hi])` within `v`.
fn lead_trim_in(v: &Vec<char>, lo: usize, hi: usize) -> (r: usize)
    requires
        lo <= hi <= v.len(),
    ensures
        lo <= r <= hi,
        v@.subrange(r as int, hi as int) == lead_trim(v@.subrange(lo as int, hi as int)),
{
    let mut i: usize = lo;
    while i < hi
        invariant
            lo <= i <= hi <= v.len(),
            lead_trim(v@.subrange(lo as int, hi as int)) == lead_trim(
                v@.subrange(i as int, hi as int),
            ),
        decreases hi - i,
    {
        let ghost t = v@.subrange(i as int, hi as int);
        let e = first_sep_in(v, i, hi);
        assert(t.subrange(0, e - i) == v@.subrange(i as int, e as int));
        if blank_between(v, i, e) {
            if e < hi {
                assert(t.subrange(e - i + 1, t.len() as int) == v@.subrange(e + 1, hi as int));
                i = e + 1;
            } else {
                assert(lead_trim(t) == Seq::<char>::empty());
                assert(v@.subrange(hi as int, hi as int) == Seq::<char>::empty());
                return hi;
            }
        } else {
            return i;
        }
    }
    i
}

/// End of `tail_trim(v[lo..hi])` within `v`.
fn tail_trim_in(v: &Vec<char>, lo: usize, hi: usize) -> (r: usize)
    requires
        lo <= hi <= v.len(),
    ensures
        lo <= r <= hi,
        v@.subrange(lo as int, r as int) == tail_trim(v@.subrange(lo as int, hi as int)),
{
    let mut j: usize = hi;
    while j > lo
        invariant
            lo <= j <= hi <= v.len(),
            tail_trim(v@.subrange(lo as int, hi as int)) == tail_trim(
                v@.subrange(lo as int, j as int),
            ),
        decreases j - lo,
    {
        let ghost t = v@.subrange(lo as int, j as int);
        let p = last_seg_start(v, lo, j);
        assert(t.subrange(p - lo, t.len() as int) == v@.subrange(p as int, j as int));
        if blank_between(v, p, j) {
            if p > lo {
                assert(t.subrange(0, p - lo - 1) == v@.subrange(lo as int, p - 1));
                j = p - 1;
            } else {
                assert(tail_trim(t) == Seq::<char>::empty());
                assert(v@.subrange(lo as int, lo as int) == Seq::<char>::empty());
                return lo;
            }
        } else {
            return j;
        }
    }
    j
}

/// Start of `skip_comps(v[lo..hi], k)` within `v`.
fn skip_comps_in(v: &Vec<char>, lo: usize, hi: usize, k: usize) -> (r: usize)
    requires
        lo <= hi <= v.len(),
    ensures
        lo <= r <= hi,
        v@.subrange(r as int, hi as int) == skip_comps(v@.subrange(lo as int, hi as int), k as nat),
{
    let mut i: usize = lo;
    let mut c: usize = k;
    while c > 0
        invariant
            lo <= i <= hi <= v.len(),
            skip_comps(v@.subrange(lo as int, hi as int), k as nat) == skip_comps(
                v@.subrange(i as int, hi as int),
                c as nat,
            ),
        decreases c,
    {
        let ghost t = v@.subrange(i as int, hi as int);
        let u = lead_trim_in(v, i, hi);
        let ghost uu = v@.subrange(u as int, hi as int);
        let e = first_sep_in(v, u, hi);
        if e < hi {
            assert(uu.subrange(e - u + 1, uu.len() as int) == v@.subrange(e + 1, hi as int));
            i = e + 1;
            c = c - 1;
        } else {
            assert(skip_comps(t, c as nat) == Seq::<char>::empty());
            assert(v@.subrange(hi as int, hi as int) == Seq::<char>::empty());
            assert(skip_comps(Seq::<char>::empty(), 0) == Seq::<char>::empty());
            i = hi;
            c = 0;
        }
    }
    i
}

/// Append `v[lo..hi]` to `out`.
fn push_range(out: &mut Vec<char>, v: &Vec<char>, lo: usize, hi: usize)
    requires
        lo <= hi <= v.len(),
    ensures
        final(out)@ == old(out)@ + v@.subrange(lo as int, hi as int),
{
    let ghost start = out@;
    let mut i: usize = lo;
    while i < hi
        invariant
            lo <= i <= hi <= v.len(),
            out@ == start + v@.subrange(lo as int, i as int),
        decreases hi - i,
    {
        out.push(v[i]);
        assert(v@.subrange(lo as int, i + 1) == v@.subrange(lo as int, i as int).push(v@[i as int]));
        i += 1;
    }
}

/// `path` begins at the root (`Path::is_absolute` on Unix).
pub fn is_absolute(path: &str) -> (r: bool)
    ensures
        r == is_absolute_spec(path@),
{
    let v = chars_of(path);
    v.len() > 0 && v[0] == '/'
}

/// `a` joined with `b` (`Path::join`): `b` itself when it is absolute,
/// otherwise `b` after `a` with one separator between them.
pub fn join_chars(a: &Vec<char>, b: &Vec<char>) -> (r: Vec<char>)
    ensures
        r@ == join_spec(a@, b@),
{
    if b.len() > 0 && b[0] == '/' {
        return b.clone();
    }
    let mut out = a.clone();
    if a.len() > 0 && a[a.len() - 1] != '/' {
        out.push('/');
    }
    push_range(&mut out, b, 0, b.len());
    assert(b@.subrange(0, b.len() as int) == b@);
    out
}

/// `Path::join` on strings.
pub fn join_path(a: &str, b: &str) -> (r: String)
    ensures
        r@ == join_spec(a@, b@),
{
    string_of(&join_chars(&chars_of(a), &chars_of(b)))
}

/// `path` without its last component (`Path::parent`); none for a root,
/// an empty path, or when nothing would be left.
pub fn parent(path: &str) -> (r: Option<String>)
    ensures
        match r {
            Some(s) => parent_spec(path@) == Some(s@),
            None => parent_spec(path@) is None,
        },
{
    let v = chars_of(path);
    let n = v.len();
    let h = head_len_of(&v);
    let bend = tail_trim_in(&v, h, n);
    let ghost b = v@.subrange(h as int, bend as int);
    if bend == h {
        return None;
    }
    let p = last_seg_start(&v, h, bend);
    let rest_end: usize = if p > h { p - 1 } else { h };
    assert(p > h ==> b.subrange(0, p - h - 1) == v@.subrange(h as int, rest_end as int));
    assert(p == h ==> v@.subrange(h as int, rest_end as int) == Seq::<char>::empty());
    let rend = tail_trim_in(&v, h, rest_end);
    assert(v@.subrange(0, h as int) + v@.subrange(h as int, rend as int) == v@.subrange(0, rend as int));
    if rend == 0 {
        return None;
    }
    let mut out: Vec<char> = Vec::new();
    push_range(&mut out, &v, 0, rend);
    Some(string_of(&out))
}

/// `path` with the components of `base` taken off its front
/// (`Path::strip_prefix`); none when `base` is not a component-wise
/// prefix of `path`.
pub fn relative_to(path: &str, base: &str) -> (r: Option<String>)
    ensures
        match r {
            Some(s) => relative_to_spec(path@, base@) == Some(s@),
            None => relative_to_spec(path@, base@) is None,
        },
{
    let v = chars_of(path);
    let bv = chars_of(base);
    if !chars_start_with(&v, &bv) {
        return None;
    }
    let bc = components_of(&bv);
    let nb = bc.len();
    assert(bc@.map_values(comp_view_fn()).len() == nb);
    let n = v.len();
    let h = head_len_of(&v);
    let mut out: Vec<char> = Vec::new();
    if nb == 0 {
        push_range(&mut out, &v, 0, h);
        let t = tail_trim_in(&v, h, n);
        push_range(&mut out, &v, h, t);
    } else {
        let s1 = skip_comps_in(&v, h, n, nb - h);
        let s2 = lead_trim_in(&v, s1, n);
        let t = tail_trim_in(&v, s2, n);
        push_range(&mut out, &v, s2, t);
    }
    Some(string_of(&out))
}

/// `path` with its file name's final extension replaced by `ext`, or
/// removed when `ext` is empty (`Path::with_extension`); none when the
/// path has no file name.
pub fn with_extension(path: &str, ext: &str) -> (r: Option<String>)
    requires
        !ext@.contains('/'),
    ensures
        match r {
            Some(s) => with_extension_spec(path@, ext@) == Some(s@),
            None => with_extension_spec(path@, ext@) is None,
        },
{
    let v = chars_of(path);
    let n = v.len();
    let h = head_len_of(&v);
    let bend = tail_trim_in(&v, h, n);
    let ghost b = v@.subrange(h as int, bend as int);
    if bend == h {
        return None;
    }
    let p = last_seg_start(&v, h, bend);
    assert(b.subrange(p - h, b.len() as int) == v@.subrange(p as int, bend as int));
    if bend - p == 2 && v[p] == '.' && v[p + 1] == '.' {
        assert(v@.subrange(p as int, bend as int) =~= seq_dotdot());
        return None;
    }
    let mut name: Vec<char> = Vec::new();
    push_range(&mut name, &v, p, bend);
    assert(name@ != seq_dotdot()) by {
        if name@ == seq_dotdot() {
            assert(name@[0] == v@[p as int] && name@[1] == v@[p + 1]);
        }
    }
    let mut out: Vec<char> = Vec::new();
    push_range(&mut out, &v, 0, p);
    assert(v@.subrange(0, p as int) == v@.subrange(0, h as int) + b.subrange(0, p - h));
    let stem_end: usize = match last_dot_index(&name) {
        Some(d) if d > 0 => d,
        _ => name.len(),
    };
    push_range(&mut out, &name, 0, stem_end);
    assert(name@.subrange(0, name.len() as int) == name@);
    assert(name@.subrange(0, stem_end as int) == stem_spec(name@));
    let ev = chars_of(ext);
    if ev.len() > 0 {
        out.push('.');
        push_range(&mut out, &ev, 0, ev.len());
        assert(ev@.subrange(0, ev.len() as int) == ev@);
    }
    Some(string_of(&out))
}

/// `path` with its file name replaced by `name` (`Path::with_file_name`);
/// none when the path has no file name.
pub fn with_file_name(path: &str, name: &str) -> (r: Option<String>)
    ensures
        match r {
            Some(s) => with_file_name_spec(path@, name@) == Some(s@),
            None => with_file_name_spec(path@, name@) is None,
        },
{
    let v = chars_of(path);
    let n = v.len();
    let h = head_len_of(&v);
    let bend = tail_trim_in(&v, h, n);
    let ghost b = v@.subrange(h as int, bend as int);
    if bend == h {
        return None;
    }
    let p = last_seg_start(&v, h, bend);
    assert(b.subrange(p - h, b.len() as int) == v@.subrange(p as int, bend as int));
    if bend - p == 2 && v[p] == '.' && v[p + 1] == '.' {
        assert(v@.subrange(p as int, bend as int) =~= seq_dotdot());
        return None;
    }
    assert(v@.subrange(p as int, bend as int) != seq_dotdot()) by {
        if v@.subrange(p as int, bend as int) == seq_dotdot() {
            assert(v@.subrange(p as int, bend as int)[0] == v@[p as int]);
            assert(v@.subrange(p as int, bend as int)[1] == v@[p + 1]);
        }
    }
    let rest_end: usize = if p > h { p - 1 } else { h };
    assert(p > h ==> b.subrange(0, p - h - 1) == v@.subrange(h as int, rest_end as int));
    assert(p == h ==> v@.subrange(h as int, rest_end as int) == Seq::<char>::empty());
    let rend = tail_trim_in(&v, h, rest_end);
    assert(v@.subrange(0, h as int) + v@.subrange(h as int, rend as int) == v@.subrange(0, rend as int));
    let mut parent_chars: Vec<char> = Vec::new();
    push_range(&mut parent_chars, &v, 0, rend);
    let joined = join_chars(&parent_chars, &chars_of(name));
    Some(string_of(&joined))
}

proof fn lemma_last_sep_bounds(t: Seq<char>)
    ensures
        -1 <= last_sep(t) < t.len(),
        last_sep(t) >= 0 ==> t[last_sep(t)] == '/',
        forall|k: int| last_sep(t) < k < t.len() ==> t[k] != '/',
    decreases t.len(),
{
    if t.len() > 0 && t.last() != '/' {
        let d = t.drop_last();
        lemma_last_sep_bounds(d);
        assert forall|k: int| last_sep(t) < k < t.len() implies t[k] != '/' by {
            if k < t.len() - 1 {
                assert(t[k] == d[k]);
            }
        }
        if last_sep(t) >= 0 {
            assert(t[last_sep(t)] == d[last_sep(d)]);
        }
    }
}

/// Components of body text do not see the text split at a separator.
proof fn lemma_body_comps_split(a: Seq<char>, b: Seq<char>)
    ensures
        body_comps(a + seq!['/'] + b) == body_comps(a) + body_comps(b),
    decreases a.len(),
{
    let s = a + seq!['/'] + b;
    lemma_first_sep_bounds(a);
    let e = first_sep(a);
    assert(s[a.len() as int] == '/');
    if e == a.len() {
        assert forall|k: int| 0 <= k < a.len() implies s[k] != '/' by {
            assert(s[k] == a[k]);
        }
        lemma_first_sep_is(s, a.len() as int);
        assert(s.subrange(0, a.len() as int) == a);
        assert(s.subrange(a.len() as int + 1, s.len() as int) == b);
        if a.len() == 0 {
            assert(seg_comps(a) == Seq::<CompV>::empty());
        }
    } else {
        assert forall|k: int| 0 <= k < e implies s[k] != '/' by {
            assert(s[k] == a[k]);
        }
        assert(s[e] == a[e]);
        lemma_first_sep_is(s, e);
        let a2 = a.subrange(e + 1, a.len() as int);
        assert(s.subrange(0, e) == a.subrange(0, e));
        assert(s.subrange(e + 1, s.len() as int) == a2 + seq!['/'] + b);
        lemma_body_comps_split(a2, b);
        assert(body_comps(a) == seg_comps(a.subrange(0, e)) + body_comps(a2));
        assert(seg_comps(a.subrange(0, e)) + (body_comps(a2) + body_comps(b)) == (seg_comps(
            a.subrange(0, e),
        ) + body_comps(a2)) + body_comps(b));
    }
}

/// A segment with no separator contributes its own components.
proof fn lemma_body_comps_one_seg(t: Seq<char>)
    requires
        forall|k: int| 0 <= k < t.len() ==> t[k] != '/',
    ensures
        body_comps(t) == seg_comps(t),
{
    if t.len() > 0 {
        lemma_first_sep_is(t, t.len() as int);
    }
}

/// The first segment of `t` (up to its first separator).
pub open spec fn first_seg(t: Seq<char>) -> Seq<char> {
    t.subrange(0, first_sep(t))
}

/// Leading blank segments name no components; what is left is empty or
/// begins with a segment that does.
proof fn lemma_lead_trim_comps(t: Seq<char>)
    ensures
        body_comps(lead_trim(t)) == body_comps(t),
        lead_trim(t).len() == 0 || !is_blank_seg(first_seg(lead_trim(t))),
    decreases t.len(),
{
    if t.len() > 0 {
        lemma_first_sep_bounds(t);
        let e = first_sep(t);
        if is_blank_seg(t.subrange(0, e)) {
            assert(seg_comps(t.subrange(0, e)) == Seq::<CompV>::empty());
            if e < t.len() {
                let rest = t.subrange(e + 1, t.len() as int);
                lemma_lead_trim_comps(rest);
                assert(body_comps(t) == seg_comps(t.subrange(0, e)) + body_comps(rest));
            } else {
                assert(t.subrange(0, e) == t);
                assert(body_comps(t) == seg_comps(t));
            }
        }
    }
}

/// Trailing blank segments name no components; what is left is a prefix
/// of `t` that ends at one of its separators (or is all or none of it) and
/// keeps a first segment that names a component.
proof fn lemma_tail_trim_comps(t: Seq<char>)
    ensures
        body_comps(tail_trim(t)) == body_comps(t),
        tail_trim(t).len() <= t.len(),
        tail_trim(t) == t.subrange(0, tail_trim(t).len() as int),
        tail_trim(t).len() == 0 || tail_trim(t).len() == t.len() || t[tail_trim(t).len() as int]
            == '/',
        t.len() > 0 && !is_blank_seg(first_seg(t)) ==> first_sep(t) <= tail_trim(t).len(),
        tail_trim(t).len() > 0 ==> !is_blank_seg(
            tail_trim(t).subrange(last_sep(tail_trim(t)) + 1, tail_trim(t).len() as int),
        ),
    decreases t.len(),
{
    if t.len() > 0 {
        lemma_last_sep_bounds(t);
        lemma_first_sep_bounds(t);
        let f = last_sep(t);
        let last = t.subrange(f + 1, t.len() as int);
        if is_blank_seg(last) {
            assert forall|k: int| 0 <= k < last.len() implies last[k] != '/' by {
                assert(last[k] == t[f + 1 + k]);
            }
            lemma_body_comps_one_seg(last);
            assert(seg_comps(last) == Seq::<CompV>::empty());
            if 0 <= f {
                let head = t.subrange(0, f);
                lemma_tail_trim_comps(head);
                assert(t == head + seq!['/'] + last);
                lemma_body_comps_split(head, last);
                let r = tail_trim(head);
                assert(r == tail_trim(t));
                assert(t.subrange(0, r.len() as int) == head.subrange(0, r.len() as int));
                if r.len() > 0 && r.len() < head.len() {
                    assert(t[r.len() as int] == head[r.len() as int]);
                }
                if !is_blank_seg(first_seg(t)) {
                    let e = first_sep(t);
                    assert(e <= f) by {
                        if e > f {
                            assert(t[f] == '/');
                        }
                    }
                    if e < f {
                        assert forall|k: int| 0 <= k < e implies head[k] != '/' by {
                            assert(head[k] == t[k]);
                        }
                        assert(head[e] == t[e]);
                        lemma_first_sep_is(head, e);
                        assert(first_seg(head) == first_seg(t));
                    } else {
                        assert forall|k: int| 0 <= k < head.len() implies head[k] != '/' by {
                            assert(head[k] == t[k]);
                        }
                        lemma_first_sep_is(head, head.len() as int);
                        assert(first_seg(head) == head);
                        assert(head == first_seg(t));
                    }
                }
            } else {
                assert(last == t);
                assert(t.subrange(0, 0) == Seq::<char>::empty());
                if !is_blank_seg(first_seg(t)) {
                    lemma_first_sep_is(t, t.len() as int);
                    assert(first_seg(t) == t);
                }
            }
        } else {
            assert(t.subrange(0, t.len() as int) == t);
        }
    }
}

/// A segment that names a component names exactly one.
proof fn lemma_seg_comps_one(seg: Seq<char>)
    requires
        !is_blank_seg(seg),
    ensures
        seg_comps(seg).len() == 1,
{
}

/// Reading `k` components off the front leaves the rest of them.
proof fn lemma_skip_comps(t: Seq<char>, k: nat)
    requires
        k <= body_comps(t).len(),
    ensures
        body_comps(skip_comps(t, k)) == body_comps(t).skip(k as int),
    decreases k,
{
    if k == 0 {
        assert(body_comps(t).skip(0) == body_comps(t));
    } else {
        let u = lead_trim(t);
        lemma_lead_trim_comps(t);
        lemma_first_sep_bounds(u);
        let e = first_sep(u);
        if u.len() == 0 {
            assert(body_comps(u) == Seq::<CompV>::empty());
        } else if e < u.len() {
            let rest = u.subrange(e + 1, u.len() as int);
            lemma_seg_comps_one(u.subrange(0, e));
            assert(body_comps(u) == seg_comps(u.subrange(0, e)) + body_comps(rest));
            lemma_skip_comps(rest, (k - 1) as nat);
            assert(body_comps(u).skip(k as int) == body_comps(rest).skip(k - 1));
        } else {
            assert(u.subrange(0, e) == u);
            lemma_seg_comps_one(u);
            assert(body_comps(u) == seg_comps(u));
            assert(skip_comps(t, k) == Seq::<char>::empty());
            assert(body_comps(t).skip(k as int) == Seq::<CompV>::empty());
        }
    }
}

/// Neither a root nor a leading `.` segment.
pub open spec fn no_head(t: Seq<char>) -> bool {
    !is_absolute_spec(t) && !starts_with_cur_dir(t)
}

/// Text whose first segment names a component has no head.
proof fn lemma_named_first_no_head(t: Seq<char>)
    requires
        t.len() > 0,
        !is_blank_seg(first_seg(t)),
    ensures
        no_head(t),
{
    if t[0] == '/' {
        lemma_first_sep_is(t, 0);
    } else if starts_with_cur_dir(t) {
        lemma_first_sep_is(t, 1);
        assert(first_seg(t) =~= seq_dot());
    }
}

/// A prefix of `t` that keeps `t`'s named first segment has no head.
proof fn lemma_prefix_no_head(t: Seq<char>, m: int)
    requires
        t.len() > 0,
        !is_blank_seg(first_seg(t)),
        first_sep(t) <= m <= t.len(),
    ensures
        no_head(t.subrange(0, m)),
        t.subrange(0, m).len() > 0,
{
    lemma_first_sep_bounds(t);
    let r = t.subrange(0, m);
    let e = first_sep(t);
    assert forall|k: int| 0 <= k < e implies r[k] != '/' by {
        assert(r[k] == t[k]);
    }
    if e < m {
        assert(r[e] == t[e]);
    }
    lemma_first_sep_is(r, e);
    assert(first_seg(r) == first_seg(t));
    lemma_named_first_no_head(r);
}

/// Components of a headless path are the components of its segments.
proof fn lemma_headless_comps(t: Seq<char>)
    requires
        no_head(t),
    ensures
        components(t) == body_comps(t),
{
}

/// A path is its head's component (if any) followed by its body's.
proof fn lemma_comps_head_body(s: Seq<char>)
    ensures
        components(s) == (if head_len(s) == 1 {
            seq![components(s)[0]]
        } else {
            Seq::<CompV>::empty()
        }) + body_comps(body_of(s)),
        head_len(s) == 1 ==> components(s).len() >= 1,
{
    if head_len(s) == 0 {
        assert(body_of(s) == s);
    }
}

/// What `Path::strip_prefix` keeps after `n` components has exactly the
/// components of the path after its first `n`; after at least one it has
/// no head.
pub proof fn lemma_strip_text_components(s: Seq<char>, n: nat)
    requires
        n <= components(s).len(),
    ensures
        components(strip_text(s, n)) == components(s).skip(n as int),
        n >= 1 ==> no_head(strip_text(s, n)),
{
    let h = head_len(s);
    let body = body_of(s);
    lemma_comps_head_body(s);
    if n == 0 {
        let tt = tail_trim(body);
        lemma_tail_trim_comps(body);
        let r = s.subrange(0, h) + tt;
        assert(components(s).skip(0) == components(s));
        if is_absolute_spec(s) {
            assert(r[0] == '/');
            assert(r.subrange(1, r.len() as int) == tt);
        } else if starts_with_cur_dir(s) {
            assert(r[0] == '.');
            assert(r.subrange(1, r.len() as int) == tt);
            if tt.len() > 0 {
                assert(tt[0] == body[0]);
                assert(body[0] == s[1]);
                assert(r[1] == '/');
            }
        } else {
            assert(body == s);
            assert(r == tt);
            let m = tt.len() as int;
            if 0 < m < s.len() {
                assert(r[0] == s[0]);
                if m > 1 {
                    assert(r[1] == s[1]);
                }
            }
            assert(no_head(r));
        }
    } else {
        let k = (n - h) as nat;
        let sk = skip_comps(body, k);
        lemma_skip_comps(body, k);
        let u = lead_trim(sk);
        lemma_lead_trim_comps(sk);
        let r = tail_trim(u);
        lemma_tail_trim_comps(u);
        if u.len() > 0 {
            lemma_first_sep_bounds(u);
            lemma_prefix_no_head(u, r.len() as int);
        }
        assert(components(s).skip(n as int) == body_comps(body).skip(k as int));
    }
}

/// Joining at a separator puts the components of `y` after those of `x`.
proof fn lemma_components_join_sep(x: Seq<char>, y: Seq<char>)
    requires
        x.len() > 0,
    ensures
        components(x + seq!['/'] + y) == components(x) + body_comps(y),
{
    let z = x + seq!['/'] + y;
    assert(z[0] == x[0]);
    if is_absolute_spec(x) || starts_with_cur_dir(x) {
        if x.len() == 1 {
            assert(z[1] == '/');
        } else {
            assert(z[1] == x[1]);
        }
        let x1 = x.subrange(1, x.len() as int);
        assert(z.subrange(1, z.len() as int) == x1 + seq!['/'] + y);
        lemma_body_comps_split(x1, y);
    } else {
        if x.len() > 1 {
            assert(z[1] == x[1]);
        }
        assert(no_head(z));
        lemma_body_comps_split(x, y);
    }
}

/// Only the empty path has no components.
proof fn lemma_no_components_empty(s: Seq<char>)
    requires
        components(s).len() == 0,
    ensures
        s.len() == 0,
{
    if s.len() > 0 {
        lemma_comps_head_body(s);
        lemma_first_sep_bounds(s);
        let e = first_sep(s);
        assert(body_of(s) == s);
        assert(e > 0);
        assert(head_len(s) == 0);
        assert(!is_blank_seg(s.subrange(0, e))) by {
            if s.subrange(0, e) == seq_dot() {
                assert(s.subrange(0, e).len() == 1);
                assert(s[0] == s.subrange(0, e)[0]);
                assert(seq_dot()[0] == '.');
                if e < s.len() {
                    assert(s[1] == '/');
                }
                assert(starts_with_cur_dir(s));
            }
        }
        lemma_seg_comps_one(s.subrange(0, e));
        if e == s.len() {
            assert(s.subrange(0, e) == s);
        }
    }
}

/// Joining what `relative_to` keeps back onto `base` gives `path` again,
/// component for component.
pub proof fn lemma_relative_to_join(path: Seq<char>, base: Seq<char>)
    requires
        path_starts_with(path, base),
    ensures
        relative_to_spec(path, base) is Some,
        components(join_spec(base, relative_to_spec(path, base)->0)) == components(path),
{
    let nb = components(base).len();
    let r = strip_text(path, nb);
    let c = components(path);
    lemma_strip_text_components(path, nb);
    if nb == 0 {
        lemma_no_components_empty(base);
        assert(Seq::<char>::empty() + r == r);
        assert(c.skip(0) == c);
    } else {
        assert(base.len() > 0);
        lemma_headless_comps(r);
        assert(c == c.subrange(0, nb as int) + c.skip(nb as int));
        if base.last() != '/' {
            lemma_components_join_sep(base, r);
        } else {
            let b0 = base.drop_last();
            if b0.len() == 0 {
                assert(base == seq!['/']);
                assert(join_spec(base, r) == seq!['/'] + r);
                assert((seq!['/'] + r).subrange(1, r.len() as int + 1) == r);
                assert(base.subrange(1, 1) == Seq::<char>::empty());
            } else {
                assert(base == b0 + seq!['/'] + Seq::<char>::empty());
                lemma_components_join_sep(b0, Seq::<char>::empty());
                assert(join_spec(base, r) == b0 + seq!['/'] + r);
                lemma_components_join_sep(b0, r);
            }
        }
    }
}

/// The file name read from the text is the path's last component when
/// that is a name: `with_extension` and `with_file_name` give none exactly
/// when `basename` does.
pub proof fn lemma_last_name_is_file_name(s: Seq<char>)
    ensures
        last_name(s) == crate::paths::file_name_spec(s),
{
    let body = body_of(s);
    let b = tail_trim(body);
    let cs = components(s);
    lemma_comps_head_body(s);
    lemma_tail_trim_comps(body);
    if b.len() == 0 {
        assert(body_comps(body) == Seq::<CompV>::empty());
        if head_len(s) == 1 {
            assert(cs.len() == 1);
            assert(!(cs.last() is Normal));
        }
    } else {
        lemma_last_sep_bounds(b);
        let f = last_sep(b);
        let last = b.subrange(f + 1, b.len() as int);
        assert forall|k: int| 0 <= k < last.len() implies last[k] != '/' by {
            assert(last[k] == b[f + 1 + k]);
        }
        lemma_body_comps_one_seg(last);
        lemma_seg_comps_one(last);
        if f >= 0 {
            assert(b == b.subrange(0, f) + seq!['/'] + last);
            lemma_body_comps_split(b.subrange(0, f), last);
        } else {
            assert(last == b);
        }
        assert(cs.last() == seg_comps(last)[0]);
        if last == seq_dotdot() {
            assert(seg_comps(last)[0] == CompV::Parent);
        } else {
            assert(seg_comps(last)[0] == CompV::Normal(last));
        }
    }
}

} // verus!
