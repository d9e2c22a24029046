//! Unix path components, file-name helpers, and containment checks for
//! paths a plugin supplies.
//!
//! Paths are read the way `std::path::Path` reads them on Unix: a leading
//! `/` is the root, empty segments and interior `.` segments are skipped,
//! a leading `.` segment of a relative path is the current directory, and
//! `..` is the parent directory.

use vstd::prelude::*;
use crate::text::{chars_of, string_of};
use vstd::string::StringSliceAdditionalSpecFns;

verus! {

/// One path component, as plain values.
pub enum CompV {
    Root,
    Cur,
    Parent,
    Normal(Seq<char>),
}

/// Executable path component.
pub enum Component {
    RootDir,
    CurDir,
    ParentDir,
    Normal(Vec<char>),
}

impl View for Component {
    type V = CompV;

    open spec fn view(&self) -> CompV {
        match self {
            Component::RootDir => CompV::Root,
            Component::CurDir => CompV::Cur,
            Component::ParentDir => CompV::Parent,
            Component::Normal(n) => CompV::Normal(n@),
        }
    }
}

/// The view function for components, named so that every use is the same
/// function value.
pub open spec fn comp_view_fn() -> spec_fn(Component) -> CompV {
    |c: Component| c@
}

pub open spec fn seq_dot() -> Seq<char> {
    seq!['.']
}

pub open spec fn seq_dotdot() -> Seq<char> {
    seq!['.', '.']
}

/// Index of the first `/` in `s`, or `s.len()` when there is none.
pub open spec fn first_sep(s: Seq<char>) -> int
    decreases s.len(),
{
    if s.len() == 0 {
        0
    } else if s[0] == '/' {
        0
    } else {
        1 + first_sep(s.drop_first())
    }
}

/// Component contributed by one segment (empty and `.` segments
/// contribute nothing).
pub open spec fn seg_comps(seg: Seq<char>) -> Seq<CompV> {
    if seg.len() == 0 || seg == seq_dot() {
        Seq::empty()
    } else if seg == seq_dotdot() {
        seq![CompV::Parent]
    } else {
        seq![CompV::Normal(seg)]
    }
}

/// Components of the segments of `s`, read left to right.
pub open spec fn body_comps(s: Seq<char>) -> Seq<CompV>
    decreases s.len(),
{
    if s.len() == 0 {
        Seq::empty()
    } else {
        let e = first_sep(s);
        if 0 <= e < s.len() {
            seg_comps(s.subrange(0, e)) + body_comps(s.subrange(e + 1, s.len() as int))
        } else {
            seg_comps(s)
        }
    }
}

/// True when `s` starts with a `.` segment (and no root).
pub open spec fn starts_with_cur_dir(s: Seq<char>) -> bool {
    s.len() >= 1 && s[0] == '.' && (s.len() == 1 || s[1] == '/')
}

/// The components of path `s`.
pub open spec fn components(s: Seq<char>) -> Seq<CompV> {
    if s.len() > 0 && s[0] == '/' {
        seq![CompV::Root] + body_comps(s.subrange(1, s.len() as int))
    } else if starts_with_cur_dir(s) {
        seq![CompV::Cur] + body_comps(s.subrange(1, s.len() as int))
    } else {
        body_comps(s)
    }
}

pub(crate) proof fn lemma_first_sep_bounds(s: Seq<char>)
    ensures
        0 <= first_sep(s) <= s.len(),
        first_sep(s) < s.len() ==> s[first_sep(s)] == '/',
        forall|k: int| 0 <= k < first_sep(s) ==> s[k] != '/',
    decreases s.len(),
{
    if s.len() > 0 && s[0] != '/' {
        lemma_first_sep_bounds(s.drop_first());
        assert forall|k: int| 0 <= k < first_sep(s) implies s[k] != '/' by {
            if k > 0 {
                assert(s[k] == s.drop_first()[k - 1]);
            }
        }
    }
}

pub(crate) proof fn lemma_first_sep_is(s: Seq<char>, e: int)
    requires
        0 <= e <= s.len(),
        e < s.len() ==> s[e] == '/',
        forall|k: int| 0 <= k < e ==> s[k] != '/',
    ensures
        first_sep(s) == e,
    decreases s.len(),
{
    if s.len() > 0 && s[0] != '/' {
        assert(e > 0);
        lemma_first_sep_is(s.drop_first(), e - 1);
    }
}

/// Components of the segments of `v[start..]`, computed left to right.
fn push_body_comps(v: &Vec<char>, start: usize, out: &mut Vec<Component>)
    requires
        start <= v.len(),
    ensures
        final(out)@.map_values(comp_view_fn()) == old(out)@.map_values(comp_view_fn())
            + body_comps(v@.subrange(start as int, v.len() as int)),
{
    let n = v.len();
    let mut i: usize = start;
    let ghost init = out@.map_values(comp_view_fn());
    while i < n
        invariant
            start <= i <= n,
            n == v.len(),
            init + body_comps(v@.subrange(start as int, n as int)) == out@.map_values(comp_view_fn()) + body_comps(v@.subrange(i as int, n as int)),
        decreases n - i,
    {
        let ghost rest = v@.subrange(i as int, n as int);
        let ghost before = out@.map_values(comp_view_fn());
        let mut j: usize = i;
        while j < n && v[j] != '/'
            invariant
                i <= j <= n,
                n == v.len(),
                forall|k: int| i <= k < j ==> v@[k] != '/',
            decreases n - j,
        {
            j += 1;
        }
        proof {
            lemma_first_sep_is(rest, (j - i) as int);
        }
        let seg_len = j - i;
        let is_dot = seg_len == 1 && v[i] == '.';
        let is_dotdot = seg_len == 2 && v[i] == '.' && v[i + 1] == '.';
        let ghost seg = v@.subrange(i as int, j as int);
        assert(rest.subrange(0, (j - i) as int) == seg);
        if seg_len == 0 || is_dot {
            assert(seg_len == 0 ==> seg.len() == 0);
            assert(is_dot ==> seg == seq_dot());
            assert(seg_comps(seg) == Seq::<CompV>::empty());
        } else if is_dotdot {
            assert(seg == seq_dotdot());
            out.push(Component::ParentDir);
            assert(out@.map_values(comp_view_fn()) == before.push(CompV::Parent));
        } else {
            let mut name: Vec<char> = Vec::new();
            let mut k: usize = i;
            while k < j
                invariant
                    i <= k <= j,
                    j <= n,
                    n == v.len(),
                    name@ == v@.subrange(i as int, k as int),
                decreases j - k,
            {
                name.push(v[k]);
                assert(v@.subrange(i as int, k + 1) == v@.subrange(i as int, k as int).push(
                    v@[k as int],
                ));
                k += 1;
            }
            assert(seg != seq_dot()) by {
                if seg == seq_dot() {
                    assert(seg.len() == 1 && seg[0] == v@[i as int]);
                }
            }
            assert(seg != seq_dotdot()) by {
                if seg == seq_dotdot() {
                    assert(seg[0] == v@[i as int] && seg[1] == v@[i + 1]);
                }
            }
            out.push(Component::Normal(name));
            assert(out@.map_values(comp_view_fn()) == before.push(CompV::Normal(seg)));
        }
        if j < n {
            assert(rest.subrange((j - i) + 1, rest.len() as int) == v@.subrange(
                j + 1,
                n as int,
            ));
            assert(body_comps(rest) == seg_comps(seg) + body_comps(
                v@.subrange(j + 1, n as int),
            ));
            assert(out@.map_values(comp_view_fn()) == before + seg_comps(seg));
            i = j + 1;
        } else {
            assert(rest == seg);
            assert(body_comps(rest) == seg_comps(seg));
            assert(out@.map_values(comp_view_fn()) == before + seg_comps(seg));
            assert(v@.subrange(n as int, n as int) == Seq::<char>::empty());
            i = n;
        }
    }
    assert(v@.subrange(n as int, n as int) == Seq::<char>::empty());
}

/// The components of a path given as characters.
pub fn components_of(v: &Vec<char>) -> (out: Vec<Component>)
    ensures
        out@.map_values(comp_view_fn()) == components(v@),
{
    let mut out: Vec<Component> = Vec::new();
    let n = v.len();
    if n > 0 && v[0] == '/' {
        out.push(Component::RootDir);
        push_body_comps(v, 1, &mut out);
    } else if n >= 1 && v[0] == '.' && (n == 1 || v[1] == '/') {
        out.push(Component::CurDir);
        push_body_comps(v, 1, &mut out);
    } else {
        push_body_comps(v, 0, &mut out);
        assert(v@.subrange(0, n as int) == v@);
    }
    out
}


/// Final component of `p` when it is a normal name.
pub open spec fn file_name_spec(p: Seq<char>) -> Option<Seq<char>> {
    let cs = components(p);
    if cs.len() > 0 && cs.last() is Normal {
        Some(cs.last()->Normal_0)
    } else {
        None
    }
}

/// Index of the last `.` in `n`, or -1.
pub open spec fn last_dot(n: Seq<char>) -> int
    decreases n.len(),
{
    if n.len() == 0 {
        -1
    } else if n.last() == '.' {
        n.len() - 1
    } else {
        last_dot(n.drop_last())
    }
}

/// File name without its final extension; a leading dot does not start
/// an extension.
pub open spec fn stem_spec(n: Seq<char>) -> Seq<char> {
    let d = last_dot(n);
    if d > 0 {
        n.subrange(0, d)
    } else {
        n
    }
}

/// Text after the final dot of a file name, unless that dot leads the name.
pub open spec fn extension_spec(n: Seq<char>) -> Option<Seq<char>> {
    let d = last_dot(n);
    if d > 0 {
        Some(n.subrange(d + 1, n.len() as int))
    } else {
        None
    }
}

/// Every component of `p` is a normal name.
pub open spec fn all_normal(p: Seq<char>) -> bool {
    forall|i: int| 0 <= i < components(p).len() ==> #[trigger] components(p)[i] is Normal
}

/// A plugin-supplied relative path that stays inside its root.
pub open spec fn safe_relative_spec(s: &str) -> bool {
    &&& s@.len() > 0
    &&& s.len() <= MAX_RELATIVE_PATH_LEN
    &&& !s@.contains('\0')
    &&& all_normal(s@)
}

/// Component-wise prefix: `base`'s components begin `path`'s.
pub open spec fn path_starts_with(path: Seq<char>, base: Seq<char>) -> bool {
    let a = components(path);
    let b = components(base);
    b.len() <= a.len() && a.subrange(0, b.len() as int) == b
}

/// `p` begins at the root.
pub open spec fn is_absolute_spec(p: Seq<char>) -> bool {
    p.len() > 0 && p[0] == '/'
}

/// `root` joined with relative `rel`, with one separator between them.
pub open spec fn join_spec(root: Seq<char>, rel: Seq<char>) -> Seq<char> {
    if is_absolute_spec(rel) {
        rel
    } else if root.len() > 0 && root.last() != '/' {
        root + seq!['/'] + rel
    } else {
        root + rel
    }
}

/// Longest accepted plugin-relative path, in bytes.
pub const MAX_RELATIVE_PATH_LEN: usize = 256;

pub(crate) fn last_dot_index(n: &Vec<char>) -> (d: Option<usize>)
    ensures
        match d {
            Some(i) => last_dot(n@) == i as int && i < n.len(),
            None => last_dot(n@) == -1,
        },
{
    let mut i: usize = n.len();
    assert(n@.subrange(0, i as int) == n@);
    while i > 0
        invariant
            i <= n.len(),
            last_dot(n@) == last_dot(n@.subrange(0, i as int)),
        decreases i,
    {
        let ghost pre = n@.subrange(0, i as int);
        assert(pre.drop_last() == n@.subrange(0, i - 1));
        if n[i - 1] == '.' {
            return Some(i - 1);
        }
        i -= 1;
    }
    assert(n@.subrange(0, 0) == Seq::<char>::empty());
    None
}

fn file_name_chars(path: &str) -> (r: Option<Vec<char>>)
    ensures
        match r {
            Some(v) => file_name_spec(path@) == Some(v@),
            None => file_name_spec(path@) is None,
        },
{
    let v = chars_of(path);
    let cs = components_of(&v);
    let ghost cv = cs@.map_values(comp_view_fn());
    if cs.len() == 0 {
        return None;
    }
    let last = cs.len() - 1;
    assert(cv.last() == cs@[last as int]@);
    match &cs[last] {
        Component::Normal(n) => Some(n.clone()),
        _ => None,
    }
}

/// Final component of `path` when it is a normal name (`Path::file_name`).
pub fn basename(path: &str) -> (r: Option<String>)
    ensures
        match r {
            Some(s) => file_name_spec(path@) == Some(s@),
            None => file_name_spec(path@) is None,
        },
{
    match file_name_chars(path) {
        Some(v) => Some(string_of(&v)),
        None => None,
    }
}

/// File name without its final extension (`Path::file_stem`).
pub fn stem(path: &str) -> (r: Option<String>)
    ensures
        match file_name_spec(path@) {
            Some(n) => r is Some && r->0@ == stem_spec(n),
            None => r is None,
        },
{
    match file_name_chars(path) {
        Some(n) => {
            match last_dot_index(&n) {
                Some(d) if d > 0 => {
                    let mut out: Vec<char> = Vec::new();
                    let mut k: usize = 0;
                    while k < d
                        invariant
                            k <= d < n.len(),
                            out@ == n@.subrange(0, k as int),
                        decreases d - k,
                    {
                        out.push(n[k]);
                        assert(n@.subrange(0, k + 1) == n@.subrange(0, k as int).push(n@[k as int]));
                        k += 1;
                    }
                    Some(string_of(&out))
                },
                _ => Some(string_of(&n)),
            }
        },
        None => None,
    }
}

/// Text after the final dot of the file name (`Path::extension`).
pub fn extension(path: &str) -> (r: Option<String>)
    ensures
        match file_name_spec(path@) {
            Some(n) => match extension_spec(n) {
                Some(e) => r is Some && r->0@ == e,
                None => r is None,
            },
            None => r is None,
        },
{
    match file_name_chars(path) {
        Some(n) => {
            match last_dot_index(&n) {
                Some(d) if d > 0 => {
                    let mut out: Vec<char> = Vec::new();
                    let mut k: usize = d + 1;
                    while k < n.len()
                        invariant
                            d + 1 <= k <= n.len(),
                            out@ == n@.subrange(d + 1, k as int),
                        decreases n.len() - k,
                    {
                        out.push(n[k]);
                        assert(n@.subrange(d + 1, k + 1) == n@.subrange(d + 1, k as int).push(
                            n@[k as int],
                        ));
                        k += 1;
                    }
                    Some(string_of(&out))
                },
                _ => None,
            }
        },
        None => None,
    }
}


fn chars_eq(a: &Vec<char>, b: &Vec<char>) -> (r: bool)
    ensures
        r == (a@ == b@),
{
    if a.len() != b.len() {
        return false;
    }
    let mut i: usize = 0;
    while i < a.len()
        invariant
            i <= a.len(),
            a.len() == b.len(),
            forall|k: int| 0 <= k < i ==> a@[k] == b@[k],
        decreases a.len() - i,
    {
        if a[i] != b[i] {
            return false;
        }
        i += 1;
    }
    assert(a@ == b@);
    true
}

fn component_eq(a: &Component, b: &Component) -> (r: bool)
    ensures
        r == (a@ == b@),
{
    match (a, b) {
        (Component::RootDir, Component::RootDir) => true,
        (Component::CurDir, Component::CurDir) => true,
        (Component::ParentDir, Component::ParentDir) => true,
        (Component::Normal(x), Component::Normal(y)) => chars_eq(x, y),
        _ => false,
    }
}

/// Component-wise prefix test on character vectors.
pub fn chars_start_with(path: &Vec<char>, base: &Vec<char>) -> (r: bool)
    ensures
        r == path_starts_with(path@, base@),
{
    let a = components_of(path);
    let b = components_of(base);
    let ghost av = a@.map_values(comp_view_fn());
    let ghost bv = b@.map_values(comp_view_fn());
    assert(av.len() == a.len() && bv.len() == b.len());
    assert(av == components(path@));
    assert(bv == components(base@));
    if b.len() > a.len() {
        return false;
    }
    let mut i: usize = 0;
    while i < b.len()
        invariant
            i <= b.len() <= a.len(),
            av == a@.map_values(comp_view_fn()),
            bv == b@.map_values(comp_view_fn()),
            av == components(path@),
            bv == components(base@),
            forall|k: int| 0 <= k < i ==> av[k] == bv[k],
        decreases b.len() - i,
    {
        assert(av[i as int] == a@[i as int]@ && bv[i as int] == b@[i as int]@);
        if !component_eq(&a[i], &b[i]) {
            assert(av.subrange(0, bv.len() as int)[i as int] != bv[i as int]);
            assert(av.subrange(0, bv.len() as int) != bv);
            assert(!path_starts_with(path@, base@));
            return false;
        }
        i += 1;
    }
    assert(av.subrange(0, bv.len() as int) == bv);
    true
}

/// Component-wise prefix test (`Path::starts_with`).
pub fn path_starts_with_str(path: &str, base: &str) -> (r: bool)
    ensures
        r == path_starts_with(path@, base@),
{
    chars_start_with(&chars_of(path), &chars_of(base))
}

fn has_nul(v: &Vec<char>) -> (r: bool)
    ensures
        r == v@.contains('\0'),
{
    let mut i: usize = 0;
    while i < v.len()
        invariant
            i <= v.len(),
            forall|k: int| 0 <= k < i ==> v@[k] != '\0',
        decreases v.len() - i,
    {
        if v[i] == '\0' {
            assert(v@[i as int] == '\0');
            return true;
        }
        i += 1;
    }
    false
}

/// Reject any plugin-supplied path that could escape the plugin root:
/// empty or overlong paths, NUL bytes, and any component other than a
/// normal name (root, `.` prefix, `..`).
pub fn is_safe_relative_path(s: &str) -> (r: bool)
    ensures
        r == safe_relative_spec(s),
{
    if s.is_empty() || s.len() > MAX_RELATIVE_PATH_LEN {
        return false;
    }
    let v = chars_of(s);
    if has_nul(&v) {
        return false;
    }
    let cs = components_of(&v);
    let ghost cv = cs@.map_values(comp_view_fn());
    let mut i: usize = 0;
    while i < cs.len()
        invariant
            i <= cs.len(),
            cv == cs@.map_values(comp_view_fn()),
            cv == components(s@),
            forall|k: int| 0 <= k < i ==> #[trigger] cv[k] is Normal,
        decreases cs.len() - i,
    {
        match &cs[i] {
            Component::Normal(_) => {},
            _ => {
                assert(!(cv[i as int] is Normal));
                return false;
            },
        }
        i += 1;
    }
    assert(cv.len() == cs.len());
    assert forall|k: int| 0 <= k < components(s@).len() implies #[trigger] components(s@)[k] is Normal by {
        assert(cv[k] is Normal);
    }
    true
}

/// Asset paths follow the same containment rule as plugin-relative paths.
pub fn safe_asset_path(path: &str) -> (r: bool)
    ensures
        r == safe_relative_spec(path),
{
    is_safe_relative_path(path)
}

/// The handle of a plugin asset of `kind` at `path` (`asset:<kind>:<path>`),
/// or the refusal when the path could escape the plugin root.
pub fn asset_handle_name(kind: &str, path: &str) -> (r: Result<String, String>)
    ensures
        match r {
            Ok(h) => safe_relative_spec(path) && h@ == "asset:"@ + kind@ + ":"@ + path@,
            Err(m) => !safe_relative_spec(path) && m@ == "invalid plugin asset path: "@ + path@,
        },
{
    if !safe_asset_path(path) {
        return Err(crate::text::str_concat("invalid plugin asset path: ", path));
    }
    let mut h = crate::text::cat3("asset:", kind, ":");
    h.append(path);
    Ok(h)
}

/// Resolve a plugin-supplied path against the plugin root when it is
/// relative; absolute paths pass through unchanged.
pub fn resolve_for_read(plugin_root: &str, path: &str) -> (r: String)
    ensures
        r@ == join_spec(plugin_root@, path@),
{
    let root = chars_of(plugin_root);
    let rel = chars_of(path);
    if rel.len() > 0 && rel[0] == '/' {
        return string_of(&rel);
    }
    let mut out = root.clone();
    if root.len() > 0 && root[root.len() - 1] != '/' {
        out.push('/');
    }
    let ghost mid = out@;
    let mut k: usize = 0;
    while k < rel.len()
        invariant
            k <= rel.len(),
            out@ == mid + rel@.subrange(0, k as int),
        decreases rel.len() - k,
    {
        out.push(rel[k]);
        assert(rel@.subrange(0, k + 1) == rel@.subrange(0, k as int).push(rel@[k as int]));
        k += 1;
    }
    assert(rel@.subrange(0, rel.len() as int) == rel@);
    string_of(&out)
}

fn same_component(a: &Component, b: &Component) -> (r: bool)
    ensures
        r == (a@ == b@),
{
    match (a, b) {
        (Component::RootDir, Component::RootDir) => true,
        (Component::CurDir, Component::CurDir) => true,
        (Component::ParentDir, Component::ParentDir) => true,
        (Component::Normal(x), Component::Normal(y)) => {
            if x.len() != y.len() {
                assert(x@.len() != y@.len());
                assert(x@ != y@);
                return false;
            }
            let mut i: usize = 0;
            while i < x.len()
                invariant
                    i <= x.len(),
                    x.len() == y.len(),
                    a@ == CompV::Normal(x@),
                    b@ == CompV::Normal(y@),
                    forall|k: int| 0 <= k < i ==> x@[k] == y@[k],
                decreases x.len() - i,
            {
                if x[i] != y[i] {
                    assert(x@[i as int] != y@[i as int]);
                    assert(x@ != y@);
                    return false;
                }
                i += 1;
            }
            assert(x@ =~= y@);
            true
        },
        _ => false,
    }
}

/// `a` and `b` name the same path component by component (how
/// `std::path::Path` compares paths).
pub fn same_path(a: &str, b: &str) -> (r: bool)
    ensures
        r == (components(a@) == components(b@)),
{
    let ca = components_of(&chars_of(a));
    let cb = components_of(&chars_of(b));
    let ghost va = ca@.map_values(comp_view_fn());
    let ghost vb = cb@.map_values(comp_view_fn());
    if ca.len() != cb.len() {
        assert(va.len() != vb.len());
        assert(va != vb);
        return false;
    }
    let mut i: usize = 0;
    while i < ca.len()
        invariant
            i <= ca.len(),
            ca.len() == cb.len(),
            va == ca@.map_values(comp_view_fn()),
            vb == cb@.map_values(comp_view_fn()),
            va == components(a@),
            vb == components(b@),
            forall|k: int| 0 <= k < i ==> va[k] == vb[k],
        decreases ca.len() - i,
    {
        if !same_component(&ca[i], &cb[i]) {
            assert(va[i as int] != vb[i as int]);
            assert(va != vb);
            return false;
        }
        i += 1;
    }
    assert(va =~= vb);
    true
}

} // verus!
