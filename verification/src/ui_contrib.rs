//! What `leviathan.ui.contribute` decides before it registers a chrome
//! widget or an overlay: the capability to check and the target it is
//! checked for, the defaults of the optional fields, and the dependency
//! list. The host supplies the chrome points and dependency names it
//! knows, and the dependencies a contribution gets when it names none.

use vstd::prelude::*;
use crate::text::{cat3, clone_strings, contains_str, str_concat, string_views, str_to_string};

verus! {

/// The capability a contribution needs and the target its check names.
pub struct ContributionCheck {
    pub capability: String,
    pub target: String,
}

/// A chrome contribution that passed its checks on point and id.
pub struct ChromePlan {
    pub check: ContributionCheck,
    pub priority: i32,
}

/// An overlay contribution's check and settings.
pub struct OverlayPlan {
    pub check: ContributionCheck,
    /// Ledger handle, `overlay:<id>`.
    pub handle: String,
    pub dismissible: bool,
    pub priority: i32,
}

/// Index of the first name of `s` that `known` lacks, or `s.len()`.
pub open spec fn first_unknown(s: Seq<Seq<char>>, known: Seq<Seq<char>>) -> int
    decreases s.len(),
{
    if s.len() == 0 {
        0
    } else if !known.contains(s[0]) {
        0
    } else {
        1 + first_unknown(s.drop_first(), known)
    }
}

/// `s` without repeats, each name where it first occurs.
pub open spec fn dedup(s: Seq<Seq<char>>) -> Seq<Seq<char>>
    decreases s.len(),
{
    if s.len() == 0 {
        s
    } else {
        let r = dedup(s.drop_last());
        if r.contains(s.last()) {
            r
        } else {
            r.push(s.last())
        }
    }
}

proof fn lemma_first_unknown_is(s: Seq<Seq<char>>, known: Seq<Seq<char>>, k: int)
    requires
        0 <= k <= s.len(),
        k < s.len() ==> !known.contains(s[k]),
        forall|j: int| 0 <= j < k ==> known.contains(#[trigger] s[j]),
    ensures
        first_unknown(s, known) == k,
    decreases s.len(),
{
    if s.len() > 0 && known.contains(s[0]) {
        assert(k > 0);
        let t = s.drop_first();
        assert forall|j: int| 0 <= j < k - 1 implies known.contains(#[trigger] t[j]) by {
            assert(t[j] == s[j + 1]);
        }
        if k - 1 < t.len() {
            assert(t[k - 1] == s[k]);
        }
        lemma_first_unknown_is(t, known, k - 1);
    }
}

/// The check of a chrome contribution `id` at `point_id`: refused when
/// the point is not one of `known_points`, then when the id is empty;
/// otherwise capability `ui:chrome:<point>` for target
/// `chrome:<point>:<id>`, and the priority (0 when not given).
pub fn chrome_plan(point_id: &str, known_points: &Vec<String>, id: &str, priority: Option<i32>) -> (r: Result<
    ChromePlan,
    String,
>)
    ensures
        match r {
            Err(m) => if !string_views(known_points@).contains(point_id@) {
                m@ == "unknown chrome point: "@ + point_id@
            } else {
                id@.len() == 0 && m@ == "chrome contribution `id` must be a non-empty string"@
            },
            Ok(p) => {
                &&& string_views(known_points@).contains(point_id@)
                &&& id@.len() > 0
                &&& p.check.capability@ == "ui:chrome:"@ + point_id@
                &&& p.check.target@ == "chrome:"@ + point_id@ + ":"@ + id@
                &&& p.priority == match priority {
                    Some(x) => x,
                    None => 0i32,
                }
            },
        },
{
    if !contains_str(known_points, point_id) {
        return Err(str_concat("unknown chrome point: ", point_id));
    }
    if id.is_empty() {
        return Err(str_to_string("chrome contribution `id` must be a non-empty string"));
    }
    let mut target = cat3("chrome:", point_id, ":");
    target.append(id);
    Ok(ChromePlan {
        check: ContributionCheck { capability: str_concat("ui:chrome:", point_id), target },
        priority: match priority {
            Some(x) => x,
            None => 0,
        },
    })
}

/// The dependencies of a chrome contribution: `default_deps` when it
/// names none; otherwise the names it gives, each once, in the order
/// first given, refused at the first name not in `known_deps`.
pub fn chrome_dependencies(
    depends_on: &Option<Vec<String>>,
    known_deps: &Vec<String>,
    default_deps: &Vec<String>,
) -> (r: Result<Vec<String>, String>)
    ensures
        match depends_on {
            None => r is Ok && string_views(r->Ok_0@) == string_views(default_deps@),
            Some(names) => {
                let s = string_views(names@);
                let k = first_unknown(s, string_views(known_deps@));
                if k < s.len() {
                    r is Err && r->Err_0@ == "unknown chrome dependency `"@ + s[k] + "`"@
                } else {
                    r is Ok && string_views(r->Ok_0@) == dedup(s)
                }
            },
        },
{
    match depends_on {
        None => Ok(clone_strings(default_deps)),
        Some(names) => {
            let ghost s = string_views(names@);
            let ghost known = string_views(known_deps@);
            let mut out: Vec<String> = Vec::new();
            let mut i: usize = 0;
            while i < names.len()
                invariant
                    i <= names.len(),
                    *depends_on == Some(*names),
                    s == string_views(names@),
                    known == string_views(known_deps@),
                    forall|j: int| 0 <= j < i ==> known.contains(#[trigger] s[j]),
                    string_views(out@) == dedup(s.take(i as int)),
                decreases names.len() - i,
            {
                assert(s[i as int] == names@[i as int]@);
                if !contains_str(known_deps, names[i].as_str()) {
                    proof {
                        lemma_first_unknown_is(s, known, i as int);
                    }
                    let mut m = str_concat("unknown chrome dependency `", names[i].as_str());
                    m.append("`");
                    return Err(m);
                }
                assert(s.take(i + 1).drop_last() == s.take(i as int));
                assert(s.take(i + 1).last() == s[i as int]);
                if !contains_str(&out, names[i].as_str()) {
                    let ghost before = string_views(out@);
                    out.push(names[i].clone());
                    assert(string_views(out@) == before.push(s[i as int]));
                }
                i += 1;
            }
            proof {
                lemma_first_unknown_is(s, known, s.len() as int);
                assert(s.take(s.len() as int) == s);
            }
            Ok(out)
        },
    }
}

/// The check and settings of overlay `id`: capability `ui:overlay` for
/// target `overlay:<id>` (also its ledger handle), dismissible unless it
/// says otherwise, priority 0 unless given.
pub fn overlay_plan(id: &str, dismissible: Option<bool>, priority: Option<i32>) -> (r: OverlayPlan)
    ensures
        r.check.capability@ == "ui:overlay"@,
        r.check.target@ == "overlay:"@ + id@,
        r.handle@ == "overlay:"@ + id@,
        r.dismissible == match dismissible {
            Some(b) => b,
            None => true,
        },
        r.priority == match priority {
            Some(x) => x,
            None => 0i32,
        },
{
    OverlayPlan {
        check: ContributionCheck { capability: str_to_string("ui:overlay"), target: str_concat("overlay:", id) },
        handle: str_concat("overlay:", id),
        dismissible: match dismissible {
            Some(b) => b,
            None => true,
        },
        priority: match priority {
            Some(x) => x,
            None => 0,
        },
    }
}

} // verus!
