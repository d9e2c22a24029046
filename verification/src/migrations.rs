//! `leviathan.persist`: how a store is brought from the version on disk
//! to the version a plugin asks for: which migration runs next (one the
//! plugin passed, or a migration file under the plugin's `migrations`
//! directory), and when the process stops or fails.

use vstd::prelude::*;
use crate::text::{str_to_string, str_concat, cat3, str_eq};
use crate::clock::{decimal_string, dec_digits};
use crate::naming::{migration_stem_spec, parse_migration_stem};
use crate::paths::{file_name_spec, extension_spec, stem_spec, stem, extension};
use crate::order::{chars_lt, str_lt};

verus! {

/// What happens next while migrating a store at `version` towards
/// `target`.
#[derive(Debug, Clone, PartialEq, Eq)]
pub enum MigrationAction {
    /// The store is at the target version.
    Finish,
    /// Run the plugin's migration at this index.
    RunLua(usize),
    /// Look for a migration file.
    FindFile,
    /// The store ended past the target.
    Fail(String),
}

/// Index of the first of the plugin's migrations `(from, to)` that starts
/// at `version` and does not go past `target`.
pub open spec fn first_lua_migration(ms: Seq<(u32, u32)>, version: u32, target: u32) -> Option<int>
    decreases ms.len(),
{
    if ms.len() == 0 {
        None
    } else if ms[0].0 == version && ms[0].1 <= target {
        Some(0)
    } else {
        match first_lua_migration(ms.drop_first(), version, target) {
            Some(i) => Some(i + 1),
            None => None,
        }
    }
}

pub open spec fn version_mismatch_message(version: u32, target: u32) -> Seq<char> {
    "store version "@ + dec_digits(version as nat) + " does not match requested "@ + dec_digits(target as nat)
}

/// The next step for a store at `version` asked for at `target`, given
/// the plugin's migrations `(from, to)`.
pub fn migration_action(version: u32, target: u32, lua_migrations: &[(u32, u32)]) -> (r: MigrationAction)
    ensures
        if version < target {
            match first_lua_migration(lua_migrations@, version, target) {
                Some(i) => r == MigrationAction::RunLua(i as usize),
                None => r == MigrationAction::FindFile,
            }
        } else if version != target {
            r matches MigrationAction::Fail(e) && e@ == version_mismatch_message(version, target)
        } else {
            r == MigrationAction::Finish
        },
{
    if version < target {
        let mut i: usize = 0;
        assert(lua_migrations@.subrange(0, lua_migrations@.len() as int) =~= lua_migrations@);
        while i < lua_migrations.len()
            invariant
                version < target,
                i <= lua_migrations@.len(),
                first_lua_migration(lua_migrations@, version, target) == match first_lua_migration(
                    lua_migrations@.subrange(i as int, lua_migrations@.len() as int),
                    version,
                    target,
                ) {
                    Some(k) => Some(k + i),
                    None => None,
                },
            decreases lua_migrations@.len() - i,
        {
            let ghost rest = lua_migrations@.subrange(i as int, lua_migrations@.len() as int);
            assert(rest[0] == lua_migrations@[i as int]);
            assert(rest.drop_first() =~= lua_migrations@.subrange(i + 1, lua_migrations@.len() as int));
            let (from, to) = lua_migrations[i];
            if from == version && to <= target {
                return MigrationAction::RunLua(i);
            }
            i += 1;
        }
        MigrationAction::FindFile
    } else if version != target {
        let a = decimal_string(version as u64);
        let b = decimal_string(target as u64);
        let mut msg = cat3("store version ", a.as_str(), " does not match requested ");
        msg.append(b.as_str());
        MigrationAction::Fail(msg)
    } else {
        MigrationAction::Finish
    }
}

pub open spec fn not_advanced_message(version: u32, to: u32) -> Seq<char> {
    "migration "@ + dec_digits(version as nat) + "->"@ + dec_digits(to as nat) + " did not advance version"@
}

/// The version after the plugin's migration to `to` ran on a store at
/// `version`; a migration that does not move the version forward fails.
pub fn after_lua_migration(version: u32, to: u32) -> (r: Result<u32, String>)
    ensures
        if to <= version {
            r matches Err(e) && e@ == not_advanced_message(version, to)
        } else {
            r == Ok::<u32, String>(to)
        },
{
    if to <= version {
        let a = decimal_string(version as u64);
        let b = decimal_string(to as u64);
        let mut msg = cat3("migration ", a.as_str(), "->");
        msg.append(b.as_str());
        msg.append(" did not advance version");
        Err(msg)
    } else {
        Ok(to)
    }
}

pub open spec fn no_migration_message(version: u32, target: u32) -> Seq<char> {
    "no migration from "@ + dec_digits(version as nat) + " to "@ + dec_digits(target as nat)
}

/// The failure when no migration moves a store at `version` on.
pub fn no_migration_error(version: u32, target: u32) -> (r: String)
    ensures
        r@ == no_migration_message(version, target),
{
    let a = decimal_string(version as u64);
    let b = decimal_string(target as u64);
    let mut msg = cat3("no migration from ", a.as_str(), " to ");
    msg.append(b.as_str());
    msg
}

/// A migration file to look for: in the store's own directory under
/// `migrations`, or directly in `migrations`.
#[derive(Debug, Clone)]
pub struct MigrationFile {
    pub in_store_dir: bool,
    pub file_name: String,
}

/// The migration files that take a store straight from `from` to
/// `target`, in the order they are looked for.
pub fn direct_migration_files(store_name: &str, from: u32, target: u32) -> (r: Vec<MigrationFile>)
    ensures
        r@.len() == 4,
        r@[0].in_store_dir && r@[0].file_name@ == dec_digits(from as nat) + "_to_"@ + dec_digits(target as nat) + ".lua"@,
        r@[1].in_store_dir && r@[1].file_name@ == "v"@ + dec_digits(from as nat) + "_to_v"@ + dec_digits(target as nat) + ".lua"@,
        !r@[2].in_store_dir && r@[2].file_name@ == store_name@ + "_"@ + dec_digits(from as nat) + "_to_"@ + dec_digits(target as nat) + ".lua"@,
        !r@[3].in_store_dir && r@[3].file_name@ == store_name@ + "_v"@ + dec_digits(from as nat) + "_to_v"@ + dec_digits(target as nat) + ".lua"@,
{
    let f = decimal_string(from as u64);
    let t = decimal_string(target as u64);
    let mut a = cat3(f.as_str(), "_to_", t.as_str());
    a.append(".lua");
    let mut b = cat3("v", f.as_str(), "_to_v");
    b.append(t.as_str());
    b.append(".lua");
    let mut c = cat3(store_name, "_", f.as_str());
    c.append("_to_");
    c.append(t.as_str());
    c.append(".lua");
    let mut d = cat3(store_name, "_v", f.as_str());
    d.append("_to_v");
    d.append(t.as_str());
    d.append(".lua");
    let mut out: Vec<MigrationFile> = Vec::new();
    out.push(MigrationFile { in_store_dir: true, file_name: a });
    out.push(MigrationFile { in_store_dir: true, file_name: b });
    out.push(MigrationFile { in_store_dir: false, file_name: c });
    out.push(MigrationFile { in_store_dir: false, file_name: d });
    out
}

/// The version a migration file named `name` takes a store at `from` to:
/// a `.lua` file whose stem reads `<from>_to_<to>` (each number optionally
/// after a `v`) with `from < to <= target`.
pub open spec fn file_migration_to(name: Seq<char>, from: u32, target: u32) -> Option<u32> {
    match file_name_spec(name) {
        Some(n) => if extension_spec(n) == Some("lua"@) {
            match migration_stem_spec(stem_spec(n)) {
                Some((f, t)) => if f == from && from < t && t <= target { Some(t) } else { None },
                None => None,
            }
        } else {
            None
        },
        None => None,
    }
}

/// Which migration files take a store at `from` towards `target`: a
/// file is taken exactly when it is a `.lua` file whose stem reads
/// `<from>_to_<to>` with `from < to <= target` (a migration landing on
/// the target itself included), and it takes the store to `to`. A file
/// taken for one target is taken, to the same version, for every
/// target at or above that version.
pub proof fn lemma_file_migration_to(name: Seq<char>, from: u32, target: u32, other_target: u32)
    ensures
        ({
            let stem_pair = match file_name_spec(name) {
                Some(n) => if extension_spec(n) == Some("lua"@) {
                    migration_stem_spec(stem_spec(n))
                } else {
                    None
                },
                None => None,
            };
            let (f, t) = match stem_pair {
                Some(pair) => pair,
                None => (0u32, 0u32),
            };
            &&& file_migration_to(name, from, target) is Some <==> (stem_pair is Some && f == from && from < t
                && t <= target)
            &&& file_migration_to(name, from, target) is Some ==> file_migration_to(name, from, target)->0 == t
        }),
        file_migration_to(name, from, target) is Some ==> from < file_migration_to(name, from, target)->0 <= target,
        file_migration_to(name, from, target) is Some && file_migration_to(name, from, target)->0 <= other_target
            ==> file_migration_to(name, from, other_target) == file_migration_to(name, from, target),
{
}

/// `(to_a, name_a)` comes before `(to_b, name_b)`.
pub open spec fn migration_before(to_a: u32, name_a: Seq<char>, to_b: u32, name_b: Seq<char>) -> bool {
    to_a < to_b || (to_a == to_b && chars_lt(name_a, name_b))
}

fn file_migration_to_exec(name: &str, from: u32, target: u32) -> (r: Option<u32>)
    ensures
        r == file_migration_to(name@, from, target),
{
    let ext = extension(name);
    let st = stem(name);
    proof {
        reveal_strlit("lua");
    }
    match ext {
        Some(e) => {
            if !str_eq(e.as_str(), "lua") {
                return None;
            }
        },
        None => return None,
    }
    match st {
        Some(s) => match parse_migration_stem(s.as_str()) {
            Some((f, t)) => if f == from && from < t && t <= target { Some(t) } else { None },
            None => None,
        },
        None => None,
    }
}

/// Among the file names of the store's migration directory, the migration
/// that moves a store at `from` on: the one with the least target
/// version, then the least name. Gives its index and target version.
pub fn pick_dir_migration(names: &[String], from: u32, target: u32) -> (r: Option<(usize, u32)>)
    ensures
        match r {
            Some((i, t)) => {
                &&& i < names@.len()
                &&& file_migration_to(names@[i as int]@, from, target) == Some(t)
                &&& forall|j: int| 0 <= j < names@.len() && j != i ==> match file_migration_to(#[trigger] names@[j]@, from, target) {
                    Some(u) => migration_before(t, names@[i as int]@, u, names@[j]@) || (u == t && names@[j]@ == names@[i as int]@ && i < j),
                    None => true,
                }
            },
            None => forall|j: int| 0 <= j < names@.len() ==> file_migration_to(#[trigger] names@[j]@, from, target) is None,
        },
{
    let mut best: Option<(usize, u32)> = None;
    let mut j: usize = 0;
    while j < names.len()
        invariant
            j <= names@.len(),
            match best {
                Some((i, t)) => {
                    &&& i < j
                    &&& file_migration_to(names@[i as int]@, from, target) == Some(t)
                    &&& forall|k: int| 0 <= k < j && k != i ==> match file_migration_to(#[trigger] names@[k]@, from, target) {
                        Some(u) => migration_before(t, names@[i as int]@, u, names@[k]@) || (u == t && names@[k]@ == names@[i as int]@ && i < k),
                        None => true,
                    }
                },
                None => forall|k: int| 0 <= k < j ==> file_migration_to(#[trigger] names@[k]@, from, target) is None,
            },
        decreases names@.len() - j,
    {
        let cand = file_migration_to_exec(names[j].as_str(), from, target);
        match cand {
            Some(u) => {
                match best {
                    Some((i, t)) => {
                        let better = u < t || (u == t && str_lt(names[j].as_str(), names[i].as_str()));
                        if better {
                            proof {
                                assert forall|k: int| 0 <= k < j + 1 && k != j implies match file_migration_to(#[trigger] names@[k]@, from, target) {
                                    Some(w) => migration_before(u, names@[j as int]@, w, names@[k]@) || (w == u && names@[k]@ == names@[j as int]@ && (j as int) < k),
                                    None => true,
                                } by {
                                    if chars_lt(names@[j as int]@, names@[i as int]@) && chars_lt(names@[i as int]@, names@[k]@) {
                                        crate::order::lemma_chars_lt_trans(names@[j as int]@, names@[i as int]@, names@[k]@);
                                    }
                                }
                            }
                            best = Some((j, u));
                        } else {
                            proof {
                                crate::order::lemma_chars_lt_total(names@[j as int]@, names@[i as int]@);
                            }
                        }
                    },
                    None => {
                        best = Some((j, u));
                    },
                }
            },
            None => {},
        }
        j += 1;
    }
    best
}

} // verus!
