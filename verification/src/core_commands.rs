//! Built-in host commands: reading their arguments and the actions they
//! queue for the application to perform.

use vstd::prelude::*;
use crate::json::{JsonValue, object_get, object_lookup};
use crate::text::{str_to_string, string_views, opt_str_view, chars_of, cat3};
use crate::commands::{enum_values, split_enum_values};
use crate::core_requests::{
    CenterRequest, DetailRequest, FixedRequest, FocusTarget, RepositoryRequest, ResetMode, fixed_request,
    fixed_request_spec,
};
use crate::text::{str_eq, trim, trim_str};

verus! {

/// What a built-in command asks the application to do.
#[derive(Debug, Clone)]
pub enum CoreCommandAction {
    /// Show the open-repository dialog.
    OpenRepositoryDialog,
    OpenRepositoryPath(String),
    CloseTab { path: Option<String> },
    SelectTab { path: String },
    ReorderTabs { paths: Vec<String> },
    RefreshGrammarRegistry { path: String },
    InstallGrammar { language: String },
    UpdateGrammar { language: String },
    UninstallGrammar { language: String },
    /// A request for the repository screen.
    Repository(RepositoryRequest),
}

/// Actions queued by built-in commands, oldest first.
pub struct CoreCommandActions {
    inner: Vec<CoreCommandAction>,
}

impl CoreCommandActions {
    pub closed spec fn queued(&self) -> Seq<CoreCommandAction> {
        self.inner@
    }

    pub fn new() -> (r: Self)
        ensures
            r.queued() == Seq::<CoreCommandAction>::empty(),
    {
        CoreCommandActions { inner: Vec::new() }
    }

    pub fn push(&mut self, action: CoreCommandAction)
        ensures
            final(self).queued() == old(self).queued().push(action),
    {
        self.inner.push(action);
    }

    /// Take every queued action, oldest first.
    pub fn drain(&mut self) -> (r: Vec<CoreCommandAction>)
        ensures
            r@ == old(self).queued(),
            final(self).queued() == Seq::<CoreCommandAction>::empty(),
    {
        let mut taken: Vec<CoreCommandAction> = Vec::new();
        std::mem::swap(&mut taken, &mut self.inner);
        taken
    }
}

/// The value under `key` of a table (nothing for anything else).
pub open spec fn json_get(v: JsonValue, key: Seq<char>) -> Option<JsonValue> {
    match v {
        JsonValue::Object(m) => object_get(m@, key),
        _ => None,
    }
}

/// A non-empty string argument.
pub open spec fn string_arg_spec(args: JsonValue, key: Seq<char>) -> Option<Seq<char>> {
    match json_get(args, key) {
        Some(JsonValue::Str(s)) => if s@.len() > 0 { Some(s@) } else { None },
        _ => None,
    }
}

/// A comma-separated list argument: its trimmed, non-empty pieces.
pub open spec fn string_list_arg_spec(args: JsonValue, key: Seq<char>) -> Seq<Seq<char>> {
    match string_arg_spec(args, key) {
        Some(s) => enum_values(s),
        None => Seq::empty(),
    }
}

pub open spec fn missing_arg_message(key: Seq<char>) -> Seq<char> {
    "missing required arg `"@ + key + "`"@
}

fn json_get_ref<'a>(v: &'a JsonValue, key: &str) -> (r: Option<&'a JsonValue>)
    ensures
        match r {
            Some(x) => json_get(*v, key@) == Some(*x),
            None => json_get(*v, key@) is None,
        },
{
    match v {
        JsonValue::Object(m) => object_lookup(m, key),
        _ => None,
    }
}

pub fn string_arg(args: &JsonValue, key: &str) -> (r: Option<String>)
    ensures
        opt_str_view(r) == string_arg_spec(*args, key@),
{
    match json_get_ref(args, key) {
        Some(JsonValue::Str(s)) => {
            if chars_of(s.as_str()).len() > 0 {
                Some(s.clone())
            } else {
                None
            }
        },
        _ => None,
    }
}

pub fn required_string_arg(args: &JsonValue, key: &str) -> (r: Result<String, String>)
    ensures
        match r {
            Ok(s) => string_arg_spec(*args, key@) == Some(s@),
            Err(e) => string_arg_spec(*args, key@) is None && e@ == missing_arg_message(key@),
        },
{
    match string_arg(args, key) {
        Some(s) => Ok(s),
        None => Err(cat3("missing required arg `", key, "`")),
    }
}

pub fn string_list_arg(args: &JsonValue, key: &str) -> (r: Vec<String>)
    ensures
        string_views(r@) == string_list_arg_spec(*args, key@),
{
    match string_arg(args, key) {
        Some(s) => {
            let v = chars_of(s.as_str());
            assert(v@.subrange(0, v@.len() as int) == v@);
            split_enum_values(&v, 0)
        },
        None => {
            let r: Vec<String> = Vec::new();
            assert(string_views(r@) =~= Seq::<Seq<char>>::empty());
            r
        },
    }
}

/// `true` only for a boolean `true` under `key`.
pub fn bool_arg(args: &JsonValue, key: &str) -> (r: bool)
    ensures
        r == (json_get(*args, key@) == Some(JsonValue::Bool(true))),
{
    match json_get_ref(args, key) {
        Some(JsonValue::Bool(b)) => *b,
        _ => false,
    }
}

/// `app.open_repository` and `repository.open`: open `path`, or show the dialog without one.
pub fn open_repository(args: &JsonValue) -> (r: Result<CoreCommandAction, String>)
    ensures
        match string_arg_spec(*args, "path"@) {
            Some(p) => r matches Ok(CoreCommandAction::OpenRepositoryPath(x)) && x@ == p,
            None => r matches Ok(CoreCommandAction::OpenRepositoryDialog),
        },
{
    match string_arg(args, "path") {
        Some(path) => Ok(CoreCommandAction::OpenRepositoryPath(path)),
        None => Ok(CoreCommandAction::OpenRepositoryDialog),
    }
}

/// `tab.close`: close `path`, or the active tab without one.
pub fn close_tab(args: &JsonValue) -> (r: Result<CoreCommandAction, String>)
    ensures
        r matches Ok(CoreCommandAction::CloseTab { path }) && opt_str_view(path) == string_arg_spec(*args, "path"@),
{
    Ok(CoreCommandAction::CloseTab { path: string_arg(args, "path") })
}

/// `tab.select`: select `path` (required).
pub fn select_tab(args: &JsonValue) -> (r: Result<CoreCommandAction, String>)
    ensures
        match string_arg_spec(*args, "path"@) {
            Some(p) => r matches Ok(CoreCommandAction::SelectTab { path }) && path@ == p,
            None => r matches Err(e) && e@ == missing_arg_message("path"@),
        },
{
    match required_string_arg(args, "path") {
        Ok(path) => Ok(CoreCommandAction::SelectTab { path }),
        Err(e) => Err(e),
    }
}

/// `tab.reorder`: the order given by `paths` (required, comma-separated).
pub fn reorder_tabs(args: &JsonValue) -> (r: Result<CoreCommandAction, String>)
    ensures
        match string_arg_spec(*args, "paths"@) {
            Some(p) => r matches Ok(CoreCommandAction::ReorderTabs { paths }) && string_views(paths@) == enum_values(p),
            None => r matches Err(e) && e@ == missing_arg_message("paths"@),
        },
{
    match required_string_arg(args, "paths") {
        Ok(joined) => {
            let v = chars_of(joined.as_str());
            assert(v@.subrange(0, v@.len() as int) == v@);
            Ok(CoreCommandAction::ReorderTabs { paths: split_enum_values(&v, 0) })
        },
        Err(e) => Err(e),
    }
}

/// `syntax.grammar.refresh_registry`: refresh the registry at `path` (required).
pub fn refresh_grammar_registry(args: &JsonValue) -> (r: Result<CoreCommandAction, String>)
    ensures
        match string_arg_spec(*args, "path"@) {
            Some(p) => r matches Ok(CoreCommandAction::RefreshGrammarRegistry { path }) && path@ == p,
            None => r matches Err(e) && e@ == missing_arg_message("path"@),
        },
{
    match required_string_arg(args, "path") {
        Ok(path) => Ok(CoreCommandAction::RefreshGrammarRegistry { path }),
        Err(e) => Err(e),
    }
}

/// `syntax.grammar.install`: install `language` (required).
pub fn install_grammar(args: &JsonValue) -> (r: Result<CoreCommandAction, String>)
    ensures
        match string_arg_spec(*args, "language"@) {
            Some(l) => r matches Ok(CoreCommandAction::InstallGrammar { language }) && language@ == l,
            None => r matches Err(e) && e@ == missing_arg_message("language"@),
        },
{
    match required_string_arg(args, "language") {
        Ok(language) => Ok(CoreCommandAction::InstallGrammar { language }),
        Err(e) => Err(e),
    }
}

/// `syntax.grammar.update`: update `language` (required).
pub fn update_grammar(args: &JsonValue) -> (r: Result<CoreCommandAction, String>)
    ensures
        match string_arg_spec(*args, "language"@) {
            Some(l) => r matches Ok(CoreCommandAction::UpdateGrammar { language }) && language@ == l,
            None => r matches Err(e) && e@ == missing_arg_message("language"@),
        },
{
    match required_string_arg(args, "language") {
        Ok(language) => Ok(CoreCommandAction::UpdateGrammar { language }),
        Err(e) => Err(e),
    }
}

/// `syntax.grammar.uninstall`: uninstall `language` (required).
pub fn uninstall_grammar(args: &JsonValue) -> (r: Result<CoreCommandAction, String>)
    ensures
        match string_arg_spec(*args, "language"@) {
            Some(l) => r matches Ok(CoreCommandAction::UninstallGrammar { language }) && language@ == l,
            None => r matches Err(e) && e@ == missing_arg_message("language"@),
        },
{
    match required_string_arg(args, "language") {
        Ok(language) => Ok(CoreCommandAction::UninstallGrammar { language }),
        Err(e) => Err(e),
    }
}


/// The integer under `key`, when it fits an `i64`.
pub open spec fn i64_arg_spec(args: JsonValue, key: Seq<char>) -> Option<int> {
    match json_get(args, key) {
        Some(JsonValue::Integer(n)) => if i64::MIN <= n <= i64::MAX { Some(n as int) } else { None },
        _ => None,
    }
}

fn i64_arg(args: &JsonValue, key: &str) -> (r: Option<i64>)
    ensures
        match r {
            Some(x) => i64_arg_spec(*args, key@) == Some(x as int),
            None => i64_arg_spec(*args, key@) is None,
        },
{
    match json_get_ref(args, key) {
        Some(JsonValue::Integer(n)) => {
            if i64::MIN as i128 <= *n && *n <= i64::MAX as i128 {
                Some(*n as i64)
            } else {
                None
            }
        },
        _ => None,
    }
}

/// A row index from an integer: negatives count as 0.
pub open spec fn index_from(n: int) -> usize {
    (if n < 0 { 0 } else { n }) as usize
}

fn index_from_i64(n: i64) -> (r: usize)
    ensures
        r == index_from(n as int),
{
    let v: i64 = if n < 0 { 0 } else { n };
    v as usize
}

/// The remote ref a branch command names: `remote_ref` when given, else
/// `<remote_name>/<branch>` (both trimmed) when `remote_name` is not blank.
pub open spec fn remote_ref_spec(args: JsonValue, branch: Seq<char>) -> Option<Seq<char>> {
    match string_arg_spec(args, "remote_ref"@) {
        Some(r) => Some(r),
        None => match string_arg_spec(args, "remote_name"@) {
            Some(remote) => if trim(remote).len() > 0 {
                Some(trim(remote) + "/"@ + trim(branch))
            } else {
                None
            },
            None => None,
        },
    }
}

fn remote_ref_arg(args: &JsonValue, remote_name: &Option<String>, branch: &str) -> (r: Option<String>)
    requires
        opt_str_view(*remote_name) == string_arg_spec(*args, "remote_name"@),
    ensures
        opt_str_view(r) == remote_ref_spec(*args, branch@),
{
    match string_arg(args, "remote_ref") {
        Some(r) => Some(r),
        None => match remote_name {
            Some(remote) => {
                let t = trim_str(remote.as_str());
                if chars_of(t.as_str()).len() > 0 {
                    let b = trim_str(branch);
                    Some(cat3(t.as_str(), "/", b.as_str()))
                } else {
                    None
                }
            },
            None => None,
        },
    }
}

/// `r` is the missing-argument error for `key`.
pub open spec fn missing(r: Result<CoreCommandAction, String>, key: Seq<char>) -> bool {
    r matches Err(e) && e@ == missing_arg_message(key)
}

/// `r` queues repository request `q`.
pub open spec fn queues(r: Result<CoreCommandAction, String>, q: RepositoryRequest) -> bool {
    r matches Ok(CoreCommandAction::Repository(x)) && x == q
}

pub open spec fn create_branch_post(args: JsonValue, r: Result<CoreCommandAction, String>) -> bool {
    r matches Ok(CoreCommandAction::Repository(RepositoryRequest::CreateBranchAtSelected { commit_idx, hash }))
        && commit_idx == (match i64_arg_spec(args, "commit_idx"@) {
            Some(n) => Some(index_from(n)),
            None => None,
        })
        && opt_str_view(hash) == string_arg_spec(args, "hash"@)
}

/// `branch.create`: a branch at row `commit_idx` or at commit `hash`, both
/// optional.
pub fn create_branch(args: &JsonValue) -> (r: Result<CoreCommandAction, String>)
    ensures
        create_branch_post(*args, r),
{
    let commit_idx = match i64_arg(args, "commit_idx") {
        Some(n) => Some(index_from_i64(n)),
        None => None,
    };
    Ok(CoreCommandAction::Repository(RepositoryRequest::CreateBranchAtSelected { commit_idx, hash: string_arg(args, "hash") }))
}

pub open spec fn create_tag_post(args: JsonValue, r: Result<CoreCommandAction, String>) -> bool {
    match string_arg_spec(args, "hash"@) {
        Some(h) => r matches Ok(CoreCommandAction::Repository(RepositoryRequest::Center(CenterRequest::CreateTagHereRequested { commit_hash })))
            && commit_hash@ == h,
        None => missing(r, "hash"@),
    }
}

/// `tag.create`: the create-tag dialog at commit `hash` (required).
pub fn create_tag(args: &JsonValue) -> (r: Result<CoreCommandAction, String>)
    ensures
        create_tag_post(*args, r),
{
    match required_string_arg(args, "hash") {
        Ok(commit_hash) => Ok(CoreCommandAction::Repository(RepositoryRequest::Center(CenterRequest::CreateTagHereRequested { commit_hash }))),
        Err(e) => Err(e),
    }
}

pub open spec fn delete_tag_post(args: JsonValue, r: Result<CoreCommandAction, String>) -> bool {
    match string_arg_spec(args, "name"@) {
        Some(n) => r matches Ok(CoreCommandAction::Repository(RepositoryRequest::Center(CenterRequest::DeleteTagRequested { tag_name, tag_remote_names })))
            && tag_name@ == n && string_views(tag_remote_names@) == string_list_arg_spec(args, "remote_names"@),
        None => missing(r, "name"@),
    }
}

/// `tag.delete`: the delete-tag confirmation for `name` (required), with
/// the remotes that hold it (comma-separated `remote_names`).
pub fn delete_tag(args: &JsonValue) -> (r: Result<CoreCommandAction, String>)
    ensures
        delete_tag_post(*args, r),
{
    match required_string_arg(args, "name") {
        Ok(tag_name) => Ok(CoreCommandAction::Repository(RepositoryRequest::Center(CenterRequest::DeleteTagRequested {
            tag_name,
            tag_remote_names: string_list_arg(args, "remote_names"),
        }))),
        Err(e) => Err(e),
    }
}

pub open spec fn push_tag_post(args: JsonValue, r: Result<CoreCommandAction, String>) -> bool {
    match (string_arg_spec(args, "tag_name"@), string_arg_spec(args, "remote_name"@)) {
        (Some(t), Some(m)) => r matches Ok(CoreCommandAction::Repository(RepositoryRequest::Center(CenterRequest::PushTagRequested { tag_name, remote_name })))
            && tag_name@ == t && remote_name@ == m,
        (None, _) => missing(r, "tag_name"@),
        (Some(_), None) => missing(r, "remote_name"@),
    }
}

/// `tag.push`: push `tag_name` to `remote_name` (both required).
pub fn push_tag(args: &JsonValue) -> (r: Result<CoreCommandAction, String>)
    ensures
        push_tag_post(*args, r),
{
    let tag_name = match required_string_arg(args, "tag_name") {
        Ok(t) => t,
        Err(e) => return Err(e),
    };
    let remote_name = match required_string_arg(args, "remote_name") {
        Ok(m) => m,
        Err(e) => return Err(e),
    };
    Ok(CoreCommandAction::Repository(RepositoryRequest::Center(CenterRequest::PushTagRequested { tag_name, remote_name })))
}

pub open spec fn delete_branch_post(args: JsonValue, r: Result<CoreCommandAction, String>) -> bool {
    match string_arg_spec(args, "name"@) {
        Some(n) => r matches Ok(CoreCommandAction::Repository(RepositoryRequest::Center(CenterRequest::BranchDeleteRequested {
            branch_name,
            is_remote,
            has_remote,
            remote_name,
            remote_ref,
        }))) && branch_name@ == n
            && is_remote == (json_get(args, "is_remote"@) == Some(JsonValue::Bool(true)))
            && has_remote == (json_get(args, "has_remote"@) == Some(JsonValue::Bool(true)))
            && opt_str_view(remote_name) == string_arg_spec(args, "remote_name"@)
            && opt_str_view(remote_ref) == remote_ref_spec(args, n),
        None => missing(r, "name"@),
    }
}

/// `branch.delete`: the delete-branch confirmation for `name` (required).
pub fn delete_branch(args: &JsonValue) -> (r: Result<CoreCommandAction, String>)
    ensures
        delete_branch_post(*args, r),
{
    let remote_name = string_arg(args, "remote_name");
    let branch_name = match required_string_arg(args, "name") {
        Ok(b) => b,
        Err(e) => return Err(e),
    };
    let remote_ref = remote_ref_arg(args, &remote_name, branch_name.as_str());
    Ok(CoreCommandAction::Repository(RepositoryRequest::Center(CenterRequest::BranchDeleteRequested {
        branch_name,
        is_remote: bool_arg(args, "is_remote"),
        has_remote: bool_arg(args, "has_remote"),
        remote_name,
        remote_ref,
    })))
}

pub open spec fn delete_branch_local_post(args: JsonValue, r: Result<CoreCommandAction, String>) -> bool {
    match string_arg_spec(args, "name"@) {
        Some(n) => r matches Ok(CoreCommandAction::Repository(RepositoryRequest::DeleteBranchDirect { branch_name, is_remote, remote_ref }))
            && branch_name@ == n && !is_remote && remote_ref is None,
        None => missing(r, "name"@),
    }
}

/// `branch.delete.local`: delete local branch `name` (required) at once.
pub fn delete_branch_local_direct(args: &JsonValue) -> (r: Result<CoreCommandAction, String>)
    ensures
        delete_branch_local_post(*args, r),
{
    match required_string_arg(args, "name") {
        Ok(branch_name) => Ok(CoreCommandAction::Repository(RepositoryRequest::DeleteBranchDirect { branch_name, is_remote: false, remote_ref: None })),
        Err(e) => Err(e),
    }
}

pub open spec fn delete_branch_remote_post(args: JsonValue, r: Result<CoreCommandAction, String>) -> bool {
    match string_arg_spec(args, "name"@) {
        Some(n) => r matches Ok(CoreCommandAction::Repository(RepositoryRequest::DeleteBranchDirect { branch_name, is_remote, remote_ref }))
            && branch_name@ == n && is_remote && opt_str_view(remote_ref) == remote_ref_spec(args, n),
        None => missing(r, "name"@),
    }
}

/// `branch.delete.remote`: delete remote branch `name` (required) at once.
pub fn delete_branch_remote_direct(args: &JsonValue) -> (r: Result<CoreCommandAction, String>)
    ensures
        delete_branch_remote_post(*args, r),
{
    let remote_name = string_arg(args, "remote_name");
    let branch_name = match required_string_arg(args, "name") {
        Ok(b) => b,
        Err(e) => return Err(e),
    };
    let remote_ref = remote_ref_arg(args, &remote_name, branch_name.as_str());
    Ok(CoreCommandAction::Repository(RepositoryRequest::DeleteBranchDirect { branch_name, is_remote: true, remote_ref }))
}

pub open spec fn delete_branch_both_post(args: JsonValue, r: Result<CoreCommandAction, String>) -> bool {
    match string_arg_spec(args, "name"@) {
        Some(n) => r matches Ok(CoreCommandAction::Repository(RepositoryRequest::DeleteBranchLocalAndRemote { branch_name }))
            && branch_name@ == n,
        None => missing(r, "name"@),
    }
}

/// `branch.delete.local_and_remote`: delete branch `name` (required) and
/// its remote branch at once.
pub fn delete_branch_local_and_remote_direct(args: &JsonValue) -> (r: Result<CoreCommandAction, String>)
    ensures
        delete_branch_both_post(*args, r),
{
    match required_string_arg(args, "name") {
        Ok(branch_name) => Ok(CoreCommandAction::Repository(RepositoryRequest::DeleteBranchLocalAndRemote { branch_name })),
        Err(e) => Err(e),
    }
}

pub open spec fn rename_branch_post(args: JsonValue, r: Result<CoreCommandAction, String>) -> bool {
    match string_arg_spec(args, "name"@) {
        Some(n) => r matches Ok(CoreCommandAction::Repository(RepositoryRequest::Center(CenterRequest::BranchRenameRequested {
            branch_name,
            is_remote,
            remote_name,
            remote_ref,
        }))) && branch_name@ == n
            && is_remote == (json_get(args, "is_remote"@) == Some(JsonValue::Bool(true)))
            && opt_str_view(remote_name) == string_arg_spec(args, "remote_name"@)
            && opt_str_view(remote_ref) == remote_ref_spec(args, n),
        None => missing(r, "name"@),
    }
}

/// `branch.rename`: the rename prompt for branch `name` (required).
pub fn rename_branch(args: &JsonValue) -> (r: Result<CoreCommandAction, String>)
    ensures
        rename_branch_post(*args, r),
{
    let remote_name = string_arg(args, "remote_name");
    let branch_name = match required_string_arg(args, "name") {
        Ok(b) => b,
        Err(e) => return Err(e),
    };
    let remote_ref = remote_ref_arg(args, &remote_name, branch_name.as_str());
    Ok(CoreCommandAction::Repository(RepositoryRequest::Center(CenterRequest::BranchRenameRequested {
        branch_name,
        is_remote: bool_arg(args, "is_remote"),
        remote_name,
        remote_ref,
    })))
}

pub open spec fn checkout_branch_post(args: JsonValue, r: Result<CoreCommandAction, String>) -> bool {
    match string_arg_spec(args, "ref"@) {
        Some(b) => if json_get(args, "remote"@) == Some(JsonValue::Bool(true)) {
            r matches Ok(CoreCommandAction::Repository(RepositoryRequest::Center(CenterRequest::RemoteBranchLabelPressed { branch_name, remote_ref })))
                && branch_name@ == b && remote_ref is None
        } else {
            r matches Ok(CoreCommandAction::Repository(RepositoryRequest::Center(CenterRequest::BranchLabelPressed(x)))) && x@ == b
        },
        None => missing(r, "ref"@),
    }
}

/// `branch.checkout`: check out `ref` (required), a remote branch when
/// `remote` is true.
pub fn checkout_branch(args: &JsonValue) -> (r: Result<CoreCommandAction, String>)
    ensures
        checkout_branch_post(*args, r),
{
    let branch = match required_string_arg(args, "ref") {
        Ok(b) => b,
        Err(e) => return Err(e),
    };
    let action = if bool_arg(args, "remote") {
        CenterRequest::RemoteBranchLabelPressed { branch_name: branch, remote_ref: None }
    } else {
        CenterRequest::BranchLabelPressed(branch)
    };
    Ok(CoreCommandAction::Repository(RepositoryRequest::Center(action)))
}

pub open spec fn merge_branch_post(args: JsonValue, r: Result<CoreCommandAction, String>) -> bool {
    match (string_arg_spec(args, "source_branch"@), string_arg_spec(args, "target_branch"@)) {
        (Some(s), Some(t)) => r matches Ok(CoreCommandAction::Repository(RepositoryRequest::Center(CenterRequest::BranchMergeRequested { source_branch, target_branch })))
            && source_branch@ == s && target_branch@ == t,
        (None, _) => missing(r, "source_branch"@),
        (Some(_), None) => missing(r, "target_branch"@),
    }
}

/// `branch.merge`: merge `source_branch` into `target_branch` (both
/// required).
pub fn merge_branch(args: &JsonValue) -> (r: Result<CoreCommandAction, String>)
    ensures
        merge_branch_post(*args, r),
{
    let source_branch = match required_string_arg(args, "source_branch") {
        Ok(s) => s,
        Err(e) => return Err(e),
    };
    let target_branch = match required_string_arg(args, "target_branch") {
        Ok(t) => t,
        Err(e) => return Err(e),
    };
    Ok(CoreCommandAction::Repository(RepositoryRequest::Center(CenterRequest::BranchMergeRequested { source_branch, target_branch })))
}

/// The reset mode a `mode` argument names; `mixed` when there is none.
pub open spec fn reset_mode_spec(args: JsonValue) -> Result<ResetMode, Seq<char>> {
    let m = match string_arg_spec(args, "mode"@) {
        Some(m) => m,
        None => "mixed"@,
    };
    if m == "soft"@ {
        Ok(ResetMode::Soft)
    } else if m == "mixed"@ {
        Ok(ResetMode::Mixed)
    } else if m == "hard"@ {
        Ok(ResetMode::Hard)
    } else {
        Err("unknown reset mode `"@ + m + "`; expected soft, mixed, or hard"@)
    }
}

pub open spec fn reset_branch_post(args: JsonValue, r: Result<CoreCommandAction, String>) -> bool {
    match reset_mode_spec(args) {
        Err(msg) => r matches Err(e) && e@ == msg,
        Ok(m) => match string_arg_spec(args, "hash"@) {
            Some(h) => r matches Ok(CoreCommandAction::Repository(RepositoryRequest::Center(CenterRequest::ResetToCommitRequested { commit_hash, mode })))
                && commit_hash@ == h && mode == m,
            None => missing(r, "hash"@),
        },
    }
}

/// `branch.reset`: reset to commit `hash` (required) in `mode` (`soft`,
/// `mixed` or `hard`; `mixed` when not given).
pub fn reset_branch(args: &JsonValue) -> (r: Result<CoreCommandAction, String>)
    ensures
        reset_branch_post(*args, r),
{
    let given = string_arg(args, "mode");
    let m: String = match given {
        Some(m) => m,
        None => str_to_string("mixed"),
    };
    let mode = if str_eq(m.as_str(), "soft") {
        ResetMode::Soft
    } else if str_eq(m.as_str(), "mixed") {
        ResetMode::Mixed
    } else if str_eq(m.as_str(), "hard") {
        ResetMode::Hard
    } else {
        return Err(cat3("unknown reset mode `", m.as_str(), "`; expected soft, mixed, or hard"));
    };
    match required_string_arg(args, "hash") {
        Ok(commit_hash) => Ok(CoreCommandAction::Repository(RepositoryRequest::Center(CenterRequest::ResetToCommitRequested { commit_hash, mode }))),
        Err(e) => Err(e),
    }
}

pub open spec fn stash_pop_post(args: JsonValue, r: Result<CoreCommandAction, String>) -> bool {
    r matches Ok(CoreCommandAction::Repository(RepositoryRequest::Center(CenterRequest::StashPopRequested { stash_index })))
        && stash_index == index_from(match i64_arg_spec(args, "index"@) {
            Some(n) => n,
            None => 0,
        })
}

/// `stash.pop`: pop stash `index` (0 when not given; negatives count as 0).
pub fn stash_pop(args: &JsonValue) -> (r: Result<CoreCommandAction, String>)
    ensures
        stash_pop_post(*args, r),
{
    let n: i64 = match i64_arg(args, "index") {
        Some(n) => n,
        None => 0,
    };
    Ok(CoreCommandAction::Repository(RepositoryRequest::Center(CenterRequest::StashPopRequested { stash_index: index_from_i64(n) })))
}

/// The move a `direction` names.
pub open spec fn direction_spec(d: Seq<char>) -> Option<CenterRequest> {
    if d == "first"@ || d == "top"@ {
        Some(CenterRequest::NavigateFirst)
    } else if d == "last"@ || d == "bottom"@ {
        Some(CenterRequest::NavigateLast)
    } else if d == "previous"@ || d == "prev"@ || d == "up"@ {
        Some(CenterRequest::NavigateUp)
    } else if d == "next"@ || d == "down"@ {
        Some(CenterRequest::NavigateDown)
    } else {
        None
    }
}

pub open spec fn move_selection_post(args: JsonValue, r: Result<CoreCommandAction, String>) -> bool {
    match string_arg_spec(args, "direction"@) {
        Some(d) => match direction_spec(d) {
            Some(a) => r matches Ok(CoreCommandAction::Repository(RepositoryRequest::MoveSelection { action, extend }))
                && action == a && extend == (json_get(args, "extend"@) == Some(JsonValue::Bool(true))),
            None => r matches Err(e) && e@ == "unknown direction `"@ + d + "`; expected first, last, previous, or next"@,
        },
        None => missing(r, "direction"@),
    }
}

/// `repository.move_selection`: move (or, with `extend`, extend) the
/// selection in `direction` (required).
pub fn move_selection(args: &JsonValue) -> (r: Result<CoreCommandAction, String>)
    ensures
        move_selection_post(*args, r),
{
    let direction = match required_string_arg(args, "direction") {
        Ok(d) => d,
        Err(e) => return Err(e),
    };
    let d = direction.as_str();
    let action = if str_eq(d, "first") || str_eq(d, "top") {
        CenterRequest::NavigateFirst
    } else if str_eq(d, "last") || str_eq(d, "bottom") {
        CenterRequest::NavigateLast
    } else if str_eq(d, "previous") || str_eq(d, "prev") || str_eq(d, "up") {
        CenterRequest::NavigateUp
    } else if str_eq(d, "next") || str_eq(d, "down") {
        CenterRequest::NavigateDown
    } else {
        return Err(cat3("unknown direction `", d, "`; expected first, last, previous, or next"));
    };
    Ok(CoreCommandAction::Repository(RepositoryRequest::MoveSelection { action, extend: bool_arg(args, "extend") }))
}

/// The panel a `panel` argument names.
pub open spec fn focus_target_spec(p: Seq<char>) -> Option<FocusTarget> {
    if p == "sidebar"@ {
        Some(FocusTarget::Sidebar)
    } else if p == "center"@ {
        Some(FocusTarget::Center)
    } else if p == "graph"@ {
        Some(FocusTarget::Graph)
    } else if p == "details"@ {
        Some(FocusTarget::Details)
    } else if p == "diff"@ {
        Some(FocusTarget::Diff)
    } else {
        None
    }
}

pub open spec fn focus_panel_post(args: JsonValue, r: Result<CoreCommandAction, String>) -> bool {
    match string_arg_spec(args, "panel"@) {
        Some(p) => match focus_target_spec(p) {
            Some(t) => queues(r, RepositoryRequest::FocusPanel(t)),
            None => r matches Err(e) && e@ == "unknown panel `"@ + p + "` (expected sidebar | center | graph | details | diff)"@,
        },
        None => missing(r, "panel"@),
    }
}

/// `repository.focus_panel`: focus `panel` (required).
pub fn focus_panel(args: &JsonValue) -> (r: Result<CoreCommandAction, String>)
    ensures
        focus_panel_post(*args, r),
{
    let raw = match required_string_arg(args, "panel") {
        Ok(p) => p,
        Err(e) => return Err(e),
    };
    let p = raw.as_str();
    let target = if str_eq(p, "sidebar") {
        FocusTarget::Sidebar
    } else if str_eq(p, "center") {
        FocusTarget::Center
    } else if str_eq(p, "graph") {
        FocusTarget::Graph
    } else if str_eq(p, "details") {
        FocusTarget::Details
    } else if str_eq(p, "diff") {
        FocusTarget::Diff
    } else {
        return Err(cat3("unknown panel `", p, "` (expected sidebar | center | graph | details | diff)"));
    };
    Ok(CoreCommandAction::Repository(RepositoryRequest::FocusPanel(target)))
}

pub open spec fn copy_hash_post(args: JsonValue, r: Result<CoreCommandAction, String>) -> bool {
    r matches Ok(CoreCommandAction::Repository(RepositoryRequest::CopyCommitHash { hash }))
        && opt_str_view(hash) == string_arg_spec(args, "hash"@)
}

/// `commit.copy_hash`: copy `hash`, or the selected commit's without one.
pub fn copy_hash(args: &JsonValue) -> (r: Result<CoreCommandAction, String>)
    ensures
        copy_hash_post(*args, r),
{
    Ok(CoreCommandAction::Repository(RepositoryRequest::CopyCommitHash { hash: string_arg(args, "hash") }))
}

pub open spec fn mark_file_resolved_post(args: JsonValue, r: Result<CoreCommandAction, String>) -> bool {
    match string_arg_spec(args, "path"@) {
        Some(p) => r matches Ok(CoreCommandAction::Repository(RepositoryRequest::Detail(DetailRequest::MarkConflictResolved(x))))
            && x@ == p,
        None => missing(r, "path"@),
    }
}

/// `conflict.mark_file_resolved`: mark conflict file `path` (required)
/// resolved.
pub fn mark_file_resolved(args: &JsonValue) -> (r: Result<CoreCommandAction, String>)
    ensures
        mark_file_resolved_post(*args, r),
{
    match required_string_arg(args, "path") {
        Ok(p) => Ok(CoreCommandAction::Repository(RepositoryRequest::Detail(DetailRequest::MarkConflictResolved(p)))),
        Err(e) => Err(e),
    }
}


pub open spec fn open_repository_post(args: JsonValue, r: Result<CoreCommandAction, String>) -> bool {
    match string_arg_spec(args, "path"@) {
        Some(p) => r matches Ok(CoreCommandAction::OpenRepositoryPath(x)) && x@ == p,
        None => r matches Ok(CoreCommandAction::OpenRepositoryDialog),
    }
}

pub open spec fn close_tab_post(args: JsonValue, r: Result<CoreCommandAction, String>) -> bool {
    r matches Ok(CoreCommandAction::CloseTab { path }) && opt_str_view(path) == string_arg_spec(args, "path"@)
}

pub open spec fn select_tab_post(args: JsonValue, r: Result<CoreCommandAction, String>) -> bool {
    match string_arg_spec(args, "path"@) {
        Some(p) => r matches Ok(CoreCommandAction::SelectTab { path }) && path@ == p,
        None => missing(r, "path"@),
    }
}

pub open spec fn reorder_tabs_post(args: JsonValue, r: Result<CoreCommandAction, String>) -> bool {
    match string_arg_spec(args, "paths"@) {
        Some(p) => r matches Ok(CoreCommandAction::ReorderTabs { paths }) && string_views(paths@) == enum_values(p),
        None => missing(r, "paths"@),
    }
}

pub open spec fn refresh_grammar_registry_post(args: JsonValue, r: Result<CoreCommandAction, String>) -> bool {
    match string_arg_spec(args, "path"@) {
        Some(p) => r matches Ok(CoreCommandAction::RefreshGrammarRegistry { path }) && path@ == p,
        None => missing(r, "path"@),
    }
}

pub open spec fn install_grammar_post(args: JsonValue, r: Result<CoreCommandAction, String>) -> bool {
    match string_arg_spec(args, "language"@) {
        Some(l) => r matches Ok(CoreCommandAction::InstallGrammar { language }) && language@ == l,
        None => missing(r, "language"@),
    }
}

pub open spec fn update_grammar_post(args: JsonValue, r: Result<CoreCommandAction, String>) -> bool {
    match string_arg_spec(args, "language"@) {
        Some(l) => r matches Ok(CoreCommandAction::UpdateGrammar { language }) && language@ == l,
        None => missing(r, "language"@),
    }
}

pub open spec fn uninstall_grammar_post(args: JsonValue, r: Result<CoreCommandAction, String>) -> bool {
    match string_arg_spec(args, "language"@) {
        Some(l) => r matches Ok(CoreCommandAction::UninstallGrammar { language }) && language@ == l,
        None => missing(r, "language"@),
    }
}

/// Which reading of its arguments a built-in command's body performs.
#[derive(Debug, Clone, Copy, PartialEq, Eq, Structural)]
pub enum CoreBuilder {
    OpenRepository,
    CloseTab,
    SelectTab,
    ReorderTabs,
    CreateBranch,
    CreateTag,
    DeleteTag,
    PushTag,
    DeleteBranch,
    DeleteBranchLocal,
    DeleteBranchRemote,
    DeleteBranchLocalAndRemote,
    RenameBranch,
    CheckoutBranch,
    MergeBranch,
    ResetBranch,
    StashPop,
    MoveSelection,
    FocusPanel,
    CopyHash,
    MarkFileResolved,
    RefreshGrammarRegistry,
    InstallGrammar,
    UpdateGrammar,
    UninstallGrammar,
    /// A request that reads no argument.
    Fixed(FixedRequest),
}

/// What building the action of `b` from `args` gives.
pub open spec fn build_post(b: CoreBuilder, args: JsonValue, r: Result<CoreCommandAction, String>) -> bool {
    match b {
        CoreBuilder::OpenRepository => open_repository_post(args, r),
        CoreBuilder::CloseTab => close_tab_post(args, r),
        CoreBuilder::SelectTab => select_tab_post(args, r),
        CoreBuilder::ReorderTabs => reorder_tabs_post(args, r),
        CoreBuilder::CreateBranch => create_branch_post(args, r),
        CoreBuilder::CreateTag => create_tag_post(args, r),
        CoreBuilder::DeleteTag => delete_tag_post(args, r),
        CoreBuilder::PushTag => push_tag_post(args, r),
        CoreBuilder::DeleteBranch => delete_branch_post(args, r),
        CoreBuilder::DeleteBranchLocal => delete_branch_local_post(args, r),
        CoreBuilder::DeleteBranchRemote => delete_branch_remote_post(args, r),
        CoreBuilder::DeleteBranchLocalAndRemote => delete_branch_both_post(args, r),
        CoreBuilder::RenameBranch => rename_branch_post(args, r),
        CoreBuilder::CheckoutBranch => checkout_branch_post(args, r),
        CoreBuilder::MergeBranch => merge_branch_post(args, r),
        CoreBuilder::ResetBranch => reset_branch_post(args, r),
        CoreBuilder::StashPop => stash_pop_post(args, r),
        CoreBuilder::MoveSelection => move_selection_post(args, r),
        CoreBuilder::FocusPanel => focus_panel_post(args, r),
        CoreBuilder::CopyHash => copy_hash_post(args, r),
        CoreBuilder::MarkFileResolved => mark_file_resolved_post(args, r),
        CoreBuilder::RefreshGrammarRegistry => refresh_grammar_registry_post(args, r),
        CoreBuilder::InstallGrammar => install_grammar_post(args, r),
        CoreBuilder::UpdateGrammar => update_grammar_post(args, r),
        CoreBuilder::UninstallGrammar => uninstall_grammar_post(args, r),
        CoreBuilder::Fixed(f) => queues(r, fixed_request_spec(f)),
    }
}

/// Build the action `b` queues for `args`, or the reason it cannot.
pub fn build_action(b: CoreBuilder, args: &JsonValue) -> (r: Result<CoreCommandAction, String>)
    ensures
        build_post(b, *args, r),
{
    match b {
        CoreBuilder::OpenRepository => open_repository(args),
        CoreBuilder::CloseTab => close_tab(args),
        CoreBuilder::SelectTab => select_tab(args),
        CoreBuilder::ReorderTabs => reorder_tabs(args),
        CoreBuilder::CreateBranch => create_branch(args),
        CoreBuilder::CreateTag => create_tag(args),
        CoreBuilder::DeleteTag => delete_tag(args),
        CoreBuilder::PushTag => push_tag(args),
        CoreBuilder::DeleteBranch => delete_branch(args),
        CoreBuilder::DeleteBranchLocal => delete_branch_local_direct(args),
        CoreBuilder::DeleteBranchRemote => delete_branch_remote_direct(args),
        CoreBuilder::DeleteBranchLocalAndRemote => delete_branch_local_and_remote_direct(args),
        CoreBuilder::RenameBranch => rename_branch(args),
        CoreBuilder::CheckoutBranch => checkout_branch(args),
        CoreBuilder::MergeBranch => merge_branch(args),
        CoreBuilder::ResetBranch => reset_branch(args),
        CoreBuilder::StashPop => stash_pop(args),
        CoreBuilder::MoveSelection => move_selection(args),
        CoreBuilder::FocusPanel => focus_panel(args),
        CoreBuilder::CopyHash => copy_hash(args),
        CoreBuilder::MarkFileResolved => mark_file_resolved(args),
        CoreBuilder::RefreshGrammarRegistry => refresh_grammar_registry(args),
        CoreBuilder::InstallGrammar => install_grammar(args),
        CoreBuilder::UpdateGrammar => update_grammar(args),
        CoreBuilder::UninstallGrammar => uninstall_grammar(args),
        CoreBuilder::Fixed(f) => Ok(CoreCommandAction::Repository(fixed_request(f))),
    }
}

} // verus!
