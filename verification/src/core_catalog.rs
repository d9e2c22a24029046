//! The catalogue of built-in host commands: names, titles, argument
//! schemas, the capabilities a plugin needs to invoke them, and what their
//! bodies do; their registration under the host's plugin id, and the body
//! that runs one.

use vstd::prelude::*;
use crate::commands::{
    ArgTypeSpec, CommandArg, CommandArgType, CommandAvailability, CommandBody, CommandDescriptor, CommandEntry,
    CommandHooks, CommandRegistry, HOST_COMMAND_PLUGIN_ID, register_seq, register_diags, register_one_diag,
};
use crate::core_commands::{CoreBuilder, CoreCommandAction, CoreCommandActions, build_action, build_post};
use crate::core_requests::FixedRequest;
use crate::diagnostic::{DiagnosticStore, DiagnosticView};
use crate::json::JsonValue;
use crate::text::{str_to_string, string_views, opt_str_view};

verus! {

/// Default of a built-in command's argument.
#[derive(Debug, Clone, Copy)]
pub enum CoreDefault {
    Bool(bool),
    Integer(i128),
    Str(&'static str),
}

pub enum DefaultV {
    Bool(bool),
    Integer(i128),
    Str(Seq<char>),
}

impl View for CoreDefault {
    type V = DefaultV;

    open spec fn view(&self) -> DefaultV {
        match self {
            CoreDefault::Bool(b) => DefaultV::Bool(*b),
            CoreDefault::Integer(n) => DefaultV::Integer(*n),
            CoreDefault::Str(s) => DefaultV::Str(s@),
        }
    }
}

pub open spec fn default_view(d: Option<CoreDefault>) -> Option<DefaultV> {
    match d {
        Some(x) => Some(x@),
        None => None,
    }
}

/// One argument of a built-in command.
pub struct CoreArg {
    pub name: &'static str,
    pub ty: CommandArgType,
    pub required: bool,
    pub default: Option<CoreDefault>,
    pub doc: &'static str,
}

pub struct CoreArgV {
    pub name: Seq<char>,
    pub ty: ArgTypeSpec,
    pub required: bool,
    pub default: Option<DefaultV>,
    pub doc: Seq<char>,
}

impl View for CoreArg {
    type V = CoreArgV;

    open spec fn view(&self) -> CoreArgV {
        CoreArgV { name: self.name@, ty: self.ty@, required: self.required, default: default_view(self.default), doc: self.doc@ }
    }
}

/// What a built-in command's body does: queue the action a builder makes
/// of the arguments, or fail with a fixed reason.
#[derive(Debug, Clone, Copy)]
pub enum CoreActionKind {
    Queue(CoreBuilder),
    Unimplemented(&'static str),
}

pub enum ActionKindV {
    Queue(CoreBuilder),
    Unimplemented(Seq<char>),
}

impl View for CoreActionKind {
    type V = ActionKindV;

    open spec fn view(&self) -> ActionKindV {
        match self {
            CoreActionKind::Queue(b) => ActionKindV::Queue(*b),
            CoreActionKind::Unimplemented(r) => ActionKindV::Unimplemented(r@),
        }
    }
}

/// One entry of the catalogue.
pub struct CoreCommandSpec {
    pub name: &'static str,
    pub title: &'static str,
    pub description: &'static str,
    pub context: &'static str,
    pub args: Vec<CoreArg>,
    pub destructive: bool,
    pub plugin_caps: Vec<&'static str>,
    pub enabled: CommandAvailability,
    pub keymap: bool,
    pub palette: bool,
    pub action: CoreActionKind,
}

pub struct CoreSpecV {
    pub name: Seq<char>,
    pub title: Seq<char>,
    pub description: Seq<char>,
    pub context: Seq<char>,
    pub args: Seq<CoreArgV>,
    pub destructive: bool,
    pub plugin_caps: Seq<Seq<char>>,
    pub enabled: bool,
    pub disabled_reason: Option<Seq<char>>,
    pub keymap: bool,
    pub palette: bool,
    pub action: ActionKindV,
}

pub open spec fn str_views(s: Seq<&'static str>) -> Seq<Seq<char>> {
    s.map_values(|x: &'static str| x@)
}

pub open spec fn core_arg_views(s: Seq<CoreArg>) -> Seq<CoreArgV> {
    s.map_values(|a: CoreArg| a@)
}

impl View for CoreCommandSpec {
    type V = CoreSpecV;

    open spec fn view(&self) -> CoreSpecV {
        CoreSpecV {
            name: self.name@,
            title: self.title@,
            description: self.description@,
            context: self.context@,
            args: core_arg_views(self.args@),
            destructive: self.destructive,
            plugin_caps: str_views(self.plugin_caps@),
            enabled: self.enabled.enabled,
            disabled_reason: opt_str_view(self.enabled.reason),
            keymap: self.keymap,
            palette: self.palette,
            action: self.action@,
        }
    }
}

/// A fresh entry: no arguments or capabilities, enabled, on the keymap and
/// in the palette, and a body that fails as unimplemented.
pub open spec fn base_v(name: Seq<char>, title: Seq<char>, description: Seq<char>, context: Seq<char>) -> CoreSpecV {
    CoreSpecV {
        name,
        title,
        description,
        context,
        args: Seq::empty(),
        destructive: false,
        plugin_caps: Seq::empty(),
        enabled: true,
        disabled_reason: None,
        keymap: true,
        palette: true,
        action: ActionKindV::Unimplemented("unimplemented"@),
    }
}

pub open spec fn arg_v(name: Seq<char>, ty: ArgTypeSpec, required: bool, default: Option<DefaultV>, doc: Seq<char>) -> CoreArgV {
    CoreArgV { name, ty, required, default, doc }
}

pub open spec fn with_arg(s: CoreSpecV, a: CoreArgV) -> CoreSpecV {
    CoreSpecV { args: s.args.push(a), ..s }
}

pub open spec fn with_cap(s: CoreSpecV, c: Seq<char>) -> CoreSpecV {
    CoreSpecV { plugin_caps: s.plugin_caps.push(c), ..s }
}

pub open spec fn as_destructive(s: CoreSpecV) -> CoreSpecV {
    CoreSpecV { destructive: true, ..s }
}

pub open spec fn as_disabled(s: CoreSpecV, reason: Seq<char>) -> CoreSpecV {
    CoreSpecV { enabled: false, disabled_reason: Some(reason), ..s }
}

pub open spec fn with_action(s: CoreSpecV, b: CoreBuilder) -> CoreSpecV {
    CoreSpecV { action: ActionKindV::Queue(b), ..s }
}

pub open spec fn as_unimplemented(s: CoreSpecV, reason: Seq<char>) -> CoreSpecV {
    CoreSpecV { action: ActionKindV::Unimplemented(reason), ..s }
}

fn spec(name: &'static str, title: &'static str, description: &'static str, context: &'static str) -> (r: CoreCommandSpec)
    ensures
        r@ == base_v(name@, title@, description@, context@),
{
    let r = CoreCommandSpec {
        name,
        title,
        description,
        context,
        args: Vec::new(),
        destructive: false,
        plugin_caps: Vec::new(),
        enabled: CommandAvailability::enabled(),
        keymap: true,
        palette: true,
        action: CoreActionKind::Unimplemented("unimplemented"),
    };
    assert(core_arg_views(r.args@) =~= Seq::<CoreArgV>::empty());
    assert(str_views(r.plugin_caps@) =~= Seq::<Seq<char>>::empty());
    r
}

impl CoreCommandSpec {
    fn arg(self, name: &'static str, ty: CommandArgType, required: bool, default: Option<CoreDefault>, doc: &'static str) -> (r: Self)
        ensures
            r@ == with_arg(self@, arg_v(name@, ty@, required, default_view(default), doc@)),
    {
        let mut s = self;
        let ghost before = s.args@;
        s.args.push(CoreArg { name, ty, required, default, doc });
        assert(core_arg_views(s.args@) =~= core_arg_views(before).push(arg_v(name@, ty@, required, default_view(default), doc@)));
        s
    }

    fn cap(self, cap: &'static str) -> (r: Self)
        ensures
            r@ == with_cap(self@, cap@),
    {
        let mut s = self;
        let ghost before = s.plugin_caps@;
        s.plugin_caps.push(cap);
        assert(str_views(s.plugin_caps@) =~= str_views(before).push(cap@));
        s
    }

    fn destructive(self) -> (r: Self)
        ensures
            r@ == as_destructive(self@),
    {
        let mut s = self;
        s.destructive = true;
        s
    }

    fn disabled(self, reason: &'static str) -> (r: Self)
        ensures
            r@ == as_disabled(self@, reason@),
    {
        let mut s = self;
        s.enabled = CommandAvailability::disabled(reason);
        s
    }

    fn action(self, b: CoreBuilder) -> (r: Self)
        ensures
            r@ == with_action(self@, b),
    {
        let mut s = self;
        s.action = CoreActionKind::Queue(b);
        s
    }

    fn unimplemented(self, reason: &'static str) -> (r: Self)
        ensures
            r@ == as_unimplemented(self@, reason@),
    {
        let mut s = self;
        s.action = CoreActionKind::Unimplemented(reason);
        s
    }
}

pub open spec fn reset_modes_v() -> ArgTypeSpec {
    ArgTypeSpec::Enum(seq!["soft"@, "mixed"@, "hard"@])
}

fn reset_modes() -> (r: CommandArgType)
    ensures
        r@ == reset_modes_v(),
{
    let mut v: Vec<String> = Vec::new();
    v.push(str_to_string("soft"));
    v.push(str_to_string("mixed"));
    v.push(str_to_string("hard"));
    assert(string_views(v@) =~= seq!["soft"@, "mixed"@, "hard"@]);
    CommandArgType::Enum(v)
}

pub open spec fn focus_panels_v() -> ArgTypeSpec {
    ArgTypeSpec::Enum(seq!["sidebar"@, "center"@, "graph"@, "details"@, "diff"@])
}

fn focus_panels() -> (r: CommandArgType)
    ensures
        r@ == focus_panels_v(),
{
    let mut v: Vec<String> = Vec::new();
    v.push(str_to_string("sidebar"));
    v.push(str_to_string("center"));
    v.push(str_to_string("graph"));
    v.push(str_to_string("details"));
    v.push(str_to_string("diff"));
    assert(string_views(v@) =~= seq!["sidebar"@, "center"@, "graph"@, "details"@, "diff"@]);
    CommandArgType::Enum(v)
}

/// How many commands the catalogue holds.
pub const CORE_COMMAND_COUNT: usize = 51;

/// Entry `i` of the catalogue.
pub open spec fn core_spec_at(i: int) -> CoreSpecV {
    if i == 0 {
        with_action(with_cap(with_arg(base_v("app.open_repository"@, "App: Open Repository"@, "Open a repository."@, "global"@), arg_v("path"@, ArgTypeSpec::String, false, None, "Repository path."@)), "command:invoke:app.open_repository"@), CoreBuilder::OpenRepository)
    } else if i == 1 {
        with_action(with_cap(with_arg(base_v("repository.open"@, "Repository: Open"@, "Open a repository."@, "global"@), arg_v("path"@, ArgTypeSpec::String, false, None, "Repository path."@)), "command:invoke:app.open_repository"@), CoreBuilder::OpenRepository)
    } else if i == 2 {
        with_action(with_cap(with_arg(base_v("tab.close"@, "Tab: Close"@, "Close a repository tab."@, "tab_bar"@), arg_v("path"@, ArgTypeSpec::String, false, None, "Tab path; defaults to active."@)), "command:invoke:tab.close"@), CoreBuilder::CloseTab)
    } else if i == 3 {
        with_action(with_cap(with_arg(base_v("tab.select"@, "Tab: Select"@, "Select a repository tab."@, "tab_bar"@), arg_v("path"@, ArgTypeSpec::String, true, None, "Tab path."@)), "command:invoke:tab.select"@), CoreBuilder::SelectTab)
    } else if i == 4 {
        with_action(with_cap(with_arg(base_v("tab.reorder"@, "Tab: Reorder"@, "Reorder repository tabs."@, "tab_bar"@), arg_v("paths"@, ArgTypeSpec::String, true, None, "Comma-separated paths."@)), "command:invoke:tab.reorder"@), CoreBuilder::ReorderTabs)
    } else if i == 5 {
        with_action(with_cap(base_v("repository.fetch"@, "Repository: Fetch"@, "Fetch the active repository."@, "repository"@), "git:write:fetch"@), CoreBuilder::Fixed(FixedRequest::Fetch))
    } else if i == 6 {
        with_action(with_cap(base_v("repository.refresh"@, "Repository: Refresh"@, "Refresh the active repository."@, "repository"@), "repo:read"@), CoreBuilder::Fixed(FixedRequest::Refresh))
    } else if i == 7 {
        with_action(with_cap(with_cap(base_v("repository.pull"@, "Repository: Pull"@, "Pull the active branch."@, "repository"@), "git:write:fetch"@), "git:write:merge"@), CoreBuilder::Fixed(FixedRequest::Pull))
    } else if i == 8 {
        with_action(with_cap(base_v("repository.push"@, "Repository: Push"@, "Push the active branch."@, "repository"@), "git:write:push"@), CoreBuilder::Fixed(FixedRequest::Push))
    } else if i == 9 {
        with_action(with_cap(with_arg(with_arg(base_v("branch.create"@, "Branch: Create"@, "Create a branch at a commit."@, "repository"@), arg_v("commit_idx"@, ArgTypeSpec::Integer, false, None, "Commit row index; defaults to selected."@)), arg_v("hash"@, ArgTypeSpec::String, false, None, "Commit hash; defaults to selected."@)), "git:write:branch"@), CoreBuilder::CreateBranch)
    } else if i == 10 {
        with_action(with_cap(with_arg(base_v("tag.create"@, "Tag: Create"@, "Create a tag at a commit."@, "repository"@), arg_v("hash"@, ArgTypeSpec::String, true, None, "Commit hash."@)), "git:write:tag"@), CoreBuilder::CreateTag)
    } else if i == 11 {
        with_action(as_destructive(with_cap(with_arg(with_arg(base_v("tag.delete"@, "Tag: Delete"@, "Open delete-tag confirmation."@, "repository"@), arg_v("name"@, ArgTypeSpec::String, true, None, "Tag name."@)), arg_v("remote_names"@, ArgTypeSpec::String, false, Some(DefaultV::Str(""@)), "Comma-separated remote names that hold the tag."@)), "git:write:tag"@)), CoreBuilder::DeleteTag)
    } else if i == 12 {
        with_action(with_cap(with_arg(with_arg(base_v("tag.push"@, "Tag: Push"@, "Push a tag to a remote."@, "repository"@), arg_v("tag_name"@, ArgTypeSpec::String, true, None, "Tag name."@)), arg_v("remote_name"@, ArgTypeSpec::String, true, None, "Remote name."@)), "git:write:push"@), CoreBuilder::PushTag)
    } else if i == 13 {
        with_action(as_destructive(with_cap(with_arg(with_arg(with_arg(with_arg(with_arg(base_v("branch.delete"@, "Branch: Delete"@, "Open delete-branch confirmation."@, "repository"@), arg_v("name"@, ArgTypeSpec::String, true, None, "Branch name."@)), arg_v("is_remote"@, ArgTypeSpec::Boolean, false, Some(DefaultV::Bool(false)), "Remote branch."@)), arg_v("has_remote"@, ArgTypeSpec::Boolean, false, Some(DefaultV::Bool(false)), "Has remote branch."@)), arg_v("remote_name"@, ArgTypeSpec::String, false, None, "Remote name."@)), arg_v("remote_ref"@, ArgTypeSpec::String, false, None, "Exact remote ref."@)), "git:write:branch"@)), CoreBuilder::DeleteBranch)
    } else if i == 14 {
        with_action(as_destructive(with_cap(with_arg(base_v("branch.delete.local"@, "Branch: Delete Local"@, "Delete a local branch without opening a confirmation."@, "repository"@), arg_v("name"@, ArgTypeSpec::String, true, None, "Branch name."@)), "git:write:branch"@)), CoreBuilder::DeleteBranchLocal)
    } else if i == 15 {
        with_action(as_destructive(with_cap(with_arg(with_arg(with_arg(base_v("branch.delete.remote"@, "Branch: Delete Remote"@, "Delete a remote branch without opening a confirmation."@, "repository"@), arg_v("name"@, ArgTypeSpec::String, true, None, "Branch name."@)), arg_v("remote_name"@, ArgTypeSpec::String, false, None, "Remote name."@)), arg_v("remote_ref"@, ArgTypeSpec::String, false, None, "Exact remote ref."@)), "git:write:branch"@)), CoreBuilder::DeleteBranchRemote)
    } else if i == 16 {
        with_action(as_destructive(with_cap(with_arg(base_v("branch.delete.local_and_remote"@, "Branch: Delete Local And Remote"@, "Delete a local branch and matching remote branch without opening a confirmation."@, "repository"@), arg_v("name"@, ArgTypeSpec::String, true, None, "Branch name."@)), "git:write:branch"@)), CoreBuilder::DeleteBranchLocalAndRemote)
    } else if i == 17 {
        with_action(with_cap(with_arg(with_arg(with_arg(with_arg(base_v("branch.rename"@, "Branch: Rename"@, "Open rename-branch prompt."@, "repository"@), arg_v("name"@, ArgTypeSpec::String, true, None, "Branch name."@)), arg_v("is_remote"@, ArgTypeSpec::Boolean, false, Some(DefaultV::Bool(false)), "Remote branch."@)), arg_v("remote_name"@, ArgTypeSpec::String, false, None, "Remote name."@)), arg_v("remote_ref"@, ArgTypeSpec::String, false, None, "Exact remote ref."@)), "git:write:branch"@), CoreBuilder::RenameBranch)
    } else if i == 18 {
        with_action(with_cap(with_arg(with_arg(base_v("branch.checkout"@, "Branch: Checkout"@, "Check out a branch."@, "repository"@), arg_v("ref"@, ArgTypeSpec::String, true, None, "Branch or remote branch."@)), arg_v("remote"@, ArgTypeSpec::Boolean, false, Some(DefaultV::Bool(false)), "Treat ref as remote."@)), "git:write:checkout"@), CoreBuilder::CheckoutBranch)
    } else if i == 19 {
        with_action(as_destructive(with_cap(with_arg(with_arg(base_v("branch.merge"@, "Branch: Merge"@, "Merge a branch into another branch."@, "repository"@), arg_v("source_branch"@, ArgTypeSpec::String, true, None, "Branch to merge from."@)), arg_v("target_branch"@, ArgTypeSpec::String, true, None, "Branch to merge into."@)), "git:write:merge"@)), CoreBuilder::MergeBranch)
    } else if i == 20 {
        with_action(as_destructive(with_cap(with_arg(with_arg(base_v("branch.reset"@, "Branch: Reset"@, "Reset the current branch to a commit."@, "repository"@), arg_v("hash"@, ArgTypeSpec::String, true, None, "Commit hash to reset to."@)), arg_v("mode"@, reset_modes_v(), false, Some(DefaultV::Str("mixed"@)), "soft | mixed | hard"@)), "git:write:reset"@)), CoreBuilder::ResetBranch)
    } else if i == 21 {
        with_action(with_cap(base_v("stash.push"@, "Stash: Push"@, "Create a stash."@, "repository"@), "git:write:stash"@), CoreBuilder::Fixed(FixedRequest::StashCreate))
    } else if i == 22 {
        with_action(with_cap(with_arg(base_v("stash.pop"@, "Stash: Pop"@, "Pop a stash."@, "repository"@), arg_v("index"@, ArgTypeSpec::Integer, false, Some(DefaultV::Integer(0)), "Stash index."@)), "git:write:stash"@), CoreBuilder::StashPop)
    } else if i == 23 {
        with_action(with_cap(base_v("commit.create"@, "Commit: Create"@, "Commit staged changes."@, "repository"@), "git:write:commit"@), CoreBuilder::Fixed(FixedRequest::CommitCreate))
    } else if i == 24 {
        as_unimplemented(as_disabled(with_cap(base_v("commit.amend"@, "Commit: Amend"@, "Amend HEAD."@, "repository"@), "git:write:commit"@), "commit amend is not implemented"@), "commit amend is not implemented"@)
    } else if i == 25 {
        with_action(with_cap(with_cap(base_v("commit.reword"@, "Commit: Reword"@, "Start rewording the selected commit."@, "repository"@), "git:write:commit"@), "git:write:rebase"@), CoreBuilder::Fixed(FixedRequest::StartReword))
    } else if i == 26 {
        with_action(as_destructive(with_cap(with_cap(with_cap(base_v("commit.squash_selected"@, "Commit: Squash Selected"@, "Squash the selected commits."@, "repository"@), "git:write:commit"@), "git:write:rebase"@), "git:write:reset"@)), CoreBuilder::Fixed(FixedRequest::SquashSelected))
    } else if i == 27 {
        with_action(with_cap(base_v("commit.reword.focus_message"@, "Commit: Focus Reword Message"@, "Focus the active reword message editor."@, "repository.details"@), "command:invoke:commit.reword.focus_message"@), CoreBuilder::Fixed(FixedRequest::FocusRewordMessage))
    } else if i == 28 {
        with_action(with_cap(with_cap(base_v("commit.reword.confirm"@, "Commit: Confirm Reword"@, "Confirm the active commit reword."@, "repository.details"@), "git:write:commit"@), "git:write:rebase"@), CoreBuilder::Fixed(FixedRequest::RewordConfirm))
    } else if i == 29 {
        with_action(with_cap(base_v("commit.reword.cancel"@, "Commit: Cancel Reword"@, "Cancel the active commit reword."@, "repository.details"@), "command:invoke:commit.reword.cancel"@), CoreBuilder::Fixed(FixedRequest::RewordCancel))
    } else if i == 30 {
        with_action(with_cap(base_v("repository.open_search"@, "Repository: Open Search"@, "Open commit search."@, "repository"@), "command:invoke:repository.open_search"@), CoreBuilder::Fixed(FixedRequest::OpenSearch))
    } else if i == 31 {
        with_action(with_cap(base_v("repository.jump_top"@, "Repository: Jump Top"@, "Select the first item in the focused repository pane."@, "repository"@), "repo:read"@), CoreBuilder::Fixed(FixedRequest::JumpTop))
    } else if i == 32 {
        with_action(with_cap(base_v("repository.jump_bottom"@, "Repository: Jump Bottom"@, "Select the last item in the focused repository pane."@, "repository"@), "repo:read"@), CoreBuilder::Fixed(FixedRequest::JumpBottom))
    } else if i == 33 {
        with_action(with_cap(base_v("repository.open_diff"@, "Repository: Open Diff"@, "Open the selected commit diff."@, "repository"@), "repo:read"@), CoreBuilder::Fixed(FixedRequest::OpenDiff))
    } else if i == 34 {
        with_action(with_cap(with_arg(with_arg(base_v("repository.move_selection"@, "Repository: Move Selection"@, "Move or extend the selection in the focused repository pane."@, "repository"@), arg_v("direction"@, ArgTypeSpec::String, true, None, "first | last | previous | next"@)), arg_v("extend"@, ArgTypeSpec::Boolean, false, Some(DefaultV::Bool(false)), "Extend the current selection instead of replacing it."@)), "repo:read"@), CoreBuilder::MoveSelection)
    } else if i == 35 {
        with_action(with_cap(base_v("repository.clear_multi_selection"@, "Repository: Clear Multi Selection"@, "Collapse the active repository multi-selection to the focused item."@, "repository"@), "command:invoke:repository.clear_multi_selection"@), CoreBuilder::Fixed(FixedRequest::ClearMultiSelection))
    } else if i == 36 {
        with_action(with_cap(base_v("repository.escape"@, "Repository: Escape"@, "Run the repository screen's native Escape behavior."@, "repository"@), "command:invoke:repository.escape"@), CoreBuilder::Fixed(FixedRequest::Escape))
    } else if i == 37 {
        with_action(with_cap(base_v("repository.stage_selected_file"@, "Repository: Stage Selected File"@, "Stage the selected dirty file."@, "repository"@), "git:write:commit"@), CoreBuilder::Fixed(FixedRequest::StageSelectedFile))
    } else if i == 38 {
        with_action(with_cap(base_v("repository.unstage_selected_file"@, "Repository: Unstage Selected File"@, "Unstage the selected dirty file."@, "repository"@), "git:write:reset"@), CoreBuilder::Fixed(FixedRequest::UnstageSelectedFile))
    } else if i == 39 {
        with_action(as_destructive(with_cap(base_v("repository.discard_selected_file"@, "Repository: Discard Selected File"@, "Open discard confirmation for the selected dirty file."@, "repository"@), "git:write:reset"@)), CoreBuilder::Fixed(FixedRequest::DiscardSelectedFile))
    } else if i == 40 {
        with_action(with_cap(with_arg(base_v("repository.focus_panel"@, "Repository: Focus Panel"@, "Move focus to a repository panel."@, "repository"@), arg_v("panel"@, focus_panels_v(), true, None, "sidebar | center | graph | details | diff"@)), "command:invoke:repository.focus_panel"@), CoreBuilder::FocusPanel)
    } else if i == 41 {
        with_action(with_cap(base_v("repository.focus_commit_message"@, "Repository: Focus Commit Message"@, "Focus the dirty commit-message editor when the details panel is active."@, "repository.details.dirty"@), "command:invoke:repository.focus_commit_message"@), CoreBuilder::Fixed(FixedRequest::FocusCommitMessage))
    } else if i == 42 {
        with_action(with_cap(with_arg(base_v("syntax.grammar.refresh_registry"@, "Syntax: Refresh Grammar Registry"@, "Refresh the runtime grammar registry from a local file."@, "global"@), arg_v("path"@, ArgTypeSpec::String, true, None, "Registry JSON path."@)), "syntax:grammar:manage"@), CoreBuilder::RefreshGrammarRegistry)
    } else if i == 43 {
        with_action(with_cap(with_arg(base_v("syntax.grammar.install"@, "Syntax: Install Grammar"@, "Install a queued runtime grammar."@, "global"@), arg_v("language"@, ArgTypeSpec::String, true, None, "Language id."@)), "syntax:grammar:manage"@), CoreBuilder::InstallGrammar)
    } else if i == 44 {
        with_action(with_cap(with_arg(base_v("syntax.grammar.update"@, "Syntax: Update Grammar"@, "Update an installed runtime grammar."@, "global"@), arg_v("language"@, ArgTypeSpec::String, true, None, "Language id."@)), "syntax:grammar:manage"@), CoreBuilder::UpdateGrammar)
    } else if i == 45 {
        with_action(as_destructive(with_cap(with_arg(base_v("syntax.grammar.uninstall"@, "Syntax: Uninstall Grammar"@, "Remove an installed runtime grammar."@, "global"@), arg_v("language"@, ArgTypeSpec::String, true, None, "Language id."@)), "syntax:grammar:manage"@)), CoreBuilder::UninstallGrammar)
    } else if i == 46 {
        with_action(with_cap(with_arg(base_v("commit.copy_hash"@, "Commit: Copy Hash"@, "Copy a commit hash."@, "repository"@), arg_v("hash"@, ArgTypeSpec::String, false, None, "Hash; defaults to selected."@)), "clipboard:write"@), CoreBuilder::CopyHash)
    } else if i == 47 {
        with_action(with_cap(with_arg(base_v("conflict.mark_file_resolved"@, "Conflict: Mark File Resolved"@, "Mark a conflict file resolved."@, "repository.diff"@), arg_v("path"@, ArgTypeSpec::String, true, None, "Conflict file path."@)), "git:write:commit"@), CoreBuilder::MarkFileResolved)
    } else if i == 48 {
        with_action(with_cap(base_v("conflict.mark_all_resolved"@, "Conflict: Mark All Resolved"@, "Mark all conflict files resolved."@, "repository.diff"@), "git:write:commit"@), CoreBuilder::Fixed(FixedRequest::MarkAllResolved))
    } else if i == 49 {
        with_action(with_cap(base_v("conflict.save_resolution"@, "Conflict: Save Resolution"@, "Save the open conflict resolution."@, "repository.diff"@), "git:write:commit"@), CoreBuilder::Fixed(FixedRequest::SaveResolution))
    } else if i == 50 {
        with_action(as_destructive(with_cap(base_v("conflict.abort_merge"@, "Conflict: Abort Merge"@, "Abort the merge in progress."@, "repository"@), "git:write:merge"@)), CoreBuilder::Fixed(FixedRequest::AbortMerge))
    } else {
        base_v(Seq::empty(), Seq::empty(), Seq::empty(), Seq::empty())
    }
}

fn core_spec_first(i: usize) -> (r: Option<CoreCommandSpec>)
    requires
        0 <= i < 17,
    ensures
        r matches Some(s) && s@ == core_spec_at(i as int),
{
    match i {
        0 => Some(
            spec("app.open_repository", "App: Open Repository", "Open a repository.", "global")
            .arg("path", CommandArgType::String, false, None, "Repository path.")
            .cap("command:invoke:app.open_repository")
            .action(CoreBuilder::OpenRepository),
        ),
        1 => Some(
            spec("repository.open", "Repository: Open", "Open a repository.", "global")
            .arg("path", CommandArgType::String, false, None, "Repository path.")
            .cap("command:invoke:app.open_repository")
            .action(CoreBuilder::OpenRepository),
        ),
        2 => Some(
            spec("tab.close", "Tab: Close", "Close a repository tab.", "tab_bar")
            .arg("path", CommandArgType::String, false, None, "Tab path; defaults to active.")
            .cap("command:invoke:tab.close")
            .action(CoreBuilder::CloseTab),
        ),
        3 => Some(
            spec("tab.select", "Tab: Select", "Select a repository tab.", "tab_bar")
            .arg("path", CommandArgType::String, true, None, "Tab path.")
            .cap("command:invoke:tab.select")
            .action(CoreBuilder::SelectTab),
        ),
        4 => Some(
            spec("tab.reorder", "Tab: Reorder", "Reorder repository tabs.", "tab_bar")
            .arg("paths", CommandArgType::String, true, None, "Comma-separated paths.")
            .cap("command:invoke:tab.reorder")
            .action(CoreBuilder::ReorderTabs),
        ),
        5 => Some(
            spec("repository.fetch", "Repository: Fetch", "Fetch the active repository.", "repository")
            .cap("git:write:fetch")
            .action(CoreBuilder::Fixed(FixedRequest::Fetch)),
        ),
        6 => Some(
            spec("repository.refresh", "Repository: Refresh", "Refresh the active repository.", "repository")
            .cap("repo:read")
            .action(CoreBuilder::Fixed(FixedRequest::Refresh)),
        ),
        7 => Some(
            spec("repository.pull", "Repository: Pull", "Pull the active branch.", "repository")
            .cap("git:write:fetch")
            .cap("git:write:merge")
            .action(CoreBuilder::Fixed(FixedRequest::Pull)),
        ),
        8 => Some(
            spec("repository.push", "Repository: Push", "Push the active branch.", "repository")
            .cap("git:write:push")
            .action(CoreBuilder::Fixed(FixedRequest::Push)),
        ),
        9 => Some(
            spec("branch.create", "Branch: Create", "Create a branch at a commit.", "repository")
            .arg("commit_idx", CommandArgType::Integer, false, None, "Commit row index; defaults to selected.")
            .arg("hash", CommandArgType::String, false, None, "Commit hash; defaults to selected.")
            .cap("git:write:branch")
            .action(CoreBuilder::CreateBranch),
        ),
        10 => Some(
            spec("tag.create", "Tag: Create", "Create a tag at a commit.", "repository")
            .arg("hash", CommandArgType::String, true, None, "Commit hash.")
            .cap("git:write:tag")
            .action(CoreBuilder::CreateTag),
        ),
        11 => Some(
            spec("tag.delete", "Tag: Delete", "Open delete-tag confirmation.", "repository")
            .arg("name", CommandArgType::String, true, None, "Tag name.")
            .arg("remote_names", CommandArgType::String, false, Some(CoreDefault::Str("")), "Comma-separated remote names that hold the tag.")
            .cap("git:write:tag")
            .destructive()
            .action(CoreBuilder::DeleteTag),
        ),
        12 => Some(
            spec("tag.push", "Tag: Push", "Push a tag to a remote.", "repository")
            .arg("tag_name", CommandArgType::String, true, None, "Tag name.")
            .arg("remote_name", CommandArgType::String, true, None, "Remote name.")
            .cap("git:write:push")
            .action(CoreBuilder::PushTag),
        ),
        13 => Some(
            spec("branch.delete", "Branch: Delete", "Open delete-branch confirmation.", "repository")
            .arg("name", CommandArgType::String, true, None, "Branch name.")
            .arg("is_remote", CommandArgType::Boolean, false, Some(CoreDefault::Bool(false)), "Remote branch.")
            .arg("has_remote", CommandArgType::Boolean, false, Some(CoreDefault::Bool(false)), "Has remote branch.")
            .arg("remote_name", CommandArgType::String, false, None, "Remote name.")
            .arg("remote_ref", CommandArgType::String, false, None, "Exact remote ref.")
            .cap("git:write:branch")
            .destructive()
            .action(CoreBuilder::DeleteBranch),
        ),
        14 => Some(
            spec("branch.delete.local", "Branch: Delete Local", "Delete a local branch without opening a confirmation.", "repository")
            .arg("name", CommandArgType::String, true, None, "Branch name.")
            .cap("git:write:branch")
            .destructive()
            .action(CoreBuilder::DeleteBranchLocal),
        ),
        15 => Some(
            spec("branch.delete.remote", "Branch: Delete Remote", "Delete a remote branch without opening a confirmation.", "repository")
            .arg("name", CommandArgType::String, true, None, "Branch name.")
            .arg("remote_name", CommandArgType::String, false, None, "Remote name.")
            .arg("remote_ref", CommandArgType::String, false, None, "Exact remote ref.")
            .cap("git:write:branch")
            .destructive()
            .action(CoreBuilder::DeleteBranchRemote),
        ),
        16 => Some(
            spec("branch.delete.local_and_remote", "Branch: Delete Local And Remote", "Delete a local branch and matching remote branch without opening a confirmation.", "repository")
            .arg("name", CommandArgType::String, true, None, "Branch name.")
            .cap("git:write:branch")
            .destructive()
            .action(CoreBuilder::DeleteBranchLocalAndRemote),
        ),
        _ => None,
    }
}

fn core_spec_middle(i: usize) -> (r: Option<CoreCommandSpec>)
    requires
        17 <= i < 34,
    ensures
        r matches Some(s) && s@ == core_spec_at(i as int),
{
    match i {
        17 => Some(
            spec("branch.rename", "Branch: Rename", "Open rename-branch prompt.", "repository")
            .arg("name", CommandArgType::String, true, None, "Branch name.")
            .arg("is_remote", CommandArgType::Boolean, false, Some(CoreDefault::Bool(false)), "Remote branch.")
            .arg("remote_name", CommandArgType::String, false, None, "Remote name.")
            .arg("remote_ref", CommandArgType::String, false, None, "Exact remote ref.")
            .cap("git:write:branch")
            .action(CoreBuilder::RenameBranch),
        ),
        18 => Some(
            spec("branch.checkout", "Branch: Checkout", "Check out a branch.", "repository")
            .arg("ref", CommandArgType::String, true, None, "Branch or remote branch.")
            .arg("remote", CommandArgType::Boolean, false, Some(CoreDefault::Bool(false)), "Treat ref as remote.")
            .cap("git:write:checkout")
            .action(CoreBuilder::CheckoutBranch),
        ),
        19 => Some(
            spec("branch.merge", "Branch: Merge", "Merge a branch into another branch.", "repository")
            .arg("source_branch", CommandArgType::String, true, None, "Branch to merge from.")
            .arg("target_branch", CommandArgType::String, true, None, "Branch to merge into.")
            .cap("git:write:merge")
            .destructive()
            .action(CoreBuilder::MergeBranch),
        ),
        20 => Some(
            spec("branch.reset", "Branch: Reset", "Reset the current branch to a commit.", "repository")
            .arg("hash", CommandArgType::String, true, None, "Commit hash to reset to.")
            .arg("mode", reset_modes(), false, Some(CoreDefault::Str("mixed")), "soft | mixed | hard")
            .cap("git:write:reset")
            .destructive()
            .action(CoreBuilder::ResetBranch),
        ),
        21 => Some(
            spec("stash.push", "Stash: Push", "Create a stash.", "repository")
            .cap("git:write:stash")
            .action(CoreBuilder::Fixed(FixedRequest::StashCreate)),
        ),
        22 => Some(
            spec("stash.pop", "Stash: Pop", "Pop a stash.", "repository")
            .arg("index", CommandArgType::Integer, false, Some(CoreDefault::Integer(0)), "Stash index.")
            .cap("git:write:stash")
            .action(CoreBuilder::StashPop),
        ),
        23 => Some(
            spec("commit.create", "Commit: Create", "Commit staged changes.", "repository")
            .cap("git:write:commit")
            .action(CoreBuilder::Fixed(FixedRequest::CommitCreate)),
        ),
        24 => Some(
            spec("commit.amend", "Commit: Amend", "Amend HEAD.", "repository")
            .cap("git:write:commit")
            .disabled("commit amend is not implemented")
            .unimplemented("commit amend is not implemented"),
        ),
        25 => Some(
            spec("commit.reword", "Commit: Reword", "Start rewording the selected commit.", "repository")
            .cap("git:write:commit")
            .cap("git:write:rebase")
            .action(CoreBuilder::Fixed(FixedRequest::StartReword)),
        ),
        26 => Some(
            spec("commit.squash_selected", "Commit: Squash Selected", "Squash the selected commits.", "repository")
            .cap("git:write:commit")
            .cap("git:write:rebase")
            .cap("git:write:reset")
            .destructive()
            .action(CoreBuilder::Fixed(FixedRequest::SquashSelected)),
        ),
        27 => Some(
            spec("commit.reword.focus_message", "Commit: Focus Reword Message", "Focus the active reword message editor.", "repository.details")
            .cap("command:invoke:commit.reword.focus_message")
            .action(CoreBuilder::Fixed(FixedRequest::FocusRewordMessage)),
        ),
        28 => Some(
            spec("commit.reword.confirm", "Commit: Confirm Reword", "Confirm the active commit reword.", "repository.details")
            .cap("git:write:commit")
            .cap("git:write:rebase")
            .action(CoreBuilder::Fixed(FixedRequest::RewordConfirm)),
        ),
        29 => Some(
            spec("commit.reword.cancel", "Commit: Cancel Reword", "Cancel the active commit reword.", "repository.details")
            .cap("command:invoke:commit.reword.cancel")
            .action(CoreBuilder::Fixed(FixedRequest::RewordCancel)),
        ),
        30 => Some(
            spec("repository.open_search", "Repository: Open Search", "Open commit search.", "repository")
            .cap("command:invoke:repository.open_search")
            .action(CoreBuilder::Fixed(FixedRequest::OpenSearch)),
        ),
        31 => Some(
            spec("repository.jump_top", "Repository: Jump Top", "Select the first item in the focused repository pane.", "repository")
            .cap("repo:read")
            .action(CoreBuilder::Fixed(FixedRequest::JumpTop)),
        ),
        32 => Some(
            spec("repository.jump_bottom", "Repository: Jump Bottom", "Select the last item in the focused repository pane.", "repository")
            .cap("repo:read")
            .action(CoreBuilder::Fixed(FixedRequest::JumpBottom)),
        ),
        33 => Some(
            spec("repository.open_diff", "Repository: Open Diff", "Open the selected commit diff.", "repository")
            .cap("repo:read")
            .action(CoreBuilder::Fixed(FixedRequest::OpenDiff)),
        ),
        _ => None,
    }
}

fn core_spec_last(i: usize) -> (r: Option<CoreCommandSpec>)
    requires
        34 <= i < 51,
    ensures
        r matches Some(s) && s@ == core_spec_at(i as int),
{
    match i {
        34 => Some(
            spec("repository.move_selection", "Repository: Move Selection", "Move or extend the selection in the focused repository pane.", "repository")
            .arg("direction", CommandArgType::String, true, None, "first | last | previous | next")
            .arg("extend", CommandArgType::Boolean, false, Some(CoreDefault::Bool(false)), "Extend the current selection instead of replacing it.")
            .cap("repo:read")
            .action(CoreBuilder::MoveSelection),
        ),
        35 => Some(
            spec("repository.clear_multi_selection", "Repository: Clear Multi Selection", "Collapse the active repository multi-selection to the focused item.", "repository")
            .cap("command:invoke:repository.clear_multi_selection")
            .action(CoreBuilder::Fixed(FixedRequest::ClearMultiSelection)),
        ),
        36 => Some(
            spec("repository.escape", "Repository: Escape", "Run the repository screen's native Escape behavior.", "repository")
            .cap("command:invoke:repository.escape")
            .action(CoreBuilder::Fixed(FixedRequest::Escape)),
        ),
        37 => Some(
            spec("repository.stage_selected_file", "Repository: Stage Selected File", "Stage the selected dirty file.", "repository")
            .cap("git:write:commit")
            .action(CoreBuilder::Fixed(FixedRequest::StageSelectedFile)),
        ),
        38 => Some(
            spec("repository.unstage_selected_file", "Repository: Unstage Selected File", "Unstage the selected dirty file.", "repository")
            .cap("git:write:reset")
            .action(CoreBuilder::Fixed(FixedRequest::UnstageSelectedFile)),
        ),
        39 => Some(
            spec("repository.discard_selected_file", "Repository: Discard Selected File", "Open discard confirmation for the selected dirty file.", "repository")
            .cap("git:write:reset")
            .destructive()
            .action(CoreBuilder::Fixed(FixedRequest::DiscardSelectedFile)),
        ),
        40 => Some(
            spec("repository.focus_panel", "Repository: Focus Panel", "Move focus to a repository panel.", "repository")
            .arg("panel", focus_panels(), true, None, "sidebar | center | graph | details | diff")
            .cap("command:invoke:repository.focus_panel")
            .action(CoreBuilder::FocusPanel),
        ),
        41 => Some(
            spec("repository.focus_commit_message", "Repository: Focus Commit Message", "Focus the dirty commit-message editor when the details panel is active.", "repository.details.dirty")
            .cap("command:invoke:repository.focus_commit_message")
            .action(CoreBuilder::Fixed(FixedRequest::FocusCommitMessage)),
        ),
        42 => Some(
            spec("syntax.grammar.refresh_registry", "Syntax: Refresh Grammar Registry", "Refresh the runtime grammar registry from a local file.", "global")
            .arg("path", CommandArgType::String, true, None, "Registry JSON path.")
            .cap("syntax:grammar:manage")
            .action(CoreBuilder::RefreshGrammarRegistry),
        ),
        43 => Some(
            spec("syntax.grammar.install", "Syntax: Install Grammar", "Install a queued runtime grammar.", "global")
            .arg("language", CommandArgType::String, true, None, "Language id.")
            .cap("syntax:grammar:manage")
            .action(CoreBuilder::InstallGrammar),
        ),
        44 => Some(
            spec("syntax.grammar.update", "Syntax: Update Grammar", "Update an installed runtime grammar.", "global")
            .arg("language", CommandArgType::String, true, None, "Language id.")
            .cap("syntax:grammar:manage")
            .action(CoreBuilder::UpdateGrammar),
        ),
        45 => Some(
            spec("syntax.grammar.uninstall", "Syntax: Uninstall Grammar", "Remove an installed runtime grammar.", "global")
            .arg("language", CommandArgType::String, true, None, "Language id.")
            .cap("syntax:grammar:manage")
            .destructive()
            .action(CoreBuilder::UninstallGrammar),
        ),
        46 => Some(
            spec("commit.copy_hash", "Commit: Copy Hash", "Copy a commit hash.", "repository")
            .arg("hash", CommandArgType::String, false, None, "Hash; defaults to selected.")
            .cap("clipboard:write")
            .action(CoreBuilder::CopyHash),
        ),
        47 => Some(
            spec("conflict.mark_file_resolved", "Conflict: Mark File Resolved", "Mark a conflict file resolved.", "repository.diff")
            .arg("path", CommandArgType::String, true, None, "Conflict file path.")
            .cap("git:write:commit")
            .action(CoreBuilder::MarkFileResolved),
        ),
        48 => Some(
            spec("conflict.mark_all_resolved", "Conflict: Mark All Resolved", "Mark all conflict files resolved.", "repository.diff")
            .cap("git:write:commit")
            .action(CoreBuilder::Fixed(FixedRequest::MarkAllResolved)),
        ),
        49 => Some(
            spec("conflict.save_resolution", "Conflict: Save Resolution", "Save the open conflict resolution.", "repository.diff")
            .cap("git:write:commit")
            .action(CoreBuilder::Fixed(FixedRequest::SaveResolution)),
        ),
        50 => Some(
            spec("conflict.abort_merge", "Conflict: Abort Merge", "Abort the merge in progress.", "repository")
            .cap("git:write:merge")
            .destructive()
            .action(CoreBuilder::Fixed(FixedRequest::AbortMerge)),
        ),
        _ => None,
    }
}

/// Entry `i` of the catalogue, if there is one.
pub fn core_spec(i: usize) -> (r: Option<CoreCommandSpec>)
    ensures
        match r {
            Some(s) => i < CORE_COMMAND_COUNT && s@ == core_spec_at(i as int),
            None => i >= CORE_COMMAND_COUNT,
        },
{
    if i < 17 {
        core_spec_first(i)
    } else if i < 34 {
        core_spec_middle(i)
    } else if i < CORE_COMMAND_COUNT {
        core_spec_last(i)
    } else {
        None
    }
}

/// The whole catalogue, in order.
pub fn core_command_specs() -> (r: Vec<CoreCommandSpec>)
    ensures
        r@.len() == CORE_COMMAND_COUNT,
        forall|i: int| 0 <= i < CORE_COMMAND_COUNT ==> (#[trigger] r@[i])@ == core_spec_at(i),
{
    let mut out: Vec<CoreCommandSpec> = Vec::new();
    let mut i: usize = 0;
    while i < CORE_COMMAND_COUNT
        invariant
            i <= CORE_COMMAND_COUNT,
            out@.len() == i,
            forall|j: int| 0 <= j < i ==> (#[trigger] out@[j])@ == core_spec_at(j),
        decreases CORE_COMMAND_COUNT - i,
    {
        match core_spec(i) {
            Some(s) => out.push(s),
            None => {},
        }
        i += 1;
    }
    out
}

/// `d` is the JSON value of default `v`.
pub open spec fn default_matches(d: Option<JsonValue>, v: Option<DefaultV>) -> bool {
    match v {
        None => d is None,
        Some(DefaultV::Bool(b)) => d == Some(JsonValue::Bool(b)),
        Some(DefaultV::Integer(n)) => d == Some(JsonValue::Integer(n)),
        Some(DefaultV::Str(s)) => d matches Some(JsonValue::Str(x)) && x@ == s,
    }
}

/// `a` are the command arguments that catalogue arguments `s` describe.
pub open spec fn args_describe(a: Seq<CommandArg>, s: Seq<CoreArgV>) -> bool {
    &&& a.len() == s.len()
    &&& forall|i: int| 0 <= i < a.len() ==> {
        &&& (#[trigger] a[i]).name@ == s[i].name
        &&& a[i].ty@ == s[i].ty
        &&& a[i].required == s[i].required
        &&& default_matches(a[i].default, s[i].default)
        &&& a[i].doc@ == s[i].doc
    }
}

/// `d` is the host command that catalogue entry `s` describes, its body
/// being host handler `handler`.
pub open spec fn describes(d: CommandDescriptor, s: CoreSpecV, handler: u64) -> bool {
    &&& d.name@ == s.name
    &&& d.title@ == s.title
    &&& d.description@ == s.description
    &&& d.plugin_id@ == "<host>"@
    &&& d.generation_id is None
    &&& d.context@ == s.context
    &&& args_describe(d.args@, s.args)
    &&& d.destructive == s.destructive
    &&& d.capabilities@.len() == 0
    &&& string_views(d.plugin_invocation_capabilities@) == s.plugin_caps
    &&& d.availability.enabled == s.enabled
    &&& opt_str_view(d.availability.reason) == s.disabled_reason
    &&& d.keymap_eligible == s.keymap
    &&& d.palette_visible == s.palette
    &&& d.hooks == (CommandHooks { before: false, after: true, veto: false, replace: false })
    &&& d.run == (CommandBody::Host { handler })
}

fn default_json(d: Option<CoreDefault>) -> (r: Option<JsonValue>)
    ensures
        default_matches(r, default_view(d)),
{
    match d {
        None => None,
        Some(CoreDefault::Bool(b)) => Some(JsonValue::Bool(b)),
        Some(CoreDefault::Integer(n)) => Some(JsonValue::Integer(n)),
        Some(CoreDefault::Str(s)) => Some(JsonValue::Str(str_to_string(s))),
    }
}

/// The host command for catalogue entry `spec`, run by host handler
/// `handler`.
pub fn descriptor_for(spec: &CoreCommandSpec, handler: u64) -> (d: CommandDescriptor)
    ensures
        describes(d, spec@, handler),
{
    let mut args: Vec<CommandArg> = Vec::new();
    let mut i: usize = 0;
    while i < spec.args.len()
        invariant
            i <= spec.args@.len(),
            args_describe(args@, core_arg_views(spec.args@).take(i as int)),
        decreases spec.args@.len() - i,
    {
        let a = &spec.args[i];
        let arg = CommandArg {
            name: str_to_string(a.name),
            ty: a.ty.duplicate(),
            required: a.required,
            default: default_json(a.default),
            doc: str_to_string(a.doc),
        };
        let ghost prev = args@;
        args.push(arg);
        proof {
            let sv = core_arg_views(spec.args@);
            assert(sv.take(i + 1) =~= sv.take(i as int).push(sv[i as int]));
            assert forall|k: int| 0 <= k < args@.len() implies {
                &&& (#[trigger] args@[k]).name@ == sv.take(i + 1)[k].name
                &&& args@[k].ty@ == sv.take(i + 1)[k].ty
                &&& args@[k].required == sv.take(i + 1)[k].required
                &&& default_matches(args@[k].default, sv.take(i + 1)[k].default)
                &&& args@[k].doc@ == sv.take(i + 1)[k].doc
            } by {
                if k < i {
                    assert(args@[k] == prev[k]);
                    assert(sv.take(i + 1)[k] == sv.take(i as int)[k]);
                }
            }
        }
        i += 1;
    }
    assert(core_arg_views(spec.args@).take(spec.args@.len() as int) =~= core_arg_views(spec.args@));
    let mut caps: Vec<String> = Vec::new();
    let mut j: usize = 0;
    while j < spec.plugin_caps.len()
        invariant
            j <= spec.plugin_caps@.len(),
            string_views(caps@) == str_views(spec.plugin_caps@).take(j as int),
        decreases spec.plugin_caps@.len() - j,
    {
        let ghost prev = caps@;
        caps.push(str_to_string(spec.plugin_caps[j]));
        assert(string_views(caps@) =~= string_views(prev).push(spec.plugin_caps@[j as int]@));
        assert(str_views(spec.plugin_caps@).take(j + 1) =~= str_views(spec.plugin_caps@).take(j as int).push(spec.plugin_caps@[j as int]@));
        j += 1;
    }
    assert(str_views(spec.plugin_caps@).take(spec.plugin_caps@.len() as int) =~= str_views(spec.plugin_caps@));
    let availability = if spec.enabled.enabled {
        CommandAvailability { enabled: true, reason: crate::text::clone_opt_string(&spec.enabled.reason) }
    } else {
        CommandAvailability { enabled: false, reason: crate::text::clone_opt_string(&spec.enabled.reason) }
    };
    let no_caps: Vec<String> = Vec::new();
    CommandDescriptor {
        name: str_to_string(spec.name),
        title: str_to_string(spec.title),
        description: str_to_string(spec.description),
        plugin_id: str_to_string(HOST_COMMAND_PLUGIN_ID),
        generation_id: None,
        context: str_to_string(spec.context),
        args,
        destructive: spec.destructive,
        capabilities: no_caps,
        plugin_invocation_capabilities: caps,
        availability,
        keymap_eligible: spec.keymap,
        palette_visible: spec.palette,
        hooks: CommandHooks::result_event_only(),
        run: CommandBody::Host { handler },
    }
}

/// Register every catalogue entry as a host command, entry `i` run by host
/// handler `i`, one after another (an entry replaces a host command of the
/// same name in place).
pub fn register_core_commands(registry: &mut CommandRegistry, diagnostics: &mut DiagnosticStore)
    ensures
        final(registry).detached_spec() == old(registry).detached_spec(),
        exists|descs: Seq<CommandDescriptor>| {
            &&& descs.len() == CORE_COMMAND_COUNT
            &&& (forall|i: int| 0 <= i < CORE_COMMAND_COUNT ==> describes(#[trigger] descs[i], core_spec_at(i), i as u64))
            &&& final(registry).commands() == register_seq(old(registry).commands(), descs)
            &&& final(diagnostics).log() == old(diagnostics).log() + register_diags(old(registry).commands(), descs)
        },
{
    let specs = core_command_specs();
    let ghost c0 = registry.commands();
    let ghost l0 = diagnostics.log();
    let ghost mut descs: Seq<CommandDescriptor> = Seq::empty();
    let mut i: usize = 0;
    while i < specs.len()
        invariant
            i <= specs@.len(),
            specs@.len() == CORE_COMMAND_COUNT,
            forall|k: int| 0 <= k < CORE_COMMAND_COUNT ==> (#[trigger] specs@[k])@ == core_spec_at(k),
            descs.len() == i,
            forall|k: int| 0 <= k < i ==> describes(#[trigger] descs[k], core_spec_at(k), k as u64),
            registry.commands() == register_seq(c0, descs),
            diagnostics.log() == l0 + register_diags(c0, descs),
            registry.detached_spec() == old(registry).detached_spec(),
        decreases specs@.len() - i,
    {
        let d = descriptor_for(&specs[i], i as u64);
        let ghost prev = descs;
        proof {
            descs = descs.push(d);
            assert(descs.drop_last() =~= prev);
            assert forall|k: int| 0 <= k < i + 1 implies describes(#[trigger] descs[k], core_spec_at(k), k as u64) by {
                if k < i {
                    assert(descs[k] == prev[k]);
                }
            }
        }
        let ghost before = diagnostics.log();
        registry.register(d, diagnostics);
        proof {
            assert(l0 + register_diags(c0, descs) =~= (l0 + register_diags(c0, prev)).push(
                register_one_diag(register_seq(c0, prev), descs.last()),
            ));
        }
        i += 1;
    }
}

/// Run host handler `handler` of the catalogue: queue the action its entry
/// builds from `args`, or fail with the builder's or the entry's reason.
pub fn run_core_command(handler: u64, args: &JsonValue, actions: &mut CoreCommandActions) -> (r: Result<(), String>)
    ensures
        handler < CORE_COMMAND_COUNT ==> match core_spec_at(handler as int).action {
            ActionKindV::Queue(b) => exists|res: Result<CoreCommandAction, String>| {
                &&& build_post(b, *args, res)
                &&& match res {
                    Ok(a) => r is Ok && final(actions).queued() == old(actions).queued().push(a),
                    Err(e) => r == Err::<(), String>(e) && final(actions).queued() == old(actions).queued(),
                }
            },
            ActionKindV::Unimplemented(reason) => (r matches Err(x) && x@ == reason
                && final(actions).queued() == old(actions).queued()),
        },
        handler >= CORE_COMMAND_COUNT ==> (r matches Err(x) && x@ == "unknown built-in command"@
            && final(actions).queued() == old(actions).queued()),
{
    let specs = core_command_specs();
    if handler >= specs.len() as u64 {
        proof {
            reveal_strlit("unknown built-in command");
        }
        return Err(str_to_string("unknown built-in command"));
    }
    let h = handler as usize;
    assert(specs@[h as int]@ == core_spec_at(handler as int));
    match specs[h].action {
        CoreActionKind::Queue(b) => {
            let res = build_action(b, args);
            match res {
                Ok(a) => {
                    let ghost a0 = a;
                    actions.push(a);
                    assert(build_post(b, *args, Ok::<CoreCommandAction, String>(a0)));
                    Ok(())
                },
                Err(e) => {
                    let ghost e0 = e;
                    assert(build_post(b, *args, Err::<CoreCommandAction, String>(e0)));
                    Err(e)
                },
            }
        },
        CoreActionKind::Unimplemented(reason) => Err(str_to_string(reason)),
    }
}

} // verus!
