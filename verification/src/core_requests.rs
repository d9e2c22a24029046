//! What a built-in command asks of the repository screen: the requests it
//! queues, as plain values, for the screen to carry out.

use vstd::prelude::*;

verus! {

/// How far `branch.reset` moves the index and the work tree.
#[derive(Debug, Clone, Copy, PartialEq, Eq, Structural)]
pub enum ResetMode {
    Soft,
    Mixed,
    Hard,
}

/// A panel of the repository screen that can take focus.
#[derive(Debug, Clone, Copy, PartialEq, Eq, Structural)]
pub enum FocusTarget {
    Sidebar,
    Center,
    Graph,
    Details,
    Diff,
}

/// A request for the center pane (branches, tags, stashes, commit list).
#[derive(Debug, Clone)]
pub enum CenterRequest {
    CreateTagHereRequested { commit_hash: String },
    DeleteTagRequested { tag_name: String, tag_remote_names: Vec<String> },
    PushTagRequested { tag_name: String, remote_name: String },
    BranchDeleteRequested {
        branch_name: String,
        is_remote: bool,
        has_remote: bool,
        remote_name: Option<String>,
        remote_ref: Option<String>,
    },
    BranchRenameRequested {
        branch_name: String,
        is_remote: bool,
        remote_name: Option<String>,
        remote_ref: Option<String>,
    },
    BranchLabelPressed(String),
    RemoteBranchLabelPressed { branch_name: String, remote_ref: Option<String> },
    BranchMergeRequested { source_branch: String, target_branch: String },
    ResetToCommitRequested { commit_hash: String, mode: ResetMode },
    StashCreateRequested,
    StashPopRequested { stash_index: usize },
    SquashSelectedCommitsRequested,
    NavigateFirst,
    NavigateLast,
    NavigateUp,
    NavigateDown,
}

/// A request for the details pane (commit message, reword, conflicts).
#[derive(Debug, Clone)]
pub enum DetailRequest {
    CommitConfirmed,
    RewordConfirmed,
    RewordCanceled,
    MarkConflictResolved(String),
    MarkAllConflictsResolved,
    AbortMergeConfirmed,
}

/// A request for the diff pane.
#[derive(Debug, Clone, Copy, PartialEq, Eq, Structural)]
pub enum DiffPanelRequest {
    ConflictResolutionSaveRequested,
}

/// A request for the repository screen.
#[derive(Debug, Clone)]
pub enum RepositoryRequest {
    FetchRequested,
    RefreshRequested,
    PullRequested,
    PushRequested,
    CreateBranchAtSelected { commit_idx: Option<usize>, hash: Option<String> },
    DeleteBranchDirect { branch_name: String, is_remote: bool, remote_ref: Option<String> },
    DeleteBranchLocalAndRemote { branch_name: String },
    StartRewordSelected,
    FocusRewordMessage,
    OpenCommitSearch,
    OpenSelectedDiff,
    MoveSelection { action: CenterRequest, extend: bool },
    ClearMultiSelection,
    EscapePressed,
    StageSelectedDirtyFile,
    UnstageSelectedDirtyFile,
    DiscardSelectedDirtyFile,
    FocusPanel(FocusTarget),
    FocusCommitMessage,
    CopyCommitHash { hash: Option<String> },
    Center(CenterRequest),
    Detail(DetailRequest),
    DiffPanel(DiffPanelRequest),
}

/// A request that takes no argument.
#[derive(Debug, Clone, Copy, PartialEq, Eq, Structural)]
pub enum FixedRequest {
    Fetch,
    Refresh,
    Pull,
    Push,
    StashCreate,
    CommitCreate,
    StartReword,
    SquashSelected,
    FocusRewordMessage,
    RewordConfirm,
    RewordCancel,
    OpenSearch,
    JumpTop,
    JumpBottom,
    OpenDiff,
    ClearMultiSelection,
    Escape,
    StageSelectedFile,
    UnstageSelectedFile,
    DiscardSelectedFile,
    FocusCommitMessage,
    MarkAllResolved,
    SaveResolution,
    AbortMerge,
}

/// The request a [`FixedRequest`] stands for.
pub open spec fn fixed_request_spec(f: FixedRequest) -> RepositoryRequest {
    match f {
        FixedRequest::Fetch => RepositoryRequest::FetchRequested,
        FixedRequest::Refresh => RepositoryRequest::RefreshRequested,
        FixedRequest::Pull => RepositoryRequest::PullRequested,
        FixedRequest::Push => RepositoryRequest::PushRequested,
        FixedRequest::StashCreate => RepositoryRequest::Center(CenterRequest::StashCreateRequested),
        FixedRequest::CommitCreate => RepositoryRequest::Detail(DetailRequest::CommitConfirmed),
        FixedRequest::StartReword => RepositoryRequest::StartRewordSelected,
        FixedRequest::SquashSelected => RepositoryRequest::Center(CenterRequest::SquashSelectedCommitsRequested),
        FixedRequest::FocusRewordMessage => RepositoryRequest::FocusRewordMessage,
        FixedRequest::RewordConfirm => RepositoryRequest::Detail(DetailRequest::RewordConfirmed),
        FixedRequest::RewordCancel => RepositoryRequest::Detail(DetailRequest::RewordCanceled),
        FixedRequest::OpenSearch => RepositoryRequest::OpenCommitSearch,
        FixedRequest::JumpTop => RepositoryRequest::Center(CenterRequest::NavigateFirst),
        FixedRequest::JumpBottom => RepositoryRequest::Center(CenterRequest::NavigateLast),
        FixedRequest::OpenDiff => RepositoryRequest::OpenSelectedDiff,
        FixedRequest::ClearMultiSelection => RepositoryRequest::ClearMultiSelection,
        FixedRequest::Escape => RepositoryRequest::EscapePressed,
        FixedRequest::StageSelectedFile => RepositoryRequest::StageSelectedDirtyFile,
        FixedRequest::UnstageSelectedFile => RepositoryRequest::UnstageSelectedDirtyFile,
        FixedRequest::DiscardSelectedFile => RepositoryRequest::DiscardSelectedDirtyFile,
        FixedRequest::FocusCommitMessage => RepositoryRequest::FocusCommitMessage,
        FixedRequest::MarkAllResolved => RepositoryRequest::Detail(DetailRequest::MarkAllConflictsResolved),
        FixedRequest::SaveResolution => RepositoryRequest::DiffPanel(DiffPanelRequest::ConflictResolutionSaveRequested),
        FixedRequest::AbortMerge => RepositoryRequest::Detail(DetailRequest::AbortMergeConfirmed),
    }
}

pub fn fixed_request(f: FixedRequest) -> (r: RepositoryRequest)
    ensures
        r == fixed_request_spec(f),
{
    match f {
        FixedRequest::Fetch => RepositoryRequest::FetchRequested,
        FixedRequest::Refresh => RepositoryRequest::RefreshRequested,
        FixedRequest::Pull => RepositoryRequest::PullRequested,
        FixedRequest::Push => RepositoryRequest::PushRequested,
        FixedRequest::StashCreate => RepositoryRequest::Center(CenterRequest::StashCreateRequested),
        FixedRequest::CommitCreate => RepositoryRequest::Detail(DetailRequest::CommitConfirmed),
        FixedRequest::StartReword => RepositoryRequest::StartRewordSelected,
        FixedRequest::SquashSelected => RepositoryRequest::Center(CenterRequest::SquashSelectedCommitsRequested),
        FixedRequest::FocusRewordMessage => RepositoryRequest::FocusRewordMessage,
        FixedRequest::RewordConfirm => RepositoryRequest::Detail(DetailRequest::RewordConfirmed),
        FixedRequest::RewordCancel => RepositoryRequest::Detail(DetailRequest::RewordCanceled),
        FixedRequest::OpenSearch => RepositoryRequest::OpenCommitSearch,
        FixedRequest::JumpTop => RepositoryRequest::Center(CenterRequest::NavigateFirst),
        FixedRequest::JumpBottom => RepositoryRequest::Center(CenterRequest::NavigateLast),
        FixedRequest::OpenDiff => RepositoryRequest::OpenSelectedDiff,
        FixedRequest::ClearMultiSelection => RepositoryRequest::ClearMultiSelection,
        FixedRequest::Escape => RepositoryRequest::EscapePressed,
        FixedRequest::StageSelectedFile => RepositoryRequest::StageSelectedDirtyFile,
        FixedRequest::UnstageSelectedFile => RepositoryRequest::UnstageSelectedDirtyFile,
        FixedRequest::DiscardSelectedFile => RepositoryRequest::DiscardSelectedDirtyFile,
        FixedRequest::FocusCommitMessage => RepositoryRequest::FocusCommitMessage,
        FixedRequest::MarkAllResolved => RepositoryRequest::Detail(DetailRequest::MarkAllConflictsResolved),
        FixedRequest::SaveResolution => RepositoryRequest::DiffPanel(DiffPanelRequest::ConflictResolutionSaveRequested),
        FixedRequest::AbortMerge => RepositoryRequest::Detail(DetailRequest::AbortMergeConfirmed),
    }
}

} // verus!
