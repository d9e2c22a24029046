use leviathan_plugins::commands::{CommandBody, CommandRegistry};
use leviathan_plugins::core_catalog::{
    core_command_specs, register_core_commands, run_core_command, CoreActionKind, CORE_COMMAND_COUNT,
};
use leviathan_plugins::core_commands::{CoreCommandAction, CoreCommandActions};
use leviathan_plugins::core_requests::{
    CenterRequest, DetailRequest, FocusTarget, RepositoryRequest, ResetMode,
};
use leviathan_plugins::diagnostic::DiagnosticStore;
use leviathan_plugins::json::JsonValue;

fn object(entries: Vec<(&str, JsonValue)>) -> JsonValue {
    JsonValue::Object(entries.into_iter().map(|(k, v)| (k.to_string(), v)).collect())
}

fn s(v: &str) -> JsonValue {
    JsonValue::Str(v.to_string())
}

fn registry() -> CommandRegistry {
    let mut registry = CommandRegistry::new();
    let mut diagnostics = DiagnosticStore::new();
    register_core_commands(&mut registry, &mut diagnostics);
    registry
}

/// Run the host body of `name` with `args`, as the dispatcher would after
/// validating them.
fn run(registry: &CommandRegistry, name: &str, args: &JsonValue, actions: &mut CoreCommandActions) -> Result<(), String> {
    let desc = &registry.find(name).unwrap().descriptor;
    match &desc.run {
        CommandBody::Host { handler } => run_core_command(*handler, args, actions),
        _ => panic!("expected host command"),
    }
}

fn validated(registry: &CommandRegistry, name: &str, args: JsonValue, what: &str) -> JsonValue {
    let desc = &registry.find(name).unwrap().descriptor;
    CommandRegistry::validate_args(desc, &args).expect(what)
}

fn queued_request(actions: &mut CoreCommandActions) -> Vec<RepositoryRequest> {
    actions
        .drain()
        .into_iter()
        .map(|a| match a {
            CoreCommandAction::Repository(r) => r,
            other => panic!("expected a repository request, got {other:?}"),
        })
        .collect()
}

#[test]
fn registers_practical_core_commands() {
    let registry = registry();
    let names: Vec<String> = registry.summaries().into_iter().map(|s| s.name).collect();
    for expected in [
        "app.open_repository",
        "tab.close",
        "repository.pull",
        "repository.push",
        "branch.create",
        "tag.create",
        "tag.delete",
        "tag.push",
        "branch.delete",
        "branch.delete.local",
        "branch.delete.remote",
        "branch.delete.local_and_remote",
        "branch.merge",
        "branch.reset",
        "stash.pop",
        "repository.open_search",
        "repository.jump_top",
        "repository.jump_bottom",
        "repository.move_selection",
        "repository.clear_multi_selection",
        "repository.escape",
        "repository.stage_selected_file",
        "repository.unstage_selected_file",
        "repository.discard_selected_file",
        "repository.focus_panel",
        "repository.focus_commit_message",
        "commit.squash_selected",
        "commit.copy_hash",
        "conflict.save_resolution",
        "syntax.grammar.install",
        "syntax.grammar.update",
        "syntax.grammar.uninstall",
    ] {
        assert!(names.iter().any(|name| name == expected), "{expected}");
    }
}

#[test]
fn pull_command_queues_native_repository_message() {
    let registry = registry();
    let mut actions = CoreCommandActions::new();
    run(&registry, "repository.pull", &JsonValue::Null, &mut actions).unwrap();
    let queued = queued_request(&mut actions);
    assert!(matches!(queued.as_slice(), [RepositoryRequest::PullRequested]));
}

#[test]
fn fetch_command_queues_repository_request() {
    let registry = registry();
    let mut actions = CoreCommandActions::new();
    run(&registry, "repository.fetch", &JsonValue::Null, &mut actions).unwrap();
    let queued = queued_request(&mut actions);
    assert!(matches!(queued.as_slice(), [RepositoryRequest::FetchRequested]));
}

#[test]
fn tag_create_command_queues_native_create_dialog() {
    let registry = registry();
    let mut actions = CoreCommandActions::new();
    let args = validated(&registry, "tag.create", object(vec![("hash", s("abc123"))]), "tag.create args should validate");
    run(&registry, "tag.create", &args, &mut actions).unwrap();
    let queued = queued_request(&mut actions);
    assert!(matches!(
        queued.as_slice(),
        [RepositoryRequest::Center(CenterRequest::CreateTagHereRequested { commit_hash })] if commit_hash == "abc123"
    ));
}

#[test]
fn tag_delete_command_queues_native_delete_confirmation() {
    let registry = registry();
    let mut actions = CoreCommandActions::new();
    let args = validated(
        &registry,
        "tag.delete",
        object(vec![("name", s("v1.0.0")), ("remote_names", s("origin, upstream,"))]),
        "tag.delete args should validate",
    );
    run(&registry, "tag.delete", &args, &mut actions).unwrap();
    let queued = queued_request(&mut actions);
    assert!(matches!(
        queued.as_slice(),
        [RepositoryRequest::Center(CenterRequest::DeleteTagRequested { tag_name, tag_remote_names })]
            if tag_name == "v1.0.0"
                && tag_remote_names == &vec!["origin".to_string(), "upstream".to_string()]
    ));
}

#[test]
fn tag_push_command_queues_native_push_request() {
    let registry = registry();
    let mut actions = CoreCommandActions::new();
    let args = validated(
        &registry,
        "tag.push",
        object(vec![("tag_name", s("v1.0.0")), ("remote_name", s("origin"))]),
        "tag.push args should validate",
    );
    run(&registry, "tag.push", &args, &mut actions).unwrap();
    let queued = queued_request(&mut actions);
    assert!(matches!(
        queued.as_slice(),
        [RepositoryRequest::Center(CenterRequest::PushTagRequested { tag_name, remote_name })]
            if tag_name == "v1.0.0" && remote_name == "origin"
    ));
}

#[test]
fn selected_file_commands_queue_native_repository_messages() {
    for (command, matches_expected) in [
        (
            "repository.stage_selected_file",
            (|m: &RepositoryRequest| matches!(m, RepositoryRequest::StageSelectedDirtyFile)) as fn(&RepositoryRequest) -> bool,
        ),
        ("repository.unstage_selected_file", |m: &RepositoryRequest| {
            matches!(m, RepositoryRequest::UnstageSelectedDirtyFile)
        }),
        ("repository.discard_selected_file", |m: &RepositoryRequest| {
            matches!(m, RepositoryRequest::DiscardSelectedDirtyFile)
        }),
    ] {
        let registry = registry();
        let mut actions = CoreCommandActions::new();
        run(&registry, command, &JsonValue::Null, &mut actions).unwrap();
        let queued = queued_request(&mut actions);
        assert!(matches!(queued.as_slice(), [message] if matches_expected(message)));
    }
}

#[test]
fn repository_ui_commands_queue_native_repository_messages() {
    for (command, matches_expected) in [
        (
            "repository.clear_multi_selection",
            (|m: &RepositoryRequest| matches!(m, RepositoryRequest::ClearMultiSelection)) as fn(&RepositoryRequest) -> bool,
        ),
        ("repository.escape", |m: &RepositoryRequest| matches!(m, RepositoryRequest::EscapePressed)),
        ("repository.focus_commit_message", |m: &RepositoryRequest| {
            matches!(m, RepositoryRequest::FocusCommitMessage)
        }),
    ] {
        let registry = registry();
        let mut actions = CoreCommandActions::new();
        run(&registry, command, &JsonValue::Null, &mut actions).unwrap();
        let queued = queued_request(&mut actions);
        assert!(matches!(queued.as_slice(), [message] if matches_expected(message)));
    }
}

#[test]
fn branch_merge_command_queues_native_merge_request() {
    let registry = registry();
    let mut actions = CoreCommandActions::new();
    let args = validated(
        &registry,
        "branch.merge",
        object(vec![("source_branch", s("feature")), ("target_branch", s("main"))]),
        "branch.merge args should validate",
    );
    run(&registry, "branch.merge", &args, &mut actions).unwrap();
    let queued = queued_request(&mut actions);
    assert!(matches!(
        queued.as_slice(),
        [RepositoryRequest::Center(CenterRequest::BranchMergeRequested { source_branch, target_branch })]
            if source_branch == "feature" && target_branch == "main"
    ));
}

#[test]
fn branch_delete_command_accepts_exact_remote_ref() {
    let registry = registry();
    let mut actions = CoreCommandActions::new();
    let args = validated(
        &registry,
        "branch.delete",
        object(vec![
            ("name", s("feature")),
            ("is_remote", JsonValue::Bool(true)),
            ("remote_name", s("origin")),
            ("remote_ref", s("origin/feature")),
        ]),
        "branch.delete args should validate",
    );
    run(&registry, "branch.delete", &args, &mut actions).unwrap();
    let queued = queued_request(&mut actions);
    assert!(matches!(
        queued.as_slice(),
        [RepositoryRequest::Center(CenterRequest::BranchDeleteRequested {
            branch_name,
            is_remote: true,
            has_remote: false,
            remote_name: Some(remote_name),
            remote_ref: Some(remote_ref),
        })] if branch_name == "feature" && remote_name == "origin" && remote_ref == "origin/feature"
    ));
}

#[test]
fn direct_branch_delete_commands_queue_exact_repository_messages() {
    let registry = registry();
    let mut actions = CoreCommandActions::new();
    run(&registry, "branch.delete.local", &object(vec![("name", s("feature"))]), &mut actions).unwrap();
    let args = validated(
        &registry,
        "branch.delete.remote",
        object(vec![("name", s("feature")), ("remote_name", s("origin")), ("remote_ref", s("origin/feature"))]),
        "remote delete args should validate",
    );
    run(&registry, "branch.delete.remote", &args, &mut actions).unwrap();
    run(&registry, "branch.delete.local_and_remote", &object(vec![("name", s("feature"))]), &mut actions).unwrap();
    let queued = queued_request(&mut actions);
    assert!(matches!(
        queued.as_slice(),
        [local, remote, all] if matches!(
            local,
            RepositoryRequest::DeleteBranchDirect { branch_name, is_remote: false, remote_ref: None }
                if branch_name == "feature"
        ) && matches!(
            remote,
            RepositoryRequest::DeleteBranchDirect { branch_name, is_remote: true, remote_ref: Some(remote_ref) }
                if branch_name == "feature" && remote_ref == "origin/feature"
        ) && matches!(
            all,
            RepositoryRequest::DeleteBranchLocalAndRemote { branch_name } if branch_name == "feature"
        )
    ));
}

fn run_focus_panel(args: JsonValue) -> (Result<(), String>, Vec<CoreCommandAction>) {
    let registry = registry();
    let mut actions = CoreCommandActions::new();
    let result = run(&registry, "repository.focus_panel", &args, &mut actions);
    (result, actions.drain())
}

#[test]
fn focus_panel_command_queues_focus_panel_action() {
    let (result, queued) = run_focus_panel(object(vec![("panel", s("details"))]));
    result.unwrap();
    assert!(matches!(
        queued.as_slice(),
        [CoreCommandAction::Repository(RepositoryRequest::FocusPanel(FocusTarget::Details))]
    ));
}

#[test]
fn focus_panel_command_rejects_unknown_panel() {
    let (result, queued) = run_focus_panel(object(vec![("panel", s("weird"))]));
    let err = result.unwrap_err();
    assert!(err.contains("unknown panel"), "{err}");
    assert!(queued.is_empty());
}

#[test]
fn focus_panel_command_requires_panel_arg() {
    let (result, queued) = run_focus_panel(JsonValue::Null);
    let err = result.unwrap_err();
    assert!(err.contains("missing required arg"), "{err}");
    assert!(queued.is_empty());
}

#[test]
fn reword_commands_queue_native_repository_messages() {
    for (command, matches_expected) in [
        (
            "commit.reword",
            (|m: &RepositoryRequest| matches!(m, RepositoryRequest::StartRewordSelected)) as fn(&RepositoryRequest) -> bool,
        ),
        ("commit.reword.focus_message", |m: &RepositoryRequest| matches!(m, RepositoryRequest::FocusRewordMessage)),
        ("commit.reword.confirm", |m: &RepositoryRequest| {
            matches!(m, RepositoryRequest::Detail(DetailRequest::RewordConfirmed))
        }),
        ("commit.reword.cancel", |m: &RepositoryRequest| {
            matches!(m, RepositoryRequest::Detail(DetailRequest::RewordCanceled))
        }),
        ("commit.squash_selected", |m: &RepositoryRequest| {
            matches!(m, RepositoryRequest::Center(CenterRequest::SquashSelectedCommitsRequested))
        }),
    ] {
        let registry = registry();
        let mut actions = CoreCommandActions::new();
        run(&registry, command, &JsonValue::Null, &mut actions).unwrap();
        let queued = queued_request(&mut actions);
        assert!(matches!(queued.as_slice(), [message] if matches_expected(message)));
    }
}

#[test]
fn move_selection_command_queues_generic_selection_action() {
    let registry = registry();
    let mut actions = CoreCommandActions::new();
    run(
        &registry,
        "repository.move_selection",
        &object(vec![("direction", s("next")), ("extend", JsonValue::Bool(true))]),
        &mut actions,
    )
    .unwrap();
    let queued = queued_request(&mut actions);
    assert!(matches!(
        queued.as_slice(),
        [RepositoryRequest::MoveSelection { action: CenterRequest::NavigateDown, extend: true }]
    ));
}

#[test]
fn catalogue_entries_are_registered_under_the_host() {
    let registry = registry();
    assert_eq!(registry.entries().len(), CORE_COMMAND_COUNT);
    for (i, entry) in registry.entries().iter().enumerate() {
        assert_eq!(entry.descriptor.plugin_id, "<host>");
        assert!(entry.descriptor.generation_id.is_none());
        assert!(matches!(entry.descriptor.run, CommandBody::Host { handler } if handler == i as u64));
    }
    let amend = &registry.find("commit.amend").unwrap().descriptor;
    assert!(!amend.availability.enabled);
    assert_eq!(amend.availability.reason.as_deref(), Some("commit amend is not implemented"));
    let reset = &registry.find("branch.reset").unwrap().descriptor;
    assert!(reset.destructive);
    assert_eq!(reset.plugin_invocation_capabilities, vec!["git:write:reset".to_string()]);
}

#[test]
fn registering_twice_replaces_in_place() {
    let mut registry = CommandRegistry::new();
    let mut diagnostics = DiagnosticStore::new();
    register_core_commands(&mut registry, &mut diagnostics);
    register_core_commands(&mut registry, &mut diagnostics);
    assert_eq!(registry.entries().len(), CORE_COMMAND_COUNT);
    assert_eq!(diagnostics.len(), 2 * CORE_COMMAND_COUNT);
}

#[test]
fn unimplemented_command_fails_with_its_reason() {
    let registry = registry();
    let mut actions = CoreCommandActions::new();
    let err = run(&registry, "commit.amend", &JsonValue::Null, &mut actions).unwrap_err();
    assert_eq!(err, "commit amend is not implemented");
    assert!(actions.drain().is_empty());
    let specs = core_command_specs();
    assert!(matches!(specs[24].action, CoreActionKind::Unimplemented(_)));
}

#[test]
fn unknown_handler_is_refused() {
    let mut actions = CoreCommandActions::new();
    let err = run_core_command(CORE_COMMAND_COUNT as u64, &JsonValue::Null, &mut actions).unwrap_err();
    assert_eq!(err, "unknown built-in command");
}

#[test]
fn reset_mode_defaults_to_mixed_and_rejects_unknown() {
    let registry = registry();
    let mut actions = CoreCommandActions::new();
    let args = validated(&registry, "branch.reset", object(vec![("hash", s("abc"))]), "reset args should validate");
    run(&registry, "branch.reset", &args, &mut actions).unwrap();
    let queued = queued_request(&mut actions);
    assert!(matches!(
        queued.as_slice(),
        [RepositoryRequest::Center(CenterRequest::ResetToCommitRequested { commit_hash, mode: ResetMode::Mixed })]
            if commit_hash == "abc"
    ));
    let err = run(&registry, "branch.reset", &object(vec![("hash", s("abc")), ("mode", s("bogus"))]), &mut actions)
        .unwrap_err();
    assert_eq!(err, "unknown reset mode `bogus`; expected soft, mixed, or hard");
}

#[test]
fn derived_remote_ref_and_clamped_indexes() {
    let registry = registry();
    let mut actions = CoreCommandActions::new();
    run(
        &registry,
        "branch.rename",
        &object(vec![("name", s(" feature ")), ("remote_name", s(" origin "))]),
        &mut actions,
    )
    .unwrap();
    run(&registry, "stash.pop", &object(vec![("index", JsonValue::Integer(-3))]), &mut actions).unwrap();
    run(&registry, "branch.create", &object(vec![("commit_idx", JsonValue::Integer(7))]), &mut actions).unwrap();
    let queued = queued_request(&mut actions);
    assert!(matches!(
        queued.as_slice(),
        [
            RepositoryRequest::Center(CenterRequest::BranchRenameRequested { remote_ref: Some(r), .. }),
            RepositoryRequest::Center(CenterRequest::StashPopRequested { stash_index: 0 }),
            RepositoryRequest::CreateBranchAtSelected { commit_idx: Some(7), hash: None },
        ] if r == "origin/feature"
    ));
}

#[test]
fn checkout_and_move_selection_errors() {
    let registry = registry();
    let mut actions = CoreCommandActions::new();
    run(
        &registry,
        "branch.checkout",
        &object(vec![("ref", s("origin/main")), ("remote", JsonValue::Bool(true))]),
        &mut actions,
    )
    .unwrap();
    let err = run(&registry, "repository.move_selection", &object(vec![("direction", s("sideways"))]), &mut actions)
        .unwrap_err();
    assert_eq!(err, "unknown direction `sideways`; expected first, last, previous, or next");
    let queued = queued_request(&mut actions);
    assert!(matches!(
        queued.as_slice(),
        [RepositoryRequest::Center(CenterRequest::RemoteBranchLabelPressed { branch_name, remote_ref: None })]
            if branch_name == "origin/main"
    ));
}
