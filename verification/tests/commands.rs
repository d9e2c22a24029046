use leviathan_plugins::commands::{
    build_descriptor, command_context_allowed, context_surface, invoke_entry, record_command_not_found,
    CommandArg, CommandArgType, CommandAvailability, CommandBody, CommandContext, CommandDescriptor,
    CommandEntry, CommandHooks, CommandRegistry, CommandRunner, InvokeOutcome, LoggedRunner, PaletteState,
    PendingCommandEvent, PendingCommandEvents, RawCommand, RawCommandArg, HOST_COMMAND_PLUGIN_ID, validate_value,
};
use leviathan_plugins::diagnostic::{DiagnosticSeverity, DiagnosticStore, SourceSpan};
use leviathan_plugins::json::JsonValue;

fn host_descriptor(name: &str) -> CommandDescriptor {
    CommandDescriptor {
        name: name.into(),
        title: name.into(),
        description: String::new(),
        plugin_id: HOST_COMMAND_PLUGIN_ID.into(),
        generation_id: None,
        context: CommandContext::GLOBAL.into(),
        args: Vec::new(),
        destructive: false,
        capabilities: Vec::new(),
        plugin_invocation_capabilities: Vec::new(),
        availability: CommandAvailability::enabled(),
        keymap_eligible: true,
        palette_visible: true,
        hooks: CommandHooks::result_event_only(),
        run: CommandBody::Host { handler: 0 },
    }
}

fn object(entries: Vec<(&str, JsonValue)>) -> JsonValue {
    JsonValue::Object(entries.into_iter().map(|(k, v)| (k.to_string(), v)).collect())
}

/// Records what the registry asked of it; host handler 1 fails with
/// `kaboom`, every other body succeeds.
struct StubRunner {
    ran: Vec<String>,
    denied: Vec<String>,
    events: Vec<(String, bool)>,
}

impl StubRunner {
    fn new() -> Self {
        StubRunner { ran: Vec::new(), denied: Vec::new(), events: Vec::new() }
    }
}

impl CommandRunner for StubRunner {
    fn run(&mut self, entry: &CommandEntry, _args: &JsonValue) -> Result<(), String> {
        self.ran.push(entry.descriptor.name.clone());
        match entry.descriptor.run {
            CommandBody::Host { handler: 1 } => Err("kaboom".into()),
            _ => Ok(()),
        }
    }

    fn check_capability(&mut self, _plugin_id: &str, capability: &str) -> Result<(), String> {
        if self.denied.iter().any(|c| c == capability) {
            Err("denied".into())
        } else {
            Ok(())
        }
    }

    fn check_invocation_capability(&mut self, _command_name: &str, capability: &str) -> Result<(), String> {
        self.check_capability("caller", capability)
    }

    fn check_invocation_context(&mut self, _command_name: &str, _command_context: &str) -> Result<(), String> {
        Ok(())
    }

    fn emit_command_executed(&mut self, name: &str, _plugin_id: &str, ok: bool, _duration_ms: u128) {
        self.events.push((name.to_string(), ok));
    }
}

fn codes(store: &DiagnosticStore) -> Vec<String> {
    store.tail(20).into_iter().map(|d| d.code).collect()
}

#[test]
fn arg_type_parser_accepts_expected_forms() {
    assert!(matches!(CommandArgType::parse("string").unwrap(), CommandArgType::String));
    assert!(matches!(CommandArgType::parse("boolean").unwrap(), CommandArgType::Boolean));
    assert!(matches!(CommandArgType::parse("integer").unwrap(), CommandArgType::Integer));
    assert!(matches!(CommandArgType::parse("number").unwrap(), CommandArgType::Number));
    let e = CommandArgType::parse("enum:a,b,c").unwrap();
    match e {
        CommandArgType::Enum(values) => assert_eq!(values, vec!["a", "b", "c"]),
        _ => panic!("expected enum"),
    }
    assert!(CommandArgType::parse("garbage").is_err());
    assert!(CommandArgType::parse("enum:").is_err());
}

#[test]
fn arg_type_errors_are_stable() {
    assert_eq!(
        CommandArgType::parse("enum:").unwrap_err(),
        "enum type requires at least one value (enum:a,b,c)"
    );
    assert_eq!(
        CommandArgType::parse("enum: , ,").unwrap_err(),
        "enum type requires at least one non-empty value"
    );
    assert_eq!(
        CommandArgType::parse("float").unwrap_err(),
        "unknown arg type `float`; expected string, boolean, integer, number, or enum:..."
    );
    match CommandArgType::parse("enum: a , ,b ").unwrap() {
        CommandArgType::Enum(values) => assert_eq!(values, vec!["a", "b"]),
        _ => panic!("expected enum"),
    }
}

#[test]
fn arg_type_descriptor_reads_back() {
    for text in ["string", "boolean", "integer", "number", "enum:x,y z,w"] {
        let t = CommandArgType::parse(text).unwrap();
        assert_eq!(t.as_descriptor(), text);
        assert_eq!(CommandArgType::parse(&t.as_descriptor()).unwrap(), t);
    }
}

#[test]
fn validate_args_strict_about_extra_and_missing() {
    let mut desc = host_descriptor("Test");
    desc.args.push(CommandArg {
        name: "force".into(),
        ty: CommandArgType::Boolean,
        required: false,
        default: Some(JsonValue::Bool(false)),
        doc: String::new(),
    });
    // Extra key.
    let res = CommandRegistry::validate_args(
        &desc,
        &object(vec![("force", JsonValue::Bool(true)), ("extra", JsonValue::Integer(1))]),
    );
    assert!(res.is_err());
    // Wrong type.
    let res = CommandRegistry::validate_args(&desc, &object(vec![("force", JsonValue::Str("yes".into()))]));
    assert!(res.is_err());
    // Default fills in.
    let merged = CommandRegistry::validate_args(&desc, &JsonValue::Null).unwrap();
    match merged {
        JsonValue::Object(entries) => {
            assert_eq!(entries.len(), 1);
            assert_eq!(entries[0].0, "force");
            assert!(matches!(entries[0].1, JsonValue::Bool(false)));
        },
        _ => panic!("expected a table"),
    }
}

#[test]
fn validate_args_reports_every_error_in_order() {
    let mut desc = host_descriptor("Test");
    desc.args.push(CommandArg {
        name: "n".into(),
        ty: CommandArgType::Integer,
        required: true,
        default: None,
        doc: String::new(),
    });
    desc.args.push(CommandArg {
        name: "mode".into(),
        ty: CommandArgType::parse("enum:fast,slow").unwrap(),
        required: false,
        default: None,
        doc: String::new(),
    });
    let errs = CommandRegistry::validate_args(
        &desc,
        &object(vec![("zzz", JsonValue::Null), ("mode", JsonValue::Str("medium".into()))]),
    )
    .unwrap_err();
    assert_eq!(
        errs,
        vec![
            "unexpected arg `zzz`".to_string(),
            "missing required arg `n`".to_string(),
            "arg `mode`: expected one of [fast,slow], got `medium`".to_string(),
        ]
    );
    let errs = CommandRegistry::validate_args(&desc, &JsonValue::Str("x".into())).unwrap_err();
    assert_eq!(errs, vec!["args must be a table or nil; got string".to_string()]);
    let errs = CommandRegistry::validate_args(&desc, &object(vec![("n", JsonValue::Number("1.5".into()))])).unwrap_err();
    assert_eq!(errs, vec!["arg `n`: expected integer, got number".to_string()]);
}

#[test]
fn validate_args_keeps_supplied_values() {
    let mut desc = host_descriptor("Test");
    desc.args.push(CommandArg {
        name: "n".into(),
        ty: CommandArgType::Number,
        required: true,
        default: None,
        doc: String::new(),
    });
    let merged = CommandRegistry::validate_args(&desc, &object(vec![("n", JsonValue::Integer(7))])).unwrap();
    match merged {
        JsonValue::Object(entries) => {
            assert_eq!(entries.len(), 1);
            assert!(matches!(entries[0].1, JsonValue::Integer(7)));
        },
        _ => panic!("expected a table"),
    }
}

#[test]
fn invoke_records_command_executed_on_success() {
    let mut reg = CommandRegistry::new();
    let mut store = DiagnosticStore::new();
    reg.register(host_descriptor("Hello"), &mut store);
    let mut runner = StubRunner::new();
    let (out, _) = reg.invoke("Hello", &JsonValue::Null, &mut runner, &mut store);
    assert!(out.is_ok());
    assert_eq!(runner.ran, vec!["Hello"]);
    assert_eq!(runner.events, vec![("Hello".to_string(), true)]);
    let entry = reg.find("Hello").unwrap();
    assert_eq!(entry.runtime.fires, 1);
    assert_eq!(entry.runtime.last_outcome.as_deref(), Some("ok"));
    assert_eq!(
        codes(&store),
        vec!["command.registered", "command.invoked", "command.completed"]
    );
}

#[test]
fn invoke_records_command_executed_on_failure() {
    let mut reg = CommandRegistry::new();
    let mut store = DiagnosticStore::new();
    let mut desc = host_descriptor("Boom");
    desc.run = CommandBody::Host { handler: 1 };
    reg.register(desc, &mut store);
    let mut runner = StubRunner::new();
    let (out, _) = reg.invoke("Boom", &JsonValue::Null, &mut runner, &mut store);
    assert!(matches!(out, InvokeOutcome::Failed(ref c) if c == "kaboom"));
    assert_eq!(runner.events, vec![("Boom".to_string(), false)]);
    let entry = reg.find("Boom").unwrap();
    assert_eq!(entry.runtime.failures, 1);
    assert_eq!(entry.runtime.last_outcome.as_deref(), Some("failed: kaboom"));
    let last = store.tail(1).remove(0);
    assert_eq!(last.code, "command.failed");
    assert_eq!(last.message, "command `Boom` failed: kaboom");
    assert_eq!(last.severity, DiagnosticSeverity::Error);
}

#[test]
fn capability_denied_short_circuits_before_body() {
    let mut reg = CommandRegistry::new();
    let mut store = DiagnosticStore::new();
    let mut desc = host_descriptor("DangerZone");
    desc.capabilities.push("git:write".into());
    reg.register(desc, &mut store);
    let mut runner = StubRunner::new();
    runner.denied.push("git:write".into());
    let (out, _) = reg.invoke("DangerZone", &JsonValue::Null, &mut runner, &mut store);
    assert!(matches!(out, InvokeOutcome::CapabilityDenied(ref c) if c == "git:write"));
    assert!(runner.ran.is_empty(), "body must not run");
    assert!(runner.events.is_empty(), "no CommandExecuted on denial");
    let last = store.tail(1).remove(0);
    assert_eq!(last.message, "command `DangerZone` denied: capability `git:write` not granted (denied)");
}

#[test]
fn caller_capability_denied_short_circuits_before_body() {
    let mut reg = CommandRegistry::new();
    let mut store = DiagnosticStore::new();
    let mut desc = host_descriptor("tab.close");
    desc.plugin_invocation_capabilities.push("command:invoke:tab.close".into());
    reg.register(desc, &mut store);
    let mut runner = StubRunner::new();
    runner.denied.push("command:invoke:tab.close".into());
    let (out, duration) = reg.invoke("tab.close", &JsonValue::Null, &mut runner, &mut store);
    assert_eq!(out, InvokeOutcome::CapabilityDenied("command:invoke:tab.close".into()));
    assert_eq!(duration, 0);
    let last = store.tail(1).remove(0);
    assert_eq!(last.message, "command `tab.close` denied: caller lacks `command:invoke:tab.close` (denied)");
}

#[test]
fn drop_for_plugin_returns_removed_entries() {
    let mut reg = CommandRegistry::new();
    let mut store = DiagnosticStore::new();
    let mut a = host_descriptor("A");
    a.plugin_id = "p1".into();
    let mut b = host_descriptor("B");
    b.plugin_id = "p2".into();
    reg.register(a, &mut store);
    reg.register(b, &mut store);
    let removed = reg.drop_for_plugin("p1");
    assert_eq!(removed.len(), 1);
    assert!(reg.find("A").is_none());
    assert!(reg.find("B").is_some());
}

#[test]
fn drop_for_generation_keeps_other_generations() {
    let mut reg = CommandRegistry::new();
    let mut store = DiagnosticStore::new();
    let mut a = host_descriptor("A");
    a.plugin_id = "p".into();
    a.generation_id = Some(1);
    let mut b = host_descriptor("B");
    b.plugin_id = "p".into();
    b.generation_id = Some(2);
    reg.register(a, &mut store);
    reg.register(b, &mut store);
    let removed = reg.drop_for_generation("p", 1);
    assert_eq!(removed.len(), 1);
    assert_eq!(removed[0].descriptor.name, "A");
    assert!(reg.find("A").is_none());
    assert!(reg.find("B").is_some());
}

#[test]
fn register_replaces_same_plugin_and_name() {
    let mut reg = CommandRegistry::new();
    let mut store = DiagnosticStore::new();
    assert_eq!(reg.register(host_descriptor("A"), &mut store), 0);
    assert_eq!(reg.register(host_descriptor("B"), &mut store), 1);
    let mut again = host_descriptor("A");
    again.title = "Again".into();
    assert_eq!(reg.register(again, &mut store), 0);
    assert_eq!(reg.entries().len(), 2);
    assert_eq!(reg.entries()[0].descriptor.title, "Again");
    let last = store.tail(1).remove(0);
    assert_eq!(last.code, "command.duplicate_registration");
    assert_eq!(last.message, "command `A` already registered for plugin `<host>`; replacing");
}

#[test]
fn detached_command_dropped_during_dispatch_is_not_reattached() {
    let mut reg = CommandRegistry::new();
    let mut store = DiagnosticStore::new();
    let mut a = host_descriptor("A");
    a.plugin_id = "p".into();
    reg.register(host_descriptor("first"), &mut store);
    reg.register(a, &mut store);
    let (entry, index) = reg.detach_for_dispatch("A").unwrap();
    assert_eq!(index, 1);
    assert!(reg.find("A").is_none());
    reg.drop_for_plugin("p");
    reg.reattach_after_dispatch(entry, index);
    assert!(reg.find("A").is_none());

    let (entry, index) = reg.detach_for_dispatch("first").unwrap();
    reg.reattach_after_dispatch(entry, index);
    assert_eq!(reg.entries()[0].descriptor.name, "first");
}

#[test]
fn palette_destructive_filter() {
    let mut reg = CommandRegistry::new();
    let mut store = DiagnosticStore::new();
    let mut safe = host_descriptor("Safe");
    let mut danger = host_descriptor("Danger");
    danger.destructive = true;
    safe.title = "Safe Refresh".into();
    danger.title = "Reset Hard".into();
    reg.register(safe, &mut store);
    reg.register(danger, &mut store);

    let summaries = reg.summaries();
    let mut palette = PaletteState::new();
    palette.set_query("");
    let visible = palette.filter(&summaries);
    let names: Vec<&str> = visible.iter().map(|s| s.name.as_str()).collect();
    assert_eq!(names, vec!["Safe"]);

    palette.set_show_destructive(true);
    let visible = palette.filter(&summaries);
    let names: Vec<&str> = visible.iter().map(|s| s.name.as_str()).collect();
    assert!(names.contains(&"Danger"));
    assert!(names.contains(&"Safe"));
}

#[test]
fn palette_filter_skips_disabled_commands() {
    let mut reg = CommandRegistry::new();
    let mut store = DiagnosticStore::new();
    let mut disabled = host_descriptor("Amend");
    disabled.availability = CommandAvailability::disabled("nothing to amend");
    reg.register(host_descriptor("Refresh"), &mut store);
    reg.register(disabled, &mut store);
    let summaries = reg.summaries();
    let mut palette = PaletteState::new();
    palette.set_query("");
    let visible = palette.filter(&summaries);
    let names: Vec<&str> = visible.iter().map(|s| s.name.as_str()).collect();
    assert_eq!(names, vec!["Refresh"]);
}

#[test]
fn palette_filter_ranks_exact_match_first() {
    let mut reg = CommandRegistry::new();
    let mut store = DiagnosticStore::new();
    reg.register(host_descriptor("Refresh"), &mut store);
    reg.register(host_descriptor("RefreshAll"), &mut store);
    let summaries = reg.summaries();
    let mut palette = PaletteState::new();
    palette.set_query("refresh");
    let visible = palette.filter(&summaries);
    assert_eq!(visible.first().unwrap().name, "Refresh");
}

#[test]
fn palette_context_filter_global_always_shows() {
    let mut reg = CommandRegistry::new();
    let mut store = DiagnosticStore::new();
    let global = host_descriptor("Global");
    let mut repo = host_descriptor("InRepo");
    repo.context = "repository".into();
    reg.register(global, &mut store);
    reg.register(repo, &mut store);
    let summaries = reg.summaries();
    let mut palette = PaletteState::new();
    palette.set_context("global");
    let visible = palette.filter(&summaries);
    let names: Vec<&str> = visible.iter().map(|s| s.name.as_str()).collect();
    assert_eq!(names, vec!["Global"]);
    palette.set_context("repository");
    let visible = palette.filter(&summaries);
    let names: Vec<&str> = visible.iter().map(|s| s.name.as_str()).collect();
    assert!(names.contains(&"Global"));
    assert!(names.contains(&"InRepo"));
}

#[test]
fn palette_ranks_prefix_before_substring_then_by_plugin_and_name() {
    let mut reg = CommandRegistry::new();
    let mut store = DiagnosticStore::new();
    let mut sub = host_descriptor("GitFetch");
    sub.plugin_id = "a".into();
    let mut pre_b = host_descriptor("FetchAll");
    pre_b.plugin_id = "b".into();
    let mut pre_a = host_descriptor("FetchOne");
    pre_a.plugin_id = "a".into();
    let mut other = host_descriptor("Unrelated");
    other.plugin_id = "a".into();
    reg.register(sub, &mut store);
    reg.register(pre_b, &mut store);
    reg.register(pre_a, &mut store);
    reg.register(other, &mut store);
    let mut palette = PaletteState::new();
    palette.set_query("FETCH");
    let names: Vec<String> = palette.filter(&reg.summaries()).into_iter().map(|s| s.name).collect();
    assert_eq!(names, vec!["FetchOne", "FetchAll", "GitFetch"]);
    assert_eq!(palette.first_match(&reg.summaries()).unwrap().name, "FetchOne");
    palette.set_query("nothing-matches");
    assert!(palette.first_match(&reg.summaries()).is_none());
}

#[test]
fn invalid_args_emits_diagnostic_and_skips_body() {
    let mut reg = CommandRegistry::new();
    let mut store = DiagnosticStore::new();
    let mut desc = host_descriptor("StrictArgs");
    desc.args.push(CommandArg {
        name: "n".into(),
        ty: CommandArgType::Integer,
        required: true,
        default: None,
        doc: String::new(),
    });
    reg.register(desc, &mut store);
    let mut runner = StubRunner::new();
    let (out, _) = reg.invoke("StrictArgs", &JsonValue::Null, &mut runner, &mut store);
    assert!(matches!(out, InvokeOutcome::InvalidArgs(_)));
    assert!(runner.ran.is_empty(), "body must not run on invalid args");
    assert!(runner.events.is_empty(), "no CommandExecuted on invalid args");
    assert!(codes(&store).iter().any(|c| c == "command.invalid_args"));
    let last = store.tail(1).remove(0);
    assert_eq!(last.message, "command `StrictArgs` rejected: missing required arg `n`");
}

#[test]
fn unknown_command_emits_not_found() {
    let mut reg = CommandRegistry::new();
    let mut store = DiagnosticStore::new();
    let mut runner = StubRunner::new();
    let (out, _) = reg.invoke("Nope", &JsonValue::Null, &mut runner, &mut store);
    assert!(matches!(out, InvokeOutcome::NotFound));
    assert!(codes(&store).iter().any(|c| c == "command.not_found"));
    let mut other = DiagnosticStore::new();
    record_command_not_found(&mut other, "x");
    let d = other.tail(1).remove(0);
    assert_eq!(d.plugin_id, "<host>");
    assert_eq!(d.message, "command `x` not registered");
}

#[test]
fn command_diagnostics_name_their_command() {
    let mut reg = CommandRegistry::new();
    let mut store = DiagnosticStore::new();
    let mut runner = StubRunner::new();
    reg.invoke("Nope", &JsonValue::Null, &mut runner, &mut store);
    assert!(runner.ran.is_empty() && runner.events.is_empty());
    let d = store.tail(1).remove(0);
    assert_eq!(api_function(&d.source), Some("command:Nope".to_string()));
    reg.register(host_descriptor("Hello"), &mut store);
    assert_eq!(api_function(&store.tail(1).remove(0).source), Some("command:Hello".to_string()));
}

#[test]
fn invoke_entry_counts_runs() {
    let mut store = DiagnosticStore::new();
    let mut entry = CommandEntry {
        descriptor: host_descriptor("Count"),
        runtime: Default::default(),
    };
    let mut runner = StubRunner::new();
    invoke_entry(&mut entry, "Count", &JsonValue::Null, &mut runner, &mut store);
    invoke_entry(&mut entry, "Count", &JsonValue::Null, &mut runner, &mut store);
    assert_eq!(entry.runtime.fires, 2);
    assert_eq!(entry.runtime.failures, 0);
}

#[test]
fn build_descriptor_fills_defaults_and_reports_bad_args() {
    let raw = RawCommand {
        name: "hello".into(),
        title: None,
        description: None,
        context: None,
        destructive: false,
        capabilities: vec!["ui:notify".into()],
        args: vec![RawCommandArg {
            name: "who".into(),
            ty: "string".into(),
            required: false,
            default: Some(JsonValue::Str("world".into())),
            doc: None,
        }],
        callback: 42,
        source_location: None,
    };
    let d = build_descriptor(raw, "p".into(), Some(3)).unwrap();
    assert_eq!(d.title, "hello");
    assert_eq!(d.description, "");
    assert_eq!(d.context, "global");
    assert_eq!(d.run, CommandBody::Lua { callback: 42 });
    assert_eq!(d.generation_id, Some(3));
    assert_eq!(d.args.len(), 1);
    assert_eq!(d.hooks, CommandHooks::result_event_only());

    let bad = RawCommand {
        name: "bad".into(),
        title: None,
        description: None,
        context: None,
        destructive: false,
        capabilities: Vec::new(),
        args: vec![
            RawCommandArg { name: "a".into(), ty: "nope".into(), required: false, default: None, doc: None },
            RawCommandArg {
                name: "b".into(),
                ty: "boolean".into(),
                required: false,
                default: Some(JsonValue::Integer(1)),
                doc: None,
            },
        ],
        callback: 1,
        source_location: None,
    };
    let errs = build_descriptor(bad, "p".into(), None).err().unwrap();
    assert_eq!(
        errs,
        vec![
            "arg `a` type: unknown arg type `nope`; expected string, boolean, integer, number, or enum:...".to_string(),
            "arg `b` default: expected boolean, got integer".to_string(),
        ]
    );
}

#[test]
fn pending_events_drain_in_order() {
    let mut q = PendingCommandEvents::new();
    assert!(q.is_empty());
    q.push(PendingCommandEvent { name: "a".into(), plugin_id: "p".into(), ok: true, duration_ms: 1 });
    q.push(PendingCommandEvent { name: "b".into(), plugin_id: "p".into(), ok: false, duration_ms: 2 });
    let drained = q.drain();
    assert_eq!(drained.iter().map(|e| e.name.as_str()).collect::<Vec<_>>(), vec!["a", "b"]);
    assert!(q.is_empty());
}

#[test]
fn context_gates_follow_the_active_surface() {
    let active = object(vec![
        ("surface", JsonValue::Str("screen".into())),
        ("repository", object(vec![("is_open", JsonValue::Bool(true))])),
        ("tab", object(vec![("count", JsonValue::Integer(0))])),
    ]);
    assert!(command_context_allowed("global", &active));
    assert!(command_context_allowed("repository", &active));
    assert!(command_context_allowed("repository.graph", &active));
    assert!(!command_context_allowed("tab_bar", &active));
    assert!(command_context_allowed("screen", &active));
    assert!(!command_context_allowed("sidebar", &active));
    assert_eq!(context_surface(&active), "screen");
    assert_eq!(context_surface(&JsonValue::Null), "");
    let closed = object(vec![("tab", object(vec![("count", JsonValue::Integer(2))]))]);
    assert!(!command_context_allowed("repository", &closed));
    assert!(command_context_allowed("tab_bar", &closed));
}

fn field<'a>(v: &'a JsonValue, key: &str) -> Option<&'a JsonValue> {
    match v {
        JsonValue::Object(entries) => entries.iter().find(|(k, _)| k == key).map(|(_, v)| v),
        _ => None,
    }
}

fn str_field(v: &JsonValue, key: &str) -> Option<String> {
    match field(v, key) {
        Some(JsonValue::Str(s)) => Some(s.clone()),
        _ => None,
    }
}

#[test]
fn command_diagnostics_carry_their_details() {
    let mut reg = CommandRegistry::new();
    let mut store = DiagnosticStore::new();
    let mut desc = host_descriptor("DangerZone");
    desc.capabilities = vec!["git:write".into()];
    reg.register(desc, &mut store);
    assert!(store.tail(1).remove(0).context.is_none());

    let mut runner = StubRunner::new();
    runner.denied.push("git:write".into());
    reg.invoke("DangerZone", &JsonValue::Null, &mut runner, &mut store);
    let denied = store.tail(1).remove(0);
    let ctx = denied.context.expect("capability refusal carries detail");
    assert_eq!(str_field(&ctx, "name").as_deref(), Some("DangerZone"));
    assert_eq!(str_field(&ctx, "capability").as_deref(), Some("git:write"));
    assert_eq!(str_field(&ctx, "plugin_id").as_deref(), Some(HOST_COMMAND_PLUGIN_ID));
    assert_eq!(str_field(&ctx, "context").as_deref(), Some(CommandContext::GLOBAL));

    let mut ok_runner = StubRunner::new();
    reg.register(host_descriptor("Hello"), &mut store);
    reg.invoke("Hello", &JsonValue::Null, &mut ok_runner, &mut store);
    let done = store.tail(2);
    let invoked = done[0].context.as_ref().expect("invoked detail");
    assert!(matches!(field(invoked, "args"), Some(JsonValue::Object(_))));
    assert!(field(invoked, "duration_ms").is_none());
    let completed = done[1].context.as_ref().expect("completed detail");
    assert!(matches!(field(completed, "duration_ms"), Some(JsonValue::Integer(_))));
    assert!(field(completed, "cause").is_none());

    reg.invoke("Nope", &JsonValue::Null, &mut ok_runner, &mut store);
    assert!(store.tail(1).remove(0).context.is_none());
}

#[test]
fn a_replaced_registration_names_plugin_and_command() {
    let mut reg = CommandRegistry::new();
    let mut store = DiagnosticStore::new();
    reg.register(host_descriptor("Twice"), &mut store);
    reg.register(host_descriptor("Twice"), &mut store);
    let d = store.tail(1).remove(0);
    assert_eq!(d.code, "command.duplicate_registration");
    let ctx = d.context.expect("replacement detail");
    assert_eq!(str_field(&ctx, "plugin_id").as_deref(), Some(HOST_COMMAND_PLUGIN_ID));
    assert_eq!(str_field(&ctx, "name").as_deref(), Some("Twice"));
}

fn api_function(source: &Option<SourceSpan>) -> Option<String> {
    match source {
        Some(SourceSpan::ApiFunction { name }) => Some(name.clone()),
        _ => None,
    }
}

#[test]
fn integers_beyond_json_range_count_as_numbers() {
    let big = JsonValue::Integer(1i128 << 70);
    assert_eq!(
        validate_value(&CommandArgType::Integer, &big),
        Err("expected integer, got number".to_string())
    );
    assert_eq!(validate_value(&CommandArgType::Number, &big), Ok(()));
    assert_eq!(validate_value(&CommandArgType::Integer, &JsonValue::Integer(u64::MAX as i128)), Ok(()));
    assert_eq!(validate_value(&CommandArgType::Integer, &JsonValue::Integer(i64::MIN as i128)), Ok(()));
    assert!(validate_value(&CommandArgType::Integer, &JsonValue::Integer(i64::MIN as i128 - 1)).is_err());
}

#[test]
fn a_logged_runner_passes_every_call_through() {
    let mut reg = CommandRegistry::new();
    let mut store = DiagnosticStore::new();
    let mut desc = host_descriptor("DangerZone");
    desc.capabilities = vec!["git:write".into()];
    reg.register(desc, &mut store);
    reg.register(host_descriptor("Hello"), &mut store);

    let mut stub = StubRunner::new();
    stub.denied.push("git:write".into());
    let mut runner = LoggedRunner::new(stub);
    let (outcome, _) = reg.invoke("DangerZone", &JsonValue::Null, &mut runner, &mut store);
    assert_eq!(outcome, InvokeOutcome::CapabilityDenied("git:write".into()));
    assert!(runner.inner.ran.is_empty() && runner.inner.events.is_empty());

    let (outcome, _) = reg.invoke("Hello", &JsonValue::Null, &mut runner, &mut store);
    assert_eq!(outcome, InvokeOutcome::Success);
    let stub = runner.into_inner();
    assert_eq!(stub.ran, vec!["Hello".to_string()]);
    assert_eq!(stub.events, vec![("Hello".to_string(), true)]);
}
