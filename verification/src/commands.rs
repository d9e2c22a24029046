//! The unified command registry.
//!
//! One [`CommandRegistry`] holds every command: built-in host commands
//! (registered under [`HOST_COMMAND_PLUGIN_ID`]) and plugin commands.
//! Every invocation goes through [`CommandRegistry::invoke`], which
//! validates the arguments against the command's schema, checks
//! capabilities and the invocation context through a
//! [`CommandRunner`], runs the body, keeps per-command counters and
//! records diagnostics:
//!
//! - `command.registered` (info), `command.duplicate_registration` (warning);
//! - `command.invoked` (info), `command.completed` (info), `command.failed` (error);
//! - `command.invalid_args` (warning), `command.capability_denied` (error),
//!   `command.context_denied` (error), `command.not_found` (warning).

use vstd::prelude::*;
use crate::json::{JsonValue, JsonV, json_view, json_kind, json_kind_spec, object_get, object_keys, object_lookup, json_copy, is_scalar, opt_json_view, json_views, entry_json_views, str_json, put_field, json_int, is_json_int};
use crate::text::{
    chars_of, string_of, str_to_string, str_concat, str_eq, trim, trim_range, find_char,
    lemma_find_char_is, lemma_find_char_bounds, starts_with, join, join_strings, string_views,
    opt_str_view, clone_opt_string, clone_strings, cat3, cat5, contains_str,
};
use crate::diagnostic::{DiagnosticSeverity, PluginDiagnostic, DiagnosticStore, DiagnosticView, SourceSpan, SourceSpanV};
use crate::clock::{instant_now, elapsed_millis, unix_now_millis};
use crate::keyed::{first_index, lemma_first_index, lemma_first_index_props};
use crate::order::{chars_lt, str_lt, lemma_chars_lt_irrefl, lemma_chars_lt_trans, lemma_chars_lt_total, lemma_chars_lt_asym};
use crate::text::{to_ascii_lower, lower_seq, vec_starts_with, vec_contains_seq, contains_seq};

verus! {

/// Plugin id under which built-in host commands register.
pub const HOST_COMMAND_PLUGIN_ID: &'static str = "<host>";

/// Activation contexts of commands.
#[derive(Debug, Clone, Copy, PartialEq, Eq, Hash)]
pub struct CommandContext;

impl CommandContext {
    /// The context of a command that declares none.
    pub const GLOBAL: &'static str = "global";
}

/// Argument type of one command argument.
#[derive(Debug, Clone, PartialEq, Eq)]
pub enum CommandArgType {
    String,
    Boolean,
    Integer,
    Number,
    /// A string out of the listed values; written `enum:a,b,c`.
    Enum(Vec<String>),
}

pub enum ArgTypeSpec {
    String,
    Boolean,
    Integer,
    Number,
    Enum(Seq<Seq<char>>),
}

impl View for CommandArgType {
    type V = ArgTypeSpec;

    open spec fn view(&self) -> ArgTypeSpec {
        match self {
            CommandArgType::String => ArgTypeSpec::String,
            CommandArgType::Boolean => ArgTypeSpec::Boolean,
            CommandArgType::Integer => ArgTypeSpec::Integer,
            CommandArgType::Number => ArgTypeSpec::Number,
            CommandArgType::Enum(vs) => ArgTypeSpec::Enum(string_views(vs@)),
        }
    }
}

/// The values listed after `enum:`: the text split at each comma, each
/// piece trimmed, empty pieces dropped.
pub open spec fn enum_values(s: Seq<char>) -> Seq<Seq<char>>
    decreases s.len(),
{
    let e = find_char(s, ',');
    let piece = trim(s.subrange(0, e));
    let head = if piece.len() > 0 { seq![piece] } else { Seq::<Seq<char>>::empty() };
    if 0 <= e < s.len() {
        head + enum_values(s.subrange(e + 1, s.len() as int))
    } else {
        head
    }
}

/// What parsing an argument-type descriptor gives.
pub open spec fn parse_arg_type(s: Seq<char>) -> Result<ArgTypeSpec, Seq<char>> {
    if s == "string"@ {
        Ok(ArgTypeSpec::String)
    } else if s == "boolean"@ {
        Ok(ArgTypeSpec::Boolean)
    } else if s == "integer"@ {
        Ok(ArgTypeSpec::Integer)
    } else if s == "number"@ {
        Ok(ArgTypeSpec::Number)
    } else if starts_with(s, "enum:"@) {
        let rest = s.subrange(5, s.len() as int);
        if rest.len() == 0 {
            Err("enum type requires at least one value (enum:a,b,c)"@)
        } else if enum_values(rest).len() == 0 {
            Err("enum type requires at least one non-empty value"@)
        } else {
            Ok(ArgTypeSpec::Enum(enum_values(rest)))
        }
    } else {
        Err("unknown arg type `"@ + s + "`; expected string, boolean, integer, number, or enum:..."@)
    }
}

/// The descriptor text of an argument type.
pub open spec fn arg_type_descriptor(t: ArgTypeSpec) -> Seq<char> {
    match t {
        ArgTypeSpec::String => "string"@,
        ArgTypeSpec::Boolean => "boolean"@,
        ArgTypeSpec::Integer => "integer"@,
        ArgTypeSpec::Number => "number"@,
        ArgTypeSpec::Enum(vs) => "enum:"@ + join(vs, ","@),
    }
}

pub open spec fn parse_result_view(r: Result<CommandArgType, String>) -> Result<ArgTypeSpec, Seq<char>> {
    match r {
        Ok(t) => Ok(t@),
        Err(e) => Err(e@),
    }
}

/// Scan `v[start..]` for the values of an `enum:` descriptor.
pub(crate) fn split_enum_values(v: &Vec<char>, start: usize) -> (r: Vec<String>)
    requires
        start <= v.len(),
    ensures
        string_views(r@) == enum_values(v@.subrange(start as int, v.len() as int)),
{
    let ghost full = v@.subrange(start as int, v.len() as int);
    let mut out: Vec<String> = Vec::new();
    let mut pos: usize = start;
    let mut done = false;
    while !done
        invariant
            start <= pos <= v.len(),
            full == v@.subrange(start as int, v.len() as int),
            !done ==> enum_values(full) == string_views(out@) + enum_values(v@.subrange(pos as int, v.len() as int)),
            done ==> enum_values(full) == string_views(out@),
        decreases v.len() - pos + (if done { 0int } else { 1int }),
    {
        let mut e: usize = pos;
        while e < v.len() && v[e] != ','
            invariant
                pos <= e <= v.len(),
                forall|k: int| pos <= k < e ==> v@[k] != ',',
            decreases v.len() - e,
        {
            e += 1;
        }
        let ghost rest = v@.subrange(pos as int, v.len() as int);
        proof {
            lemma_find_char_is(rest, ',', e - pos);
            assert(rest.subrange(0, e - pos) =~= v@.subrange(pos as int, e as int));
        }
        let piece = trim_range(v, pos, e);
        let ghost before = string_views(out@);
        if piece.len() > 0 {
            out.push(string_of(&piece));
            assert(string_views(out@) =~= before.push(piece@));
        }
        if e < v.len() {
            assert(rest.subrange(e - pos + 1, rest.len() as int) =~= v@.subrange(e + 1, v.len() as int));
            assert(string_views(out@) + enum_values(v@.subrange(e + 1, v.len() as int)) =~= before + enum_values(rest));
            pos = e + 1;
        } else {
            assert(string_views(out@) =~= before + enum_values(rest));
            done = true;
        }
    }
    out
}

impl CommandArgType {
    /// Parse a descriptor (`string`, `boolean`, `integer`, `number`,
    /// `enum:a,b,c`). Anything else is an error with a stable message.
    pub fn parse(s: &str) -> (r: Result<Self, String>)
        ensures
            parse_result_view(r) == parse_arg_type(s@),
    {
        if str_eq(s, "string") {
            return Ok(CommandArgType::String);
        }
        if str_eq(s, "boolean") {
            return Ok(CommandArgType::Boolean);
        }
        if str_eq(s, "integer") {
            return Ok(CommandArgType::Integer);
        }
        if str_eq(s, "number") {
            return Ok(CommandArgType::Number);
        }
        let v = chars_of(s);
        let is_enum = v.len() >= 5 && v[0] == 'e' && v[1] == 'n' && v[2] == 'u' && v[3] == 'm' && v[4] == ':';
        proof {
            reveal_strlit("enum:");
            if v@.len() >= 5 {
                if is_enum {
                    assert(v@.subrange(0, 5) =~= "enum:"@);
                } else {
                    assert(v@.subrange(0, 5) != "enum:"@) by {
                        if v@.subrange(0, 5) == "enum:"@ {
                            assert(v@.subrange(0, 5)[0] == 'e');
                            assert(v@.subrange(0, 5)[1] == 'n');
                            assert(v@.subrange(0, 5)[2] == 'u');
                            assert(v@.subrange(0, 5)[3] == 'm');
                            assert(v@.subrange(0, 5)[4] == ':');
                        }
                    }
                }
            }
            assert(is_enum == starts_with(s@, "enum:"@));
        }
        if is_enum {
            if v.len() == 5 {
                return Err(str_to_string("enum type requires at least one value (enum:a,b,c)"));
            }
            let values = split_enum_values(&v, 5);
            if values.len() == 0 {
                return Err(str_to_string("enum type requires at least one non-empty value"));
            }
            return Ok(CommandArgType::Enum(values));
        }
        let mut msg = str_concat("unknown arg type `", s);
        msg.append("`; expected string, boolean, integer, number, or enum:...");
        Err(msg)
    }

    /// The descriptor text (`enum:` followed by the values joined with
    /// commas for an enum).
    pub fn as_descriptor(&self) -> (r: String)
        ensures
            r@ == arg_type_descriptor(self@),
    {
        match self {
            CommandArgType::String => str_to_string("string"),
            CommandArgType::Boolean => str_to_string("boolean"),
            CommandArgType::Integer => str_to_string("integer"),
            CommandArgType::Number => str_to_string("number"),
            CommandArgType::Enum(vs) => {
                let joined = join_strings(vs, ",");
                str_concat("enum:", joined.as_str())
            },
        }
    }

    pub fn duplicate(&self) -> (r: Self)
        ensures
            r@ == self@,
    {
        match self {
            CommandArgType::String => CommandArgType::String,
            CommandArgType::Boolean => CommandArgType::Boolean,
            CommandArgType::Integer => CommandArgType::Integer,
            CommandArgType::Number => CommandArgType::Number,
            CommandArgType::Enum(vs) => CommandArgType::Enum(clone_strings(vs)),
        }
    }
}

/// An argument type whose descriptor reads back as itself: enum values
/// present, each non-empty, already trimmed and free of commas.
pub open spec fn descriptor_round_trips(t: ArgTypeSpec) -> bool {
    match t {
        ArgTypeSpec::Enum(vs) => {
            &&& vs.len() > 0
            &&& forall|i: int|
                0 <= i < vs.len() ==> {
                    &&& (#[trigger] vs[i]).len() > 0
                    &&& trim(vs[i]) == vs[i]
                    &&& !vs[i].contains(',')
                }
        },
        _ => true,
    }
}

proof fn lemma_enum_values_of_join(vs: Seq<Seq<char>>)
    requires
        vs.len() > 0,
        forall|i: int|
            0 <= i < vs.len() ==> {
                &&& (#[trigger] vs[i]).len() > 0
                &&& trim(vs[i]) == vs[i]
                &&& !vs[i].contains(',')
            },
    ensures
        enum_values(join(vs, ","@)) == vs,
        join(vs, ","@).len() > 0,
    decreases vs.len(),
{
    reveal_strlit(",");
    let v0 = vs[0];
    assert(v0.len() > 0 && trim(v0) == v0 && !v0.contains(','));
    assert forall|k: int| 0 <= k < v0.len() implies v0[k] != ',' by {
        if v0[k] == ',' {
            assert(v0.contains(','));
        }
    }
    if vs.len() == 1 {
        let j = join(vs, ","@);
        assert(j == v0);
        lemma_find_char_is(j, ',', j.len() as int);
        assert(j.subrange(0, j.len() as int) =~= j);
        assert(enum_values(j) =~= seq![v0]);
        assert(seq![v0] =~= vs);
    } else {
        let tail = vs.drop_first();
        assert forall|i: int|
            0 <= i < tail.len() implies {
                &&& (#[trigger] tail[i]).len() > 0
                &&& trim(tail[i]) == tail[i]
                &&& !tail[i].contains(',')
            } by {
            assert(tail[i] == vs[i + 1]);
        }
        lemma_enum_values_of_join(tail);
        let jt = join(tail, ","@);
        let j = join(vs, ","@);
        assert(j == v0 + ","@ + jt);
        let n = v0.len() as int;
        assert(j[n] == ',');
        assert forall|k: int| 0 <= k < n implies j[k] != ',' by {
            assert(j[k] == v0[k]);
        }
        lemma_find_char_is(j, ',', n);
        assert(j.subrange(0, n) =~= v0);
        assert(j.subrange(n + 1, j.len() as int) =~= jt);
        assert(enum_values(j) =~= seq![v0] + enum_values(jt));
        assert(seq![v0] + tail =~= vs);
    }
}

/// Reading back a descriptor gives the argument type it was written
/// from, for every type whose enum values are non-empty, trimmed and
/// free of commas.
pub proof fn lemma_arg_type_round_trip(t: ArgTypeSpec)
    requires
        descriptor_round_trips(t),
    ensures
        parse_arg_type(arg_type_descriptor(t)) == Ok::<ArgTypeSpec, Seq<char>>(t),
{
    reveal_strlit("string");
    reveal_strlit("boolean");
    reveal_strlit("integer");
    reveal_strlit("number");
    reveal_strlit("enum:");
    match t {
        ArgTypeSpec::Enum(vs) => {
            lemma_enum_values_of_join(vs);
            let s = arg_type_descriptor(t);
            assert(s[0] == 'e');
            assert(s != "string"@ && s != "boolean"@ && s != "integer"@ && s != "number"@) by {
                assert("string"@[0] == 's');
                assert("boolean"@[0] == 'b');
                assert("integer"@[0] == 'i');
                assert("number"@[0] == 'n');
            }
            assert(s.subrange(0, 5) =~= "enum:"@);
            assert(s.subrange(5, s.len() as int) =~= join(vs, ","@));
            assert(starts_with(s, "enum:"@));
            assert(enum_values(s.subrange(5, s.len() as int)) == vs);
            assert(s.subrange(5, s.len() as int).len() > 0);
            assert(parse_arg_type(s) == Ok::<ArgTypeSpec, Seq<char>>(ArgTypeSpec::Enum(enum_values(s.subrange(5, s.len() as int)))));
            assert(parse_arg_type(s) == Ok::<ArgTypeSpec, Seq<char>>(ArgTypeSpec::Enum(vs)));
        },
        _ => {
            assert("string"@ != "boolean"@ && "string"@ != "integer"@ && "string"@ != "number"@) by {
                assert("string"@[0] != "boolean"@[0]);
                assert("string"@[0] != "integer"@[0]);
                assert("string"@[0] != "number"@[0]);
            }
            assert("boolean"@ != "integer"@ && "boolean"@ != "number"@ && "integer"@ != "number"@) by {
                assert("boolean"@[0] != "integer"@[0]);
                assert("boolean"@[0] != "number"@[0]);
                assert("integer"@[0] != "number"@[0]);
            }
        },
    }
}

#[derive(Debug, Clone, PartialEq, Eq)]
pub struct CommandAvailability {
    pub enabled: bool,
    pub reason: Option<String>,
}

impl CommandAvailability {
    pub fn enabled() -> (r: Self)
        ensures
            r.enabled,
            r.reason is None,
    {
        CommandAvailability { enabled: true, reason: None }
    }

    pub fn disabled(reason: &str) -> (r: Self)
        ensures
            !r.enabled,
            opt_str_view(r.reason) == Some(reason@),
    {
        CommandAvailability { enabled: false, reason: Some(str_to_string(reason)) }
    }

    pub fn duplicate(&self) -> (r: Self)
        ensures
            r.enabled == self.enabled,
            opt_str_view(r.reason) == opt_str_view(self.reason),
    {
        CommandAvailability { enabled: self.enabled, reason: clone_opt_string(&self.reason) }
    }
}

#[derive(Debug, Clone, Copy, PartialEq, Eq, Structural)]
pub struct CommandHooks {
    pub before: bool,
    pub after: bool,
    pub veto: bool,
    pub replace: bool,
}

impl CommandHooks {
    /// Only the result event fires: no before, veto or replace hooks.
    pub fn result_event_only() -> (r: Self)
        ensures
            r == (CommandHooks { before: false, after: true, veto: false, replace: false }),
    {
        CommandHooks { before: false, after: true, veto: false, replace: false }
    }
}

/// What a dispatch came to.
#[derive(Debug, Clone, PartialEq, Eq)]
pub enum InvokeOutcome {
    /// The body ran and returned normally.
    Success,
    InvalidArgs(Vec<String>),
    CapabilityDenied(String),
    ContextDenied(String),
    NotFound,
    /// The body reported an error; the text is its cause.
    Failed(String),
}

impl InvokeOutcome {
    pub fn is_ok(&self) -> (r: bool)
        ensures
            r == (*self is Success),
    {
        match self {
            InvokeOutcome::Success => true,
            _ => false,
        }
    }
}

/// Counters and last outcome of one command.
#[derive(Debug, Clone)]
pub struct CommandRuntime {
    pub fires: u64,
    pub failures: u64,
    pub last_outcome: Option<String>,
    pub last_invoked_at_unix_ms: u128,
    pub last_duration_ms: u128,
}

impl Default for CommandRuntime {
    fn default() -> (r: Self)
        ensures
            r.fires == 0,
            r.failures == 0,
            r.last_outcome is None,
            r.last_invoked_at_unix_ms == 0,
            r.last_duration_ms == 0,
    {
        CommandRuntime { fires: 0, failures: 0, last_outcome: None, last_invoked_at_unix_ms: 0, last_duration_ms: 0 }
    }
}

impl CommandRuntime {
    pub fn duplicate(&self) -> (r: Self)
        ensures
            r.fires == self.fires,
            r.failures == self.failures,
            opt_str_view(r.last_outcome) == opt_str_view(self.last_outcome),
            r.last_invoked_at_unix_ms == self.last_invoked_at_unix_ms,
            r.last_duration_ms == self.last_duration_ms,
    {
        CommandRuntime {
            fires: self.fires,
            failures: self.failures,
            last_outcome: clone_opt_string(&self.last_outcome),
            last_invoked_at_unix_ms: self.last_invoked_at_unix_ms,
            last_duration_ms: self.last_duration_ms,
        }
    }
}

/// One argument of a command's schema.
#[derive(Debug)]
pub struct CommandArg {
    pub name: String,
    pub ty: CommandArgType,
    /// The caller must supply it, unless there is a default.
    pub required: bool,
    /// Substituted when the caller leaves the argument out.
    pub default: Option<JsonValue>,
    pub doc: String,
}

pub struct ArgView {
    pub name: Seq<char>,
    pub ty: ArgTypeSpec,
    pub required: bool,
    pub default: Option<JsonValue>,
}

impl View for CommandArg {
    type V = ArgView;

    open spec fn view(&self) -> ArgView {
        ArgView { name: self.name@, ty: self.ty@, required: self.required, default: self.default }
    }
}

pub open spec fn arg_views(s: Seq<CommandArg>) -> Seq<ArgView> {
    s.map_values(|a: CommandArg| a@)
}

pub open spec fn arg_names(s: Seq<ArgView>) -> Seq<Seq<char>> {
    s.map_values(|a: ArgView| a.name)
}

/// `a` is a copy of optional value `b`.
pub open spec fn opt_json_copy(a: Option<JsonValue>, b: Option<JsonValue>) -> bool {
    match b {
        Some(y) => a is Some && json_copy(a->0, y),
        None => a is None,
    }
}

pub fn copy_opt_json(o: &Option<JsonValue>) -> (r: Option<JsonValue>)
    ensures
        opt_json_copy(r, *o),
{
    match o {
        Some(v) => Some(v.duplicate()),
        None => None,
    }
}

/// How a command's body runs: a callback held by the owning plugin's
/// Lua state, or a host handler; each is named by a handle that the
/// host resolves.
#[derive(Debug, Clone, Copy, PartialEq, Eq, Structural)]
pub enum CommandBody {
    Lua { callback: u64 },
    Host { handler: u64 },
}

/// One command: metadata, schema and body.
pub struct CommandDescriptor {
    pub name: String,
    pub title: String,
    pub description: String,
    pub plugin_id: String,
    pub generation_id: Option<u64>,
    pub context: String,
    pub args: Vec<CommandArg>,
    pub destructive: bool,
    pub capabilities: Vec<String>,
    pub plugin_invocation_capabilities: Vec<String>,
    pub availability: CommandAvailability,
    pub keymap_eligible: bool,
    pub palette_visible: bool,
    pub hooks: CommandHooks,
    pub run: CommandBody,
}

/// A registry entry: descriptor and runtime counters.
pub struct CommandEntry {
    pub descriptor: CommandDescriptor,
    pub runtime: CommandRuntime,
}

impl CommandEntry {
    pub fn run(&self) -> (r: &CommandBody)
        ensures
            *r == self.descriptor.run,
    {
        &self.descriptor.run
    }
}

/// Every registered command, in registration order.
pub struct CommandRegistry {
    entries: Vec<CommandEntry>,
    /// The command taken out for a dispatch in progress, if any.
    detached: Option<DetachedDispatch>,
}

/// Identity of the command taken out for a dispatch, and whether an
/// unload or reload removed its owner meanwhile.
#[derive(Debug, Clone)]
pub struct DetachedDispatch {
    pub plugin_id: String,
    pub generation_id: Option<u64>,
    pub dropped: bool,
}

impl DetachedDispatch {
    /// The command out for dispatch belongs to `plugin_id`.
    pub fn matches_plugin(&self, plugin_id: &str) -> (r: bool)
        ensures
            r == (self.plugin_id@ == plugin_id@),
    {
        str_eq(self.plugin_id.as_str(), plugin_id)
    }

    /// The command out for dispatch belongs to generation `generation_id`
    /// of `plugin_id`.
    pub fn matches_generation(&self, plugin_id: &str, generation_id: u64) -> (r: bool)
        ensures
            r == (self.plugin_id@ == plugin_id@ && self.generation_id == Some(generation_id)),
    {
        self.matches_plugin(plugin_id) && self.generation_id == Some(generation_id)
    }
}

// ---------------------------------------------------------------------
// Argument validation

/// What checking one value against an argument type gives.
pub open spec fn validate_value_spec(ty: ArgTypeSpec, v: JsonValue) -> Result<(), Seq<char>> {
    match ty {
        ArgTypeSpec::String => if v is Str { Ok(()) } else { Err(expected_msg("string"@, json_kind_spec(v))) },
        ArgTypeSpec::Boolean => if v is Bool { Ok(()) } else { Err(expected_msg("boolean"@, json_kind_spec(v))) },
        ArgTypeSpec::Integer => if v matches JsonValue::Integer(n) && json_int(n) {
            Ok(())
        } else {
            Err(expected_msg("integer"@, json_kind_spec(v)))
        },
        ArgTypeSpec::Number => if v is Integer || v is Number {
            Ok(())
        } else {
            Err(expected_msg("number"@, json_kind_spec(v)))
        },
        ArgTypeSpec::Enum(allowed) => match v {
            JsonValue::Str(s) => if allowed.contains(s@) {
                Ok(())
            } else {
                Err("expected one of ["@ + join(allowed, ","@) + "], got `"@ + s@ + "`"@)
            },
            _ => Err("expected one of ["@ + join(allowed, ","@) + "], got "@ + json_kind_spec(v)),
        },
    }
}

/// What each argument type accepts: a string argument exactly JSON
/// strings; a boolean exactly booleans; an integer exactly integers in
/// the `i64` or `u64` range; a number any number; an enum exactly the
/// strings it lists. A rejected value of the first four types is
/// reported as `expected <type>, got <kind of the value>`.
pub proof fn lemma_validate_value(ty: ArgTypeSpec, v: JsonValue)
    ensures
        ty is String ==> (validate_value_spec(ty, v) is Ok <==> v is Str),
        ty is Boolean ==> (validate_value_spec(ty, v) is Ok <==> v is Bool),
        ty is Integer ==> (validate_value_spec(ty, v) is Ok <==> (v is Integer && i64::MIN <= v->Integer_0
            && v->Integer_0 <= u64::MAX)),
        ty is Number ==> (validate_value_spec(ty, v) is Ok <==> (v is Integer || v is Number)),
        ty is Enum ==> (validate_value_spec(ty, v) is Ok <==> (v is Str && ty->Enum_0.contains(v->Str_0@))),
        ty is String && !(v is Str) ==> validate_value_spec(ty, v) == Err::<(), Seq<char>>(
            "expected "@ + "string"@ + ", got "@ + json_kind_spec(v),
        ),
        ty is Boolean && !(v is Bool) ==> validate_value_spec(ty, v) == Err::<(), Seq<char>>(
            "expected "@ + "boolean"@ + ", got "@ + json_kind_spec(v),
        ),
        ty is Integer && validate_value_spec(ty, v) is Err ==> validate_value_spec(ty, v) == Err::<(), Seq<char>>(
            "expected "@ + "integer"@ + ", got "@ + json_kind_spec(v),
        ),
        ty is Number && !(v is Integer || v is Number) ==> validate_value_spec(ty, v) == Err::<(), Seq<char>>(
            "expected "@ + "number"@ + ", got "@ + json_kind_spec(v),
        ),
{
}

/// `expected <what>, got <kind>`.
pub open spec fn expected_msg(what: Seq<char>, kind: Seq<char>) -> Seq<char> {
    "expected "@ + what + ", got "@ + kind
}

pub open spec fn unit_result_view(r: Result<(), String>) -> Result<(), Seq<char>> {
    match r {
        Ok(u) => Ok(u),
        Err(e) => Err(e@),
    }
}

fn expected_prefix(what: &str, kind: &str) -> (r: String)
    ensures
        r@ == expected_msg(what@, kind@),
{
    let mut r = str_concat("expected ", what);
    r.append(", got ");
    r.append(kind);
    assert(r@ =~= "expected "@ + what@ + ", got "@ + kind@);
    r
}

/// Check one value against an argument type.
pub fn validate_value(ty: &CommandArgType, value: &JsonValue) -> (r: Result<(), String>)
    ensures
        unit_result_view(r) == validate_value_spec(ty@, *value),
        r is Ok ==> is_scalar(*value),
{
    match ty {
        CommandArgType::String => match value {
            JsonValue::Str(_) => Ok(()),
            _ => Err(expected_prefix("string", json_kind(value))),
        },
        CommandArgType::Boolean => match value {
            JsonValue::Bool(_) => Ok(()),
            _ => Err(expected_prefix("boolean", json_kind(value))),
        },
        CommandArgType::Integer => match value {
            JsonValue::Integer(n) if is_json_int(*n) => Ok(()),
            _ => Err(expected_prefix("integer", json_kind(value))),
        },
        CommandArgType::Number => match value {
            JsonValue::Integer(_) => Ok(()),
            JsonValue::Number(_) => Ok(()),
            _ => Err(expected_prefix("number", json_kind(value))),
        },
        CommandArgType::Enum(allowed) => {
            let joined = join_strings(allowed, ",");
            let mut msg = str_concat("expected one of [", joined.as_str());
            match value {
                JsonValue::Str(s) => {
                    if contains_str(allowed, s.as_str()) {
                        Ok(())
                    } else {
                        msg.append("], got `");
                        msg.append(s.as_str());
                        msg.append("`");
                        assert(msg@ =~= "expected one of ["@ + join(string_views(allowed@), ","@) + "], got `"@ + s@ + "`"@);
                        Err(msg)
                    }
                },
                _ => {
                    msg.append("], got ");
                    msg.append(json_kind(value));
                    assert(msg@ =~= "expected one of ["@ + join(string_views(allowed@), ","@) + "], got "@ + json_kind_spec(*value));
                    Err(msg)
                },
            }
        },
    }
}

/// Entries of an object as (key text, value) pairs.
pub open spec fn entry_views(m: Seq<(String, JsonValue)>) -> Seq<(Seq<char>, JsonValue)> {
    m.map_values(|e: (String, JsonValue)| (e.0@, e.1))
}

pub open spec fn entry_keys(m: Seq<(Seq<char>, JsonValue)>) -> Seq<Seq<char>> {
    m.map_values(|e: (Seq<char>, JsonValue)| e.0)
}

/// `m` with `k` set to `v`: the first entry named `k` takes the new
/// value, or a new entry goes at the end (an object insert).
pub open spec fn put(m: Seq<(Seq<char>, JsonValue)>, k: Seq<char>, v: JsonValue) -> Seq<(Seq<char>, JsonValue)> {
    match entry_keys(m).index_of_first(k) {
        Some(i) => m.update(i, (k, v)),
        None => m.push((k, v)),
    }
}

/// `a` holds the same keys as `b`, each value a copy of `b`'s.
pub open spec fn entries_match(a: Seq<(Seq<char>, JsonValue)>, b: Seq<(Seq<char>, JsonValue)>) -> bool {
    &&& entry_keys(a) == entry_keys(b)
    &&& forall|i: int| 0 <= i < a.len() ==> json_copy(#[trigger] a[i].1, b[i].1)
}

/// The supplied arguments: none for `nil`, the entries of a table.
pub open spec fn supplied_entries(args: JsonValue) -> Seq<(String, JsonValue)> {
    match args {
        JsonValue::Object(m) => m@,
        _ => Seq::empty(),
    }
}

/// One error per supplied key that the schema does not name, in order.
pub open spec fn unexpected_errors(supplied: Seq<(String, JsonValue)>, names: Seq<Seq<char>>) -> Seq<Seq<char>>
    decreases supplied.len(),
{
    if supplied.len() == 0 {
        Seq::empty()
    } else {
        let prev = unexpected_errors(supplied.drop_last(), names);
        let key = supplied.last().0@;
        if names.contains(key) {
            prev
        } else {
            prev.push("unexpected arg `"@ + key + "`"@)
        }
    }
}

/// One error per schema argument that is supplied with the wrong type,
/// or missing while required and without default, in schema order.
pub open spec fn arg_errors(args: Seq<ArgView>, supplied: Seq<(String, JsonValue)>) -> Seq<Seq<char>>
    decreases args.len(),
{
    if args.len() == 0 {
        Seq::empty()
    } else {
        let prev = arg_errors(args.drop_last(), supplied);
        let a = args.last();
        match object_get(supplied, a.name) {
            Some(v) => match validate_value_spec(a.ty, v) {
                Ok(_) => prev,
                Err(e) => prev.push("arg `"@ + a.name + "`: "@ + e),
            },
            None => if a.default is None && a.required {
                prev.push("missing required arg `"@ + a.name + "`"@)
            } else {
                prev
            },
        }
    }
}

/// The merged arguments: each well-typed supplied value, and the default
/// of each argument left out that has one.
pub open spec fn merged_args(args: Seq<ArgView>, supplied: Seq<(String, JsonValue)>) -> Seq<(Seq<char>, JsonValue)>
    decreases args.len(),
{
    if args.len() == 0 {
        Seq::empty()
    } else {
        let prev = merged_args(args.drop_last(), supplied);
        let a = args.last();
        match object_get(supplied, a.name) {
            Some(v) => if validate_value_spec(a.ty, v) is Ok { put(prev, a.name, v) } else { prev },
            None => match a.default {
                Some(d) => put(prev, a.name, d),
                None => prev,
            },
        }
    }
}

/// What validating `value` against schema `args` gives: the merged
/// arguments, or every error found.
pub open spec fn validate_args_spec(args: Seq<ArgView>, value: JsonValue) -> Result<
    Seq<(Seq<char>, JsonValue)>,
    Seq<Seq<char>>,
> {
    if !(value is Null) && !(value is Object) {
        Err(seq!["args must be a table or nil; got "@ + json_kind_spec(value)])
    } else {
        let supplied = supplied_entries(value);
        let errors = unexpected_errors(supplied, arg_names(args)) + arg_errors(args, supplied);
        if errors.len() == 0 {
            Ok(merged_args(args, supplied))
        } else {
            Err(errors)
        }
    }
}

/// `r` is what `validate_args_spec` describes, values copied.
pub open spec fn validate_result_matches(
    r: Result<JsonValue, Vec<String>>,
    s: Result<Seq<(Seq<char>, JsonValue)>, Seq<Seq<char>>>,
) -> bool {
    match (r, s) {
        (Ok(v), Ok(m)) => v is Object && entries_match(entry_views(v->Object_0@), m),
        (Err(e), Err(es)) => string_views(e@) == es,
        _ => false,
    }
}

pub(crate) fn put_entry(out: &mut Vec<(String, JsonValue)>, k: String, v: JsonValue)
    ensures
        entry_views(final(out)@) == put(entry_views(old(out)@), k@, v),
{
    let ghost before = entry_views(out@);
    let mut i: usize = 0;
    while i < out.len()
        invariant
            i <= out.len(),
            entry_views(out@) == before,
            before == entry_views(old(out)@),
            forall|j: int| 0 <= j < i ==> out@[j].0@ != k@,
        decreases out.len() - i,
    {
        if str_eq(out[i].0.as_str(), k.as_str()) {
            proof {
                entry_keys(before).index_of_first_ensures(k@);
                assert(entry_keys(before)[i as int] == k@);
                assert(entry_keys(before).contains(k@));
                let f = entry_keys(before).index_of_first(k@)->0;
                assert(f == i) by {
                    if f < i {
                        assert(entry_keys(before)[f] == out@[f].0@);
                    }
                }
            }
            let ghost kv = k@;
            out.set(i, (k, v));
            assert(put(before, kv, v) == before.update(i as int, (kv, v)));
            assert(entry_views(out@) =~= before.update(i as int, (kv, v)));
            return;
        }
        i += 1;
    }
    proof {
        entry_keys(before).index_of_first_ensures(k@);
        assert(!entry_keys(before).contains(k@)) by {
            if entry_keys(before).contains(k@) {
                let j = choose|j: int| 0 <= j < entry_keys(before).len() && entry_keys(before)[j] == k@;
                assert(entry_keys(before)[j] == out@[j].0@);
            }
        }
    }
    out.push((k, v));
    assert(entry_views(out@) =~= put(before, k@, v));
}

pub(crate) proof fn lemma_put_preserves_match(
    a: Seq<(Seq<char>, JsonValue)>,
    b: Seq<(Seq<char>, JsonValue)>,
    k: Seq<char>,
    va: JsonValue,
    vb: JsonValue,
)
    requires
        entries_match(a, b),
        json_copy(va, vb),
    ensures
        entries_match(put(a, k, va), put(b, k, vb)),
{
    assert(a.len() == entry_keys(a).len());
    assert(b.len() == entry_keys(b).len());
    entry_keys(a).index_of_first_ensures(k);
    let pa = put(a, k, va);
    let pb = put(b, k, vb);
    match entry_keys(a).index_of_first(k) {
        Some(i) => {
            assert(pa == a.update(i, (k, va)));
            assert(pb == b.update(i, (k, vb)));
            assert forall|j: int| 0 <= j < pa.len() implies entry_keys(pa)[j] == entry_keys(pb)[j] by {
                if j != i {
                    assert(entry_keys(a)[j] == entry_keys(b)[j]);
                }
            }
            assert(entry_keys(pa) =~= entry_keys(pb));
        },
        None => {
            assert(pa == a.push((k, va)));
            assert(pb == b.push((k, vb)));
            assert forall|j: int| 0 <= j < pa.len() implies entry_keys(pa)[j] == entry_keys(pb)[j] by {
                if j < a.len() {
                    assert(entry_keys(a)[j] == entry_keys(b)[j]);
                }
            }
            assert(entry_keys(pa) =~= entry_keys(pb));
        },
    }
}

fn arg_named(args: &Vec<CommandArg>, key: &str) -> (r: bool)
    ensures
        r == arg_names(arg_views(args@)).contains(key@),
{
    let ghost names = arg_names(arg_views(args@));
    let mut i: usize = 0;
    while i < args.len()
        invariant
            i <= args.len(),
            names == arg_names(arg_views(args@)),
            forall|j: int| 0 <= j < i ==> names[j] != key@,
        decreases args.len() - i,
    {
        if str_eq(args[i].name.as_str(), key) {
            assert(names[i as int] == key@);
            return true;
        }
        i += 1;
    }
    false
}

fn quoted(prefix: &str, name: &str) -> (r: String)
    ensures
        r@ == prefix@ + name@ + "`"@,
{
    let mut r = str_concat(prefix, name);
    r.append("`");
    r
}

impl CommandRegistry {
    /// Check the caller's arguments against a schema: every supplied key
    /// must be named by the schema, every supplied value must have its
    /// argument's type, and every required argument without default must
    /// be present. Gives the merged arguments (defaults filled in), or all
    /// the errors found.
    pub fn validate_args(descriptor: &CommandDescriptor, args: &JsonValue) -> (r: Result<JsonValue, Vec<String>>)
        ensures
            validate_result_matches(r, validate_args_spec(arg_views(descriptor.args@), *args)),
    {
        let ghost schema = arg_views(descriptor.args@);
        let empty: Vec<(String, JsonValue)> = Vec::new();
        let supplied: &Vec<(String, JsonValue)> = match args {
            JsonValue::Null => &empty,
            JsonValue::Object(m) => m,
            _ => {
                let msg = str_concat("args must be a table or nil; got ", json_kind(args));
                let mut errs: Vec<String> = Vec::new();
                errs.push(msg);
                assert(string_views(errs@) =~= seq!["args must be a table or nil; got "@ + json_kind_spec(*args)]);
                return Err(errs);
            },
        };
        assert(supplied@ == supplied_entries(*args));
        let mut errors: Vec<String> = Vec::new();
        let mut i: usize = 0;
        while i < supplied.len()
            invariant
                i <= supplied.len(),
                schema == arg_views(descriptor.args@),
                string_views(errors@) == unexpected_errors(supplied@.subrange(0, i as int), arg_names(schema)),
            decreases supplied.len() - i,
        {
            let key = supplied[i].0.as_str();
            assert(supplied@.subrange(0, i + 1).drop_last() =~= supplied@.subrange(0, i as int));
            if !arg_named(&descriptor.args, key) {
                errors.push(quoted("unexpected arg `", key));
                assert(string_views(errors@) =~= unexpected_errors(supplied@.subrange(0, i + 1), arg_names(schema)));
            }
            i += 1;
        }
        assert(supplied@.subrange(0, supplied.len() as int) == supplied@);
        let ghost unexpected = string_views(errors@);
        let mut arg_errs: Vec<String> = Vec::new();
        let mut merged: Vec<(String, JsonValue)> = Vec::new();
        let mut j: usize = 0;
        assert(entry_keys(entry_views(merged@)) =~= entry_keys(merged_args(schema.subrange(0, 0), supplied@)));
        while j < descriptor.args.len()
            invariant
                j <= descriptor.args.len(),
                schema == arg_views(descriptor.args@),
                supplied@ == supplied_entries(*args),
                string_views(arg_errs@) == arg_errors(schema.subrange(0, j as int), supplied@),
                entries_match(entry_views(merged@), merged_args(schema.subrange(0, j as int), supplied@)),
            decreases descriptor.args.len() - j,
        {
            let arg = &descriptor.args[j];
            let ghost prev_m = merged_args(schema.subrange(0, j as int), supplied@);
            assert(schema.subrange(0, j + 1).drop_last() =~= schema.subrange(0, j as int));
            assert(schema.subrange(0, j + 1).last() == arg@);
            match object_lookup(supplied, arg.name.as_str()) {
                Some(v) => {
                    match validate_value(&arg.ty, v) {
                        Ok(()) => {
                            let copy = v.duplicate();
                            proof {
                                lemma_put_preserves_match(entry_views(merged@), prev_m, arg.name@, copy, *v);
                            }
                            put_entry(&mut merged, arg.name.clone(), copy);
                        },
                        Err(e) => {
                            let mut msg = str_concat("arg `", arg.name.as_str());
                            msg.append("`: ");
                            msg.append(e.as_str());
                            let ghost before = string_views(arg_errs@);
                            arg_errs.push(msg);
                            assert(string_views(arg_errs@) =~= before.push("arg `"@ + arg.name@ + "`: "@ + e@));
                        },
                    }
                },
                None => {
                    match &arg.default {
                        Some(d) => {
                            let copy = d.duplicate();
                            proof {
                                lemma_put_preserves_match(entry_views(merged@), prev_m, arg.name@, copy, *d);
                            }
                            put_entry(&mut merged, arg.name.clone(), copy);
                        },
                        None => {
                            if arg.required {
                                let ghost before = string_views(arg_errs@);
                                arg_errs.push(quoted("missing required arg `", arg.name.as_str()));
                                assert(string_views(arg_errs@) =~= before.push("missing required arg `"@ + arg.name@ + "`"@));
                            }
                        },
                    }
                },
            }
            j += 1;
        }
        assert(schema.subrange(0, descriptor.args.len() as int) == schema);
        let ghost all = unexpected + string_views(arg_errs@);
        if errors.len() == 0 && arg_errs.len() == 0 {
            assert(all.len() == 0);
            Ok(JsonValue::Object(merged))
        } else {
            let mut k: usize = 0;
            while k < arg_errs.len()
                invariant
                    k <= arg_errs.len(),
                    string_views(errors@) == unexpected + string_views(arg_errs@).subrange(0, k as int),
                decreases arg_errs.len() - k,
            {
                let ghost before = string_views(errors@);
                errors.push(arg_errs[k].clone());
                assert(string_views(errors@) =~= before.push(arg_errs@[k as int]@));
                assert(string_views(arg_errs@).subrange(0, k + 1) =~= string_views(arg_errs@).subrange(0, k as int).push(arg_errs@[k as int]@));
                k += 1;
            }
            assert(string_views(arg_errs@).subrange(0, arg_errs.len() as int) =~= string_views(arg_errs@));
            Err(errors)
        }
    }
}

// ---------------------------------------------------------------------
// The registry

/// Commands called `name`.
pub open spec fn named(name: Seq<char>) -> spec_fn(CommandEntry) -> bool {
    |e: CommandEntry| e.descriptor.name@ == name
}

/// Commands of plugin `plugin_id` called `name`.
pub open spec fn same_command(plugin_id: Seq<char>, name: Seq<char>) -> spec_fn(CommandEntry) -> bool {
    |e: CommandEntry| e.descriptor.plugin_id@ == plugin_id && e.descriptor.name@ == name
}

/// Commands owned by plugin `plugin_id`.
pub open spec fn owned_by(plugin_id: Seq<char>) -> spec_fn(CommandEntry) -> bool {
    |e: CommandEntry| e.descriptor.plugin_id@ == plugin_id
}

/// Commands not owned by plugin `plugin_id`.
pub open spec fn not_owned_by(plugin_id: Seq<char>) -> spec_fn(CommandEntry) -> bool {
    |e: CommandEntry| e.descriptor.plugin_id@ != plugin_id
}

/// Commands owned by generation `generation_id` of plugin `plugin_id`.
pub open spec fn of_generation(plugin_id: Seq<char>, generation_id: u64) -> spec_fn(CommandEntry) -> bool {
    |e: CommandEntry| e.descriptor.plugin_id@ == plugin_id && e.descriptor.generation_id == Some(generation_id)
}

/// Commands not owned by generation `generation_id` of plugin `plugin_id`.
pub open spec fn not_of_generation(plugin_id: Seq<char>, generation_id: u64) -> spec_fn(CommandEntry) -> bool {
    |e: CommandEntry| !(e.descriptor.plugin_id@ == plugin_id && e.descriptor.generation_id == Some(generation_id))
}

pub open spec fn fresh_runtime() -> CommandRuntime {
    CommandRuntime { fires: 0, failures: 0, last_outcome: None, last_invoked_at_unix_ms: 0, last_duration_ms: 0 }
}

pub open spec fn fresh_entry(d: CommandDescriptor) -> CommandEntry {
    CommandEntry { descriptor: d, runtime: fresh_runtime() }
}

pub open spec fn duplicate_message(name: Seq<char>, plugin_id: Seq<char>) -> Seq<char> {
    "command `"@ + name + "` already registered for plugin `"@ + plugin_id + "`; replacing"@
}

pub open spec fn registered_message(name: Seq<char>, context: Seq<char>) -> Seq<char> {
    "command `"@ + name + "` registered (context: "@ + context + ")"@
}

/// The source a command diagnostic names: the API function
/// `command:<name>`.
pub open spec fn command_source_spec(name: Seq<char>) -> SourceSpanV {
    SourceSpanV::ApiFunction("command:"@ + name)
}

/// The source of a diagnostic about command `name`.
pub fn command_source(name: &str) -> (r: SourceSpan)
    ensures
        r@ == command_source_spec(name@),
{
    SourceSpan::ApiFunction { name: str_concat("command:", name) }
}

/// A diagnostic about command `name`, with no generation.
pub open spec fn diag(
    plugin_id: Seq<char>,
    severity: DiagnosticSeverity,
    code: Seq<char>,
    message: Seq<char>,
    name: Seq<char>,
    context: Option<JsonV>,
) -> DiagnosticView {
    DiagnosticView {
        plugin_id,
        severity,
        code,
        message,
        generation_id: None,
        source: Some(command_source_spec(name)),
        context,
    }
}

/// Strings as JSON strings.
pub open spec fn str_jsons(s: Seq<Seq<char>>) -> Seq<JsonV> {
    s.map_values(|t: Seq<char>| JsonV::Str(t))
}

/// Object entries as plain values.
pub open spec fn entries_json(m: Seq<(Seq<char>, JsonValue)>) -> Seq<(Seq<char>, JsonV)> {
    m.map_values(|e: (Seq<char>, JsonValue)| (e.0, json_view(e.1)))
}

/// Detail of a replaced registration.
pub open spec fn duplicate_context(plugin_id: Seq<char>, name: Seq<char>) -> JsonV {
    JsonV::Object(Seq::empty().push(("plugin_id"@, JsonV::Str(plugin_id))).push(("name"@, JsonV::Str(name))))
}

/// Detail of rejected arguments.
pub open spec fn rejected_context(name: Seq<char>, errors: Seq<Seq<char>>, plugin_id: Seq<char>) -> JsonV {
    JsonV::Object(
        Seq::empty()
            .push(("name"@, JsonV::Str(name)))
            .push(("errors"@, JsonV::Array(str_jsons(errors))))
            .push(("plugin_id"@, JsonV::Str(plugin_id))),
    )
}

/// Detail of a refused declared capability.
pub open spec fn capability_context(name: Seq<char>, cap: Seq<char>, plugin_id: Seq<char>, context: Seq<char>) -> JsonV {
    JsonV::Object(
        Seq::empty()
            .push(("name"@, JsonV::Str(name)))
            .push(("capability"@, JsonV::Str(cap)))
            .push(("plugin_id"@, JsonV::Str(plugin_id)))
            .push(("context"@, JsonV::Str(context))),
    )
}

/// Detail of a refused invocation context.
pub open spec fn context_refusal_context(
    name: Seq<char>,
    plugin_id: Seq<char>,
    context: Seq<char>,
    reason: Seq<char>,
) -> JsonV {
    JsonV::Object(
        Seq::empty()
            .push(("name"@, JsonV::Str(name)))
            .push(("plugin_id"@, JsonV::Str(plugin_id)))
            .push(("context"@, JsonV::Str(context)))
            .push(("target"@, JsonV::Str(name)))
            .push(("reason"@, JsonV::Str(reason))),
    )
}

/// Detail of a capability the caller lacks.
pub open spec fn caller_context(name: Seq<char>, cap: Seq<char>, plugin_id: Seq<char>, context: Seq<char>) -> JsonV {
    JsonV::Object(
        Seq::empty()
            .push(("name"@, JsonV::Str(name)))
            .push(("capability"@, JsonV::Str(cap)))
            .push(("plugin_id"@, JsonV::Str(plugin_id)))
            .push(("context"@, JsonV::Str(context)))
            .push(("target"@, JsonV::Str(name))),
    )
}

/// The fields every run's detail starts with.
pub open spec fn run_fields(name: Seq<char>, plugin_id: Seq<char>, context: Seq<char>, args: JsonV) -> Seq<(Seq<char>, JsonV)> {
    Seq::empty()
        .push(("name"@, JsonV::Str(name)))
        .push(("plugin_id"@, JsonV::Str(plugin_id)))
        .push(("context"@, JsonV::Str(context)))
        .push(("args"@, args))
}

/// Detail of a dispatch about to run its body with `args`.
pub open spec fn invoked_context(name: Seq<char>, plugin_id: Seq<char>, context: Seq<char>, args: JsonV) -> JsonV {
    JsonV::Object(run_fields(name, plugin_id, context, args))
}

/// Detail of a body that ran for `duration_ms` and succeeded.
pub open spec fn completed_context(
    name: Seq<char>,
    plugin_id: Seq<char>,
    context: Seq<char>,
    args: JsonV,
    duration_ms: u128,
) -> JsonV {
    JsonV::Object(run_fields(name, plugin_id, context, args).push(("duration_ms"@, JsonV::Integer(duration_ms as i128))))
}

/// Detail of a body that ran for `duration_ms` and failed with `cause`.
pub open spec fn failed_context(
    name: Seq<char>,
    plugin_id: Seq<char>,
    context: Seq<char>,
    args: JsonV,
    duration_ms: u128,
    cause: Seq<char>,
) -> JsonV {
    JsonV::Object(
        run_fields(name, plugin_id, context, args).push(("duration_ms"@, JsonV::Integer(duration_ms as i128))).push(
            ("cause"@, JsonV::Str(cause)),
        ),
    )
}

fn strs_json(v: &Vec<String>) -> (r: JsonValue)
    ensures
        json_view(r) == JsonV::Array(str_jsons(string_views(v@))),
{
    let ghost sv = string_views(v@);
    let mut out: Vec<JsonValue> = Vec::new();
    let mut i: usize = 0;
    while i < v.len()
        invariant
            i <= v.len(),
            sv == string_views(v@),
            json_views(out@) == str_jsons(sv.take(i as int)),
        decreases v.len() - i,
    {
        let ghost before = out@;
        let item = JsonValue::Str(v[i].clone());
        assert(sv[i as int] == v@[i as int]@);
        assert(json_view(item) == JsonV::Str(sv[i as int]));
        out.push(item);
        assert(out@.drop_last() == before);
        assert(out@[out@.len() - 1] == item);
        assert(json_views(out@) == json_views(before).push(JsonV::Str(sv[i as int])));
        assert(str_jsons(sv.take(i + 1)) =~= str_jsons(sv.take(i as int)).push(JsonV::Str(sv[i as int])));
        i += 1;
    }
    assert(sv.take(v.len() as int) =~= sv);
    JsonValue::Array(out)
}

fn duplicate_context_json(plugin_id: &str, name: &str) -> (r: JsonValue)
    ensures
        json_view(r) == duplicate_context(plugin_id@, name@),
{
    let mut f: Vec<(String, JsonValue)> = Vec::new();
    assert(entry_json_views(f@) == Seq::<(Seq<char>, JsonV)>::empty());
    put_field(&mut f, "plugin_id", str_json(plugin_id));
    put_field(&mut f, "name", str_json(name));
    let r = JsonValue::Object(f);
    assert(json_view(r) == JsonV::Object(entry_json_views(f@)));
    r
}

fn rejected_context_json(name: &str, errors: &Vec<String>, plugin_id: &str) -> (r: JsonValue)
    ensures
        json_view(r) == rejected_context(name@, string_views(errors@), plugin_id@),
{
    let mut f: Vec<(String, JsonValue)> = Vec::new();
    assert(entry_json_views(f@) == Seq::<(Seq<char>, JsonV)>::empty());
    put_field(&mut f, "name", str_json(name));
    put_field(&mut f, "errors", strs_json(errors));
    put_field(&mut f, "plugin_id", str_json(plugin_id));
    let r = JsonValue::Object(f);
    assert(json_view(r) == JsonV::Object(entry_json_views(f@)));
    r
}

fn capability_context_json(name: &str, cap: &str, plugin_id: &str, context: &str) -> (r: JsonValue)
    ensures
        json_view(r) == capability_context(name@, cap@, plugin_id@, context@),
{
    let mut f: Vec<(String, JsonValue)> = Vec::new();
    assert(entry_json_views(f@) == Seq::<(Seq<char>, JsonV)>::empty());
    put_field(&mut f, "name", str_json(name));
    put_field(&mut f, "capability", str_json(cap));
    put_field(&mut f, "plugin_id", str_json(plugin_id));
    put_field(&mut f, "context", str_json(context));
    let r = JsonValue::Object(f);
    assert(json_view(r) == JsonV::Object(entry_json_views(f@)));
    r
}

fn context_refusal_json(name: &str, plugin_id: &str, context: &str, reason: &str) -> (r: JsonValue)
    ensures
        json_view(r) == context_refusal_context(name@, plugin_id@, context@, reason@),
{
    let mut f: Vec<(String, JsonValue)> = Vec::new();
    assert(entry_json_views(f@) == Seq::<(Seq<char>, JsonV)>::empty());
    put_field(&mut f, "name", str_json(name));
    put_field(&mut f, "plugin_id", str_json(plugin_id));
    put_field(&mut f, "context", str_json(context));
    put_field(&mut f, "target", str_json(name));
    put_field(&mut f, "reason", str_json(reason));
    let r = JsonValue::Object(f);
    assert(json_view(r) == JsonV::Object(entry_json_views(f@)));
    r
}

fn caller_context_json(name: &str, cap: &str, plugin_id: &str, context: &str) -> (r: JsonValue)
    ensures
        json_view(r) == caller_context(name@, cap@, plugin_id@, context@),
{
    let mut f: Vec<(String, JsonValue)> = Vec::new();
    assert(entry_json_views(f@) == Seq::<(Seq<char>, JsonV)>::empty());
    put_field(&mut f, "name", str_json(name));
    put_field(&mut f, "capability", str_json(cap));
    put_field(&mut f, "plugin_id", str_json(plugin_id));
    put_field(&mut f, "context", str_json(context));
    put_field(&mut f, "target", str_json(name));
    let r = JsonValue::Object(f);
    assert(json_view(r) == JsonV::Object(entry_json_views(f@)));
    r
}

fn run_fields_json(name: &str, plugin_id: &str, context: &str, args: &JsonValue) -> (r: Vec<(String, JsonValue)>)
    ensures
        entry_json_views(r@) == run_fields(name@, plugin_id@, context@, json_view(*args)),
{
    let mut f: Vec<(String, JsonValue)> = Vec::new();
    assert(entry_json_views(f@) == Seq::<(Seq<char>, JsonV)>::empty());
    put_field(&mut f, "name", str_json(name));
    put_field(&mut f, "plugin_id", str_json(plugin_id));
    put_field(&mut f, "context", str_json(context));
    put_field(&mut f, "args", args.duplicate());
    f
}

/// Entries that match `m` value for value have its plain view.
proof fn lemma_entries_json(x: Seq<(String, JsonValue)>, m: Seq<(Seq<char>, JsonValue)>)
    requires
        entries_match(entry_views(x), m),
    ensures
        entry_json_views(x) == entries_json(m),
    decreases x.len(),
{
    let ex = entry_views(x);
    assert(entry_keys(ex).len() == entry_keys(m).len());
    if x.len() > 0 {
        let x2 = x.drop_last();
        let m2 = m.drop_last();
        let n = x.len() - 1;
        assert(entry_views(x2) =~= ex.drop_last());
        assert(entry_keys(entry_views(x2)) =~= entry_keys(ex).drop_last());
        assert(entry_keys(m2) =~= entry_keys(m).drop_last());
        assert forall|i: int| 0 <= i < entry_views(x2).len() implies json_copy(#[trigger] entry_views(x2)[i].1, m2[i].1) by {
            assert(entry_views(x2)[i] == ex[i]);
        }
        lemma_entries_json(x2, m2);
        assert(entry_keys(ex)[n] == entry_keys(m)[n]);
        assert(json_copy(ex[n].1, m[n].1));
        assert(entries_json(m) =~= entries_json(m2).push((m[n].0, json_view(m[n].1))));
    }
}

/// The registry after registering `d`: a command of the same plugin and
/// name is replaced in place (its counters reset), else `d` is appended.
pub open spec fn register_one(cmds: Seq<CommandEntry>, d: CommandDescriptor) -> Seq<CommandEntry> {
    match first_index(cmds, same_command(d.plugin_id@, d.name@)) {
        Some(i) => cmds.update(i, fresh_entry(d)),
        None => cmds.push(fresh_entry(d)),
    }
}

/// The diagnostic registering `d` into `cmds` records.
pub open spec fn register_one_diag(cmds: Seq<CommandEntry>, d: CommandDescriptor) -> DiagnosticView {
    match first_index(cmds, same_command(d.plugin_id@, d.name@)) {
        Some(_) => diag(
            d.plugin_id@,
            DiagnosticSeverity::Warning,
            "command.duplicate_registration"@,
            duplicate_message(d.name@, d.plugin_id@), d.name@, Some(duplicate_context(d.plugin_id@, d.name@))),
        None => diag(
            d.plugin_id@,
            DiagnosticSeverity::Info,
            "command.registered"@,
            registered_message(d.name@, d.context@),
            d.name@,
            None,
        ),
    }
}

/// The registry after registering `ds` one after another.
pub open spec fn register_seq(cmds: Seq<CommandEntry>, ds: Seq<CommandDescriptor>) -> Seq<CommandEntry>
    decreases ds.len(),
{
    if ds.len() == 0 {
        cmds
    } else {
        register_one(register_seq(cmds, ds.drop_last()), ds.last())
    }
}

/// The diagnostics registering `ds` one after another records.
pub open spec fn register_diags(cmds: Seq<CommandEntry>, ds: Seq<CommandDescriptor>) -> Seq<DiagnosticView>
    decreases ds.len(),
{
    if ds.len() == 0 {
        Seq::empty()
    } else {
        register_diags(cmds, ds.drop_last()).push(register_one_diag(register_seq(cmds, ds.drop_last()), ds.last()))
    }
}

/// The diagnostic for a call of an unknown command.
pub open spec fn not_found_diag(name: Seq<char>) -> DiagnosticView {
    diag("<host>"@, DiagnosticSeverity::Warning, "command.not_found"@, "command `"@ + name + "` not registered"@, name, None)
}

/// What the detached-dispatch record says: owner, generation, dropped.
pub open spec fn detached_view(d: Option<DetachedDispatch>) -> Option<(Seq<char>, Option<u64>, bool)> {
    match d {
        Some(x) => Some((x.plugin_id@, x.generation_id, x.dropped)),
        None => None,
    }
}

impl CommandRegistry {
    /// The registered commands, in registration order.
    pub closed spec fn commands(&self) -> Seq<CommandEntry> {
        self.entries@
    }

    /// The command out for dispatch: owner, generation, and whether it was
    /// dropped meanwhile.
    pub closed spec fn detached_spec(&self) -> Option<(Seq<char>, Option<u64>, bool)> {
        detached_view(self.detached)
    }

    pub fn new() -> (r: Self)
        ensures
            r.commands() == Seq::<CommandEntry>::empty(),
            r.detached_spec() is None,
    {
        CommandRegistry { entries: Vec::new(), detached: None }
    }

    pub fn entries(&self) -> (r: &[CommandEntry])
        ensures
            r@ == self.commands(),
    {
        self.entries.as_slice()
    }

    fn index_where_same(&self, plugin_id: &str, name: &str) -> (r: Option<usize>)
        ensures
            match r {
                Some(i) => i < self.commands().len(),
                None => true,
            },
            match first_index(self.commands(), same_command(plugin_id@, name@)) {
                Some(i) => r is Some && r->0 == i,
                None => r is None,
            },
    {
        let mut i: usize = 0;
        while i < self.entries.len()
            invariant
                i <= self.entries.len(),
                forall|k: int| 0 <= k < i ==> !same_command(plugin_id@, name@)(#[trigger] self.entries@[k]),
            decreases self.entries.len() - i,
        {
            if str_eq(self.entries[i].descriptor.plugin_id.as_str(), plugin_id)
                && str_eq(self.entries[i].descriptor.name.as_str(), name) {
                proof {
                    lemma_first_index(self.entries@, same_command(plugin_id@, name@), i as int);
                }
                return Some(i);
            }
            i += 1;
        }
        proof {
            lemma_first_index(self.entries@, same_command(plugin_id@, name@), i as int);
        }
        None
    }

    /// Index of the first command called `name`.
    pub fn find_index(&self, name: &str) -> (r: Option<usize>)
        ensures
            match r {
                Some(i) => i < self.commands().len(),
                None => true,
            },
            match first_index(self.commands(), named(name@)) {
                Some(i) => r is Some && r->0 == i,
                None => r is None,
            },
    {
        let mut i: usize = 0;
        while i < self.entries.len()
            invariant
                i <= self.entries.len(),
                forall|k: int| 0 <= k < i ==> !named(name@)(#[trigger] self.entries@[k]),
            decreases self.entries.len() - i,
        {
            if str_eq(self.entries[i].descriptor.name.as_str(), name) {
                proof {
                    lemma_first_index(self.entries@, named(name@), i as int);
                }
                return Some(i);
            }
            i += 1;
        }
        proof {
            lemma_first_index(self.entries@, named(name@), i as int);
        }
        None
    }

    /// The first command called `name`, in registration order.
    pub fn find(&self, name: &str) -> (r: Option<&CommandEntry>)
        ensures
            match first_index(self.commands(), named(name@)) {
                Some(i) => r matches Some(e) && *e == self.commands()[i],
                None => r is None,
            },
    {
        match self.find_index(name) {
            Some(i) => Some(&self.entries[i]),
            None => None,
        }
    }

    /// Add a command. A command of the same plugin with the same name is
    /// replaced in place (its counters reset) and a
    /// `command.duplicate_registration` warning is recorded; otherwise the
    /// command is appended and `command.registered` is recorded. Returns
    /// the command's index.
    pub fn register(&mut self, descriptor: CommandDescriptor, diagnostics: &mut DiagnosticStore) -> (r: usize)
        ensures
            final(self).detached_spec() == old(self).detached_spec(),
            match first_index(old(self).commands(), same_command(descriptor.plugin_id@, descriptor.name@)) {
                Some(i) => {
                    &&& r == i
                    &&& final(self).commands() == old(self).commands().update(i, fresh_entry(descriptor))
                    &&& final(diagnostics).log() == old(diagnostics).log().push(
                        diag(
                            descriptor.plugin_id@,
                            DiagnosticSeverity::Warning,
                            "command.duplicate_registration"@,
                            duplicate_message(descriptor.name@, descriptor.plugin_id@), descriptor.name@,
                            Some(duplicate_context(descriptor.plugin_id@, descriptor.name@))),
                    )
                },
                None => {
                    &&& r == old(self).commands().len()
                    &&& final(self).commands() == old(self).commands().push(fresh_entry(descriptor))
                    &&& final(diagnostics).log() == old(diagnostics).log().push(
                        diag(
                            descriptor.plugin_id@,
                            DiagnosticSeverity::Info,
                            "command.registered"@,
                            registered_message(descriptor.name@, descriptor.context@), descriptor.name@, None),
                    )
                },
            },
    {
        let ghost d = descriptor;
        match self.index_where_same(descriptor.plugin_id.as_str(), descriptor.name.as_str()) {
            Some(index) => {
                let msg = cat5(
                    "command `",
                    descriptor.name.as_str(),
                    "` already registered for plugin `",
                    descriptor.plugin_id.as_str(),
                    "`; replacing",
                );
                diagnostics.record(
                    PluginDiagnostic::new(
                        descriptor.plugin_id.clone(),
                        DiagnosticSeverity::Warning,
                        "command.duplicate_registration",
                        msg,
                    ).with_source(command_source(descriptor.name.as_str())).with_context(
                        duplicate_context_json(descriptor.plugin_id.as_str(), descriptor.name.as_str()),
                    ),
                );
                let runtime = CommandRuntime::default();
                self.entries.set(index, CommandEntry { descriptor, runtime });
                index
            },
            None => {
                let msg = cat5(
                    "command `",
                    descriptor.name.as_str(),
                    "` registered (context: ",
                    descriptor.context.as_str(),
                    ")",
                );
                diagnostics.record(
                    PluginDiagnostic::new(descriptor.plugin_id.clone(), DiagnosticSeverity::Info, "command.registered", msg).with_source(command_source(descriptor.name.as_str())),
                );
                let runtime = CommandRuntime::default();
                self.entries.push(CommandEntry { descriptor, runtime });
                self.entries.len() - 1
            },
        }
    }

    /// Remove every command matching `drop`, keeping the rest in order.
    /// Returns the removed commands, in order.
    fn remove_where(&mut self, plugin_id: &str, generation: Option<u64>) -> (r: Vec<CommandEntry>)
        ensures
            final(self).detached == old(self).detached,
            generation is None ==> final(self).commands() == old(self).commands().filter(not_owned_by(plugin_id@)),
            generation is None ==> r@ == old(self).commands().filter(owned_by(plugin_id@)),
            generation is Some ==> final(self).commands() == old(self).commands().filter(
                not_of_generation(plugin_id@, generation->0),
            ),
            generation is Some ==> r@ == old(self).commands().filter(of_generation(plugin_id@, generation->0)),
    {
        let ghost all = self.entries@;
        let ghost keep = if generation is None { not_owned_by(plugin_id@) } else { not_of_generation(plugin_id@, generation->0) };
        let ghost take = if generation is None { owned_by(plugin_id@) } else { of_generation(plugin_id@, generation->0) };
        let mut removed: Vec<CommandEntry> = Vec::new();
        let mut i: usize = 0;
        proof {
            reveal(Seq::filter);
            assert(all.subrange(0, 0).filter(keep) =~= Seq::<CommandEntry>::empty());
            assert(all.subrange(0, 0).filter(take) =~= Seq::<CommandEntry>::empty());
        }
        while i < self.entries.len()
            invariant
                i <= self.entries.len(),
                i + removed.len() <= all.len(),
                self.detached == old(self).detached,
                all == old(self).entries@,
                keep == (if generation is None { not_owned_by(plugin_id@) } else { not_of_generation(plugin_id@, generation->0) }),
                take == (if generation is None { owned_by(plugin_id@) } else { of_generation(plugin_id@, generation->0) }),
                forall|e: CommandEntry| #[trigger] keep(e) == !take(e),
                self.entries@.len() - i == all.len() - (i + removed.len()),
                self.entries@.subrange(i as int, self.entries@.len() as int) == all.subrange(
                    i + removed.len(),
                    all.len() as int,
                ),
                self.entries@.subrange(0, i as int) == all.subrange(0, i + removed.len()).filter(keep),
                removed@ == all.subrange(0, i + removed.len()).filter(take),
            decreases self.entries.len() - i,
        {
            let ghost done = i + removed.len();
            let ghost x = self.entries@[i as int];
            assert(x == all[done]) by {
                assert(self.entries@.subrange(i as int, self.entries@.len() as int)[0] == x);
            }
            assert(all.subrange(0, done + 1).drop_last() =~= all.subrange(0, done));
            assert(all.subrange(0, done + 1).last() == x);
            proof {
                reveal(Seq::filter);
            }
            let hit = match generation {
                None => str_eq(self.entries[i].descriptor.plugin_id.as_str(), plugin_id),
                Some(g) => str_eq(self.entries[i].descriptor.plugin_id.as_str(), plugin_id)
                    && self.entries[i].descriptor.generation_id == Some(g),
            };
            assert(hit == take(x));
            if hit {
                let ghost before = self.entries@;
                let e = self.entries.remove(i);
                removed.push(e);
                assert(self.entries@.subrange(0, i as int) =~= before.subrange(0, i as int));
                assert(self.entries@.subrange(i as int, self.entries@.len() as int) =~= before.subrange(
                    i + 1,
                    before.len() as int,
                ));
                proof {
                    lemma_suffix_step(before, i as int, all, done);
                }
            } else {
                assert(self.entries@.subrange(0, i + 1) =~= self.entries@.subrange(0, i as int).push(x));
                proof {
                    lemma_suffix_step(self.entries@, i as int, all, done);
                }
                i += 1;
            }
        }
        assert(all.subrange(0, all.len() as int) =~= all);
        r_finish(removed)
    }
}

proof fn lemma_suffix_step<T>(a: Seq<T>, i: int, b: Seq<T>, j: int)
    requires
        0 <= i < a.len(),
        0 <= j < b.len(),
        a.subrange(i, a.len() as int) == b.subrange(j, b.len() as int),
    ensures
        a.subrange(i + 1, a.len() as int) == b.subrange(j + 1, b.len() as int),
{
    let sa = a.subrange(i, a.len() as int);
    let sb = b.subrange(j, b.len() as int);
    let ta = a.subrange(i + 1, a.len() as int);
    let tb = b.subrange(j + 1, b.len() as int);
    assert(sa.len() == a.len() - i);
    assert(sb.len() == b.len() - j);
    assert(sa.len() == sb.len());
    assert(ta.len() == a.len() - i - 1);
    assert(tb.len() == b.len() - j - 1);
    assert forall|k: int| 0 <= k < ta.len() implies #[trigger] ta[k] == tb[k] by {
        assert(sa[k + 1] == sb[k + 1]);
        assert(ta[k] == sa[k + 1]);
        assert(tb[k] == sb[k + 1]);
    }
    assert(ta =~= tb);
}

fn r_finish(v: Vec<CommandEntry>) -> (r: Vec<CommandEntry>)
    ensures
        r == v,
{
    v
}

impl CommandRegistry {
    /// Remove every command of `plugin_id` (an unload), keeping the others
    /// in order; a command out for dispatch that belongs to the plugin is
    /// marked dropped so that it is not put back. Returns the removed
    /// commands, in order.
    pub fn drop_for_plugin(&mut self, plugin_id: &str) -> (r: Vec<CommandEntry>)
        ensures
            final(self).commands() == old(self).commands().filter(not_owned_by(plugin_id@)),
            r@ == old(self).commands().filter(owned_by(plugin_id@)),
            final(self).detached_spec() == match old(self).detached_spec() {
                Some((p, g, d)) => Some((p, g, d || p == plugin_id@)),
                None => None,
            },
    {
        let removed = self.remove_where(plugin_id, None);
        match &mut self.detached {
            Some(d) => {
                if d.matches_plugin(plugin_id) {
                    d.dropped = true;
                }
            },
            None => {},
        }
        removed
    }

    /// Remove every command of generation `generation_id` of `plugin_id`
    /// (before a reload's commands come in), keeping the others in order;
    /// a command of that generation out for dispatch is marked dropped.
    /// Returns the removed commands, in order.
    pub fn drop_for_generation(&mut self, plugin_id: &str, generation_id: u64) -> (r: Vec<CommandEntry>)
        ensures
            final(self).commands() == old(self).commands().filter(not_of_generation(plugin_id@, generation_id)),
            r@ == old(self).commands().filter(of_generation(plugin_id@, generation_id)),
            final(self).detached_spec() == match old(self).detached_spec() {
                Some((p, g, d)) => Some((p, g, d || (p == plugin_id@ && g == Some(generation_id)))),
                None => None,
            },
    {
        let removed = self.remove_where(plugin_id, Some(generation_id));
        match &mut self.detached {
            Some(d) => {
                if d.matches_generation(plugin_id, generation_id) {
                    d.dropped = true;
                }
            },
            None => {},
        }
        removed
    }

    /// Take the first command called `name` out of the registry for a
    /// dispatch, remembering its owner. Returns it and its index.
    pub fn detach_for_dispatch(&mut self, name: &str) -> (r: Option<(CommandEntry, usize)>)
        ensures
            match first_index(old(self).commands(), named(name@)) {
                Some(i) => {
                    &&& r matches Some((e, idx)) && e == old(self).commands()[i] && idx == i
                    &&& final(self).commands() == old(self).commands().remove(i)
                    &&& final(self).detached_spec() == Some((
                        old(self).commands()[i].descriptor.plugin_id@,
                        old(self).commands()[i].descriptor.generation_id,
                        false,
                    ))
                },
                None => {
                    &&& r is None
                    &&& final(self).commands() == old(self).commands()
                    &&& final(self).detached_spec() == old(self).detached_spec()
                },
            },
    {
        match self.find_index(name) {
            Some(index) => {
                let entry = self.entries.remove(index);
                self.detached = Some(
                    DetachedDispatch {
                        plugin_id: entry.descriptor.plugin_id.clone(),
                        generation_id: entry.descriptor.generation_id,
                        dropped: false,
                    },
                );
                Some((entry, index))
            },
            None => None,
        }
    }

    /// Put a dispatched command back at its former index (or at the end
    /// when the registry has shrunk meanwhile), unless an unload or reload
    /// dropped its owner during the dispatch. Clears the dispatch record.
    pub fn reattach_after_dispatch(&mut self, entry: CommandEntry, original_index: usize)
        ensures
            final(self).detached_spec() is None,
            match old(self).detached_spec() {
                Some((_, _, true)) => final(self).commands() == old(self).commands(),
                _ => final(self).commands() == old(self).commands().insert(
                    if original_index <= old(self).commands().len() {
                        original_index as int
                    } else {
                        old(self).commands().len() as int
                    },
                    entry,
                ),
            },
    {
        let dropped = match &self.detached {
            Some(d) => d.dropped,
            None => false,
        };
        self.detached = None;
        if dropped {
            return;
        }
        let len = self.entries.len();
        let at = if original_index <= len { original_index } else { len };
        self.entries.insert(at, entry);
    }
}

/// Record that a call named an unknown command.
pub fn record_command_not_found(diagnostics: &mut DiagnosticStore, name: &str)
    ensures
        final(diagnostics).log() == old(diagnostics).log().push(not_found_diag(name@)),
{
    let msg = cat3("command `", name, "` not registered");
    diagnostics.record(
        PluginDiagnostic::new(str_to_string(HOST_COMMAND_PLUGIN_ID), DiagnosticSeverity::Warning, "command.not_found", msg).with_source(command_source(name)),
    );
    proof {
        reveal_strlit("<host>");
    }
}

/// Every command left after removing those of a plugin belongs to
/// another plugin, and the removed and the kept commands together are as
/// many as there were.
pub proof fn lemma_drop_for_plugin_partitions(commands: Seq<CommandEntry>, plugin_id: Seq<char>)
    ensures
        forall|i: int|
            0 <= i < commands.filter(not_owned_by(plugin_id)).len() ==> (#[trigger] commands.filter(
                not_owned_by(plugin_id),
            )[i]).descriptor.plugin_id@ != plugin_id,
        forall|i: int|
            0 <= i < commands.filter(owned_by(plugin_id)).len() ==> (#[trigger] commands.filter(
                owned_by(plugin_id),
            )[i]).descriptor.plugin_id@ == plugin_id,
        commands.filter(not_owned_by(plugin_id)).len() + commands.filter(owned_by(plugin_id)).len()
            == commands.len(),
    decreases commands.len(),
{
    broadcast use vstd::seq_lib::group_filter_ensures;
    reveal(Seq::filter);
    if commands.len() > 0 {
        lemma_drop_for_plugin_partitions(commands.drop_last(), plugin_id);
    }
}

/// The same for a plugin generation.
pub proof fn lemma_drop_for_generation_partitions(commands: Seq<CommandEntry>, plugin_id: Seq<char>, generation_id: u64)
    ensures
        forall|i: int|
            0 <= i < commands.filter(not_of_generation(plugin_id, generation_id)).len() ==> !({
                let e = #[trigger] commands.filter(not_of_generation(plugin_id, generation_id))[i];
                e.descriptor.plugin_id@ == plugin_id && e.descriptor.generation_id == Some(generation_id)
            }),
        commands.filter(not_of_generation(plugin_id, generation_id)).len() + commands.filter(
            of_generation(plugin_id, generation_id),
        ).len() == commands.len(),
    decreases commands.len(),
{
    broadcast use vstd::seq_lib::group_filter_ensures;
    reveal(Seq::filter);
    if commands.len() > 0 {
        lemma_drop_for_generation_partitions(commands.drop_last(), plugin_id, generation_id);
    }
}

// ---------------------------------------------------------------------
// Dispatch

/// A host's answer to a gate or a body run, as plain values.
pub enum Answer {
    Granted,
    Refused(Seq<char>),
}

/// One call a dispatch made on its runner, with the runner's answer.
pub enum RunnerCall {
    Capability { plugin_id: Seq<char>, capability: Seq<char>, answer: Answer },
    Context { name: Seq<char>, context: Seq<char>, answer: Answer },
    Invocation { name: Seq<char>, capability: Seq<char>, answer: Answer },
    Run { command: Seq<char>, input: JsonValue, answer: Answer },
    Executed { name: Seq<char>, plugin_id: Seq<char>, ok: bool, duration_ms: u128 },
}

/// An answer as plain values.
pub open spec fn result_view(r: Result<(), String>) -> Answer {
    match r {
        Ok(()) => Answer::Granted,
        Err(e) => Answer::Refused(e@),
    }
}

pub open spec fn result_views(s: Seq<Result<(), String>>) -> Seq<Answer> {
    s.map_values(|r: Result<(), String>| result_view(r))
}

/// The host side of a dispatch: the capability and context checks, the
/// body, and the announcement. Implemented by the host.
pub trait CommandRunner {
    /// Whether this runner keeps [`CommandRunner::calls`], the log of
    /// the calls made on it; the contracts below hold only for a runner
    /// that does. No host runner is assumed to; wrapping one in
    /// [`LoggedRunner`] gives one that does.
    open spec fn keeps_call_log() -> bool {
        false
    }

    /// The calls made on this runner so far, oldest first, each with the
    /// answer it gave (for a runner that keeps the log).
    open spec fn calls(&self) -> Seq<RunnerCall> {
        Seq::empty()
    }

    /// Run the command's body with the validated, defaults-filled args.
    fn run(&mut self, entry: &CommandEntry, args: &JsonValue) -> (r: Result<(), String>)
        ensures
            Self::keeps_call_log() ==> final(self).calls() == old(self).calls().push(
                RunnerCall::Run { command: entry.descriptor.name@, input: *args, answer: result_view(r) },
            ),
    ;

    /// `Ok` when `plugin_id` holds `capability`, else the reason.
    fn check_capability(&mut self, plugin_id: &str, capability: &str) -> (r: Result<(), String>)
        ensures
            Self::keeps_call_log() ==> final(self).calls() == old(self).calls().push(
                RunnerCall::Capability { plugin_id: plugin_id@, capability: capability@, answer: result_view(r) },
            ),
    ;

    /// `Ok` when the calling plugin may use `capability` to invoke
    /// `command_name`, else the reason.
    fn check_invocation_capability(&mut self, command_name: &str, capability: &str) -> (r: Result<(), String>)
        ensures
            Self::keeps_call_log() ==> final(self).calls() == old(self).calls().push(
                RunnerCall::Invocation { name: command_name@, capability: capability@, answer: result_view(r) },
            ),
    ;

    /// `Ok` when a command of context `command_context` may run in the
    /// active context, else the reason.
    fn check_invocation_context(&mut self, command_name: &str, command_context: &str) -> (r: Result<(), String>)
        ensures
            Self::keeps_call_log() ==> final(self).calls() == old(self).calls().push(
                RunnerCall::Context { name: command_name@, context: command_context@, answer: result_view(r) },
            ),
    ;

    /// Announce a dispatch that reached the body.
    fn emit_command_executed(&mut self, name: &str, plugin_id: &str, ok: bool, duration_ms: u128)
        ensures
            Self::keeps_call_log() ==> final(self).calls() == old(self).calls().push(
                RunnerCall::Executed { name: name@, plugin_id: plugin_id@, ok, duration_ms },
            ),
    ;
}

/// A host runner with its calls logged: every call is passed on to
/// `inner` and recorded, with the answer, in a log that exists only for
/// the proofs (it takes no space at run time). Dispatching through it
/// makes every statement about the call log hold, whatever `inner` is.
pub struct LoggedRunner<R: CommandRunner> {
    pub inner: R,
    /// The calls made so far, oldest first, each with its answer.
    pub log: Ghost<Seq<RunnerCall>>,
}

impl<R: CommandRunner> LoggedRunner<R> {
    /// `inner`, with an empty log.
    pub fn new(inner: R) -> (r: Self)
        ensures
            r.inner == inner,
            r.calls() == Seq::<RunnerCall>::empty(),
    {
        LoggedRunner { inner, log: Ghost(Seq::empty()) }
    }

    /// The wrapped runner.
    pub fn into_inner(self) -> (r: R)
        ensures
            r == self.inner,
    {
        self.inner
    }
}

impl<R: CommandRunner> CommandRunner for LoggedRunner<R> {
    open spec fn keeps_call_log() -> bool {
        true
    }

    open spec fn calls(&self) -> Seq<RunnerCall> {
        self.log@
    }

    fn run(&mut self, entry: &CommandEntry, args: &JsonValue) -> (r: Result<(), String>) {
        let r = self.inner.run(entry, args);
        self.log = Ghost(
            self.log@.push(RunnerCall::Run { command: entry.descriptor.name@, input: *args, answer: result_view(r) }),
        );
        r
    }

    fn check_capability(&mut self, plugin_id: &str, capability: &str) -> (r: Result<(), String>) {
        let r = self.inner.check_capability(plugin_id, capability);
        self.log = Ghost(
            self.log@.push(
                RunnerCall::Capability { plugin_id: plugin_id@, capability: capability@, answer: result_view(r) },
            ),
        );
        r
    }

    fn check_invocation_capability(&mut self, command_name: &str, capability: &str) -> (r: Result<(), String>) {
        let r = self.inner.check_invocation_capability(command_name, capability);
        self.log = Ghost(
            self.log@.push(
                RunnerCall::Invocation { name: command_name@, capability: capability@, answer: result_view(r) },
            ),
        );
        r
    }

    fn check_invocation_context(&mut self, command_name: &str, command_context: &str) -> (r: Result<(), String>) {
        let r = self.inner.check_invocation_context(command_name, command_context);
        self.log = Ghost(
            self.log@.push(
                RunnerCall::Context { name: command_name@, context: command_context@, answer: result_view(r) },
            ),
        );
        r
    }

    fn emit_command_executed(&mut self, name: &str, plugin_id: &str, ok: bool, duration_ms: u128) {
        self.inner.emit_command_executed(name, plugin_id, ok, duration_ms);
        self.log = Ghost(
            self.log@.push(RunnerCall::Executed { name: name@, plugin_id: plugin_id@, ok, duration_ms }),
        );
    }
}

/// A declared capability the host granted.
pub open spec fn cap_granted(plugin_id: Seq<char>, capability: Seq<char>) -> RunnerCall {
    RunnerCall::Capability { plugin_id, capability, answer: Answer::Granted }
}

/// The answer a call carries (an announcement is always `Ok`).
pub open spec fn answer(c: RunnerCall) -> Answer {
    match c {
        RunnerCall::Capability { answer, .. } => answer,
        RunnerCall::Context { answer, .. } => answer,
        RunnerCall::Invocation { answer, .. } => answer,
        RunnerCall::Run { answer, .. } => answer,
        RunnerCall::Executed { .. } => Answer::Granted,
    }
}

/// The answers of a run of calls, in order.
pub open spec fn answers_of(t: Seq<RunnerCall>) -> Seq<Answer> {
    t.map_values(|c: RunnerCall| answer(c))
}

/// A gate call without its answer.
pub enum GateQuestion {
    Capability(Seq<char>, Seq<char>),
    Context(Seq<char>, Seq<char>),
    Invocation(Seq<char>, Seq<char>),
    Other,
}

pub open spec fn question(c: RunnerCall) -> GateQuestion {
    match c {
        RunnerCall::Capability { plugin_id, capability, .. } => GateQuestion::Capability(plugin_id, capability),
        RunnerCall::Context { name, context, .. } => GateQuestion::Context(name, context),
        RunnerCall::Invocation { name, capability, .. } => GateQuestion::Invocation(name, capability),
        _ => GateQuestion::Other,
    }
}

/// How many gates a dispatch of `d` passes before its body: each declared
/// capability, the context, each invocation capability.
pub open spec fn gate_count(d: CommandDescriptor) -> int {
    (d.capabilities@.len() + 1 + d.plugin_invocation_capabilities@.len()) as int
}

/// The `i`-th gate of a dispatch of `d` by `name`.
pub open spec fn gate_question(d: CommandDescriptor, name: Seq<char>, i: int) -> GateQuestion {
    let n = d.capabilities@.len() as int;
    if i < n {
        GateQuestion::Capability(d.plugin_id@, string_views(d.capabilities@)[i])
    } else if i == n {
        GateQuestion::Context(name, d.context@)
    } else {
        GateQuestion::Invocation(name, string_views(d.plugin_invocation_capabilities@)[i - n - 1])
    }
}

/// Index of the first refusal in `s`, or `s.len()` when there is none.
pub open spec fn first_err(s: Seq<Answer>) -> int
    decreases s.len(),
{
    if s.len() == 0 {
        0
    } else if s[0] is Refused {
        0
    } else {
        1 + first_err(s.drop_first())
    }
}

proof fn lemma_first_err_is(s: Seq<Answer>, k: int)
    requires
        0 <= k <= s.len(),
        k < s.len() ==> s[k] is Refused,
        forall|j: int| 0 <= j < k ==> #[trigger] s[j] is Granted,
    ensures
        first_err(s) == k,
    decreases s.len(),
{
    if s.len() > 0 && !(s[0] is Refused) {
        assert(k > 0) by {
            if k == 0 {
                assert(s[0] is Refused);
            }
        }
        let t = s.drop_first();
        assert forall|j: int| 0 <= j < k - 1 implies #[trigger] t[j] is Granted by {
            assert(t[j] == s[j + 1]);
        }
        if k - 1 < t.len() {
            assert(t[k - 1] == s[k]);
        }
        lemma_first_err_is(t, k - 1);
    }
}

/// `out` is the outcome of a dispatch of `d` whose gates answered
/// `answers` (in gate order) and whose body, if it ran, answered `run`:
/// the first refused gate decides (a declared capability, the context,
/// or an invocation capability); with none refused, the body's answer.
pub open spec fn outcome_matches(
    out: InvokeOutcome,
    d: CommandDescriptor,
    answers: Seq<Answer>,
    run: Option<Answer>,
) -> bool {
    let n = d.capabilities@.len() as int;
    let k = first_err(answers);
    if k < answers.len() {
        if k < n {
            out matches InvokeOutcome::CapabilityDenied(c) && c@ == string_views(d.capabilities@)[k]
        } else if k == n {
            out matches InvokeOutcome::ContextDenied(c) && c@ == d.context@
        } else {
            out matches InvokeOutcome::CapabilityDenied(c) && c@ == string_views(
                d.plugin_invocation_capabilities@,
            )[k - n - 1]
        }
    } else {
        match run {
            Some(Answer::Granted) => out is Success,
            Some(Answer::Refused(cause)) => out matches InvokeOutcome::Failed(c) && c@ == cause,
            None => false,
        }
    }
}

/// The outcome of a dispatch of `d` from the answers the host gave: the
/// gate answers in gate order (up to and including the first refusal) and
/// the body's answer when every gate passed.
pub fn dispatch_outcome(
    d: &CommandDescriptor,
    answers: &Vec<Result<(), String>>,
    run: &Option<Result<(), String>>,
) -> (r: InvokeOutcome)
    requires
        answers.len() <= gate_count(*d),
        first_err(result_views(answers@)) == answers.len() ==> answers.len() == gate_count(*d)
            && run is Some,
    ensures
        outcome_matches(
            r,
            *d,
            result_views(answers@),
            match run {
                Some(a) => Some(result_view(*a)),
                None => None,
            },
        ),
{
    let ghost v = result_views(answers@);
    let n = d.capabilities.len();
    let mut k: usize = 0;
    while k < answers.len()
        invariant
            k <= answers.len(),
            answers.len() <= gate_count(*d),
            n == d.capabilities.len(),
            v == result_views(answers@),
            forall|j: int| 0 <= j < k ==> #[trigger] v[j] is Granted,
        decreases answers.len() - k,
    {
        if answers[k].is_err() {
            assert(v[k as int] is Refused);
            proof {
                lemma_first_err_is(v, k as int);
            }
            if k < n {
                assert(string_views(d.capabilities@)[k as int] == d.capabilities@[k as int]@);
                return InvokeOutcome::CapabilityDenied(d.capabilities[k].clone());
            } else if k == n {
                return InvokeOutcome::ContextDenied(d.context.clone());
            } else {
                assert(string_views(d.plugin_invocation_capabilities@)[k - n - 1]
                    == d.plugin_invocation_capabilities@[k - n - 1]@);
                return InvokeOutcome::CapabilityDenied(d.plugin_invocation_capabilities[k - n - 1].clone());
            }
        }
        assert(v[k as int] is Granted);
        k += 1;
    }
    proof {
        lemma_first_err_is(v, answers.len() as int);
    }
    match run {
        Some(Ok(())) => InvokeOutcome::Success,
        Some(Err(cause)) => InvokeOutcome::Failed(cause.clone()),
        None => InvokeOutcome::NotFound,
    }
}

/// The calls a dispatch of `d` by `name` with `args` made on its runner
/// (`t`, in order) and its result `r`: none when the arguments are
/// rejected; otherwise each gate in order, stopping at the first refusal,
/// and when every gate passed, the body run once with the merged
/// arguments and then one announcement of how it went.
pub open spec fn runner_trace(
    d: CommandDescriptor,
    name: Seq<char>,
    args: JsonValue,
    t: Seq<RunnerCall>,
    r: (InvokeOutcome, u128),
) -> bool {
    let g = gate_count(d);
    match validate_args_spec(arg_views(d.args@), args) {
        Err(_) => t.len() == 0,
        Ok(m) => {
            &&& forall|i: int| 0 <= i < t.len() && i < g ==> #[trigger] question(t[i]) == gate_question(d, name, i)
            &&& if t.len() <= g {
                &&& first_err(answers_of(t)) == t.len() - 1
                &&& outcome_matches(r.0, d, answers_of(t), None)
            } else {
                let gates = answers_of(t.take(g));
                &&& t.len() == g + 2
                &&& first_err(gates) == g
                &&& t[g] matches RunnerCall::Run { command, input, .. } && command == d.name@
                    && input is Object && entries_match(entry_views(input->Object_0@), m)
                &&& t[g + 1] == (RunnerCall::Executed {
                    name,
                    plugin_id: d.plugin_id@,
                    ok: answer(t[g]) is Granted,
                    duration_ms: r.1,
                })
                &&& outcome_matches(r.0, d, gates, Some(answer(t[g])))
            }
        },
    }
}

/// The runner's log grew from `before` to `after` by the calls of one
/// dispatch (see [`runner_trace`]).
pub open spec fn ran_gates(
    before: Seq<RunnerCall>,
    after: Seq<RunnerCall>,
    d: CommandDescriptor,
    name: Seq<char>,
    args: JsonValue,
    r: (InvokeOutcome, u128),
) -> bool {
    &&& before.len() <= after.len()
    &&& after.subrange(0, before.len() as int) == before
    &&& runner_trace(d, name, args, after.subrange(before.len() as int, after.len() as int), r)
}

/// A diagnostic about command `name` for plugin generation
/// `generation_id`.
pub open spec fn diag_gen(
    plugin_id: Seq<char>,
    severity: DiagnosticSeverity,
    code: Seq<char>,
    message: Seq<char>,
    generation_id: Option<u64>,
    name: Seq<char>,
    context: Option<JsonV>,
) -> DiagnosticView {
    DiagnosticView { plugin_id, severity, code, message, generation_id, source: Some(command_source_spec(name)), context }
}

pub open spec fn rejected_message(name: Seq<char>, errors: Seq<Seq<char>>) -> Seq<char> {
    "command `"@ + name + "` rejected: "@ + join(errors, "; "@)
}

pub open spec fn capability_denied_message(name: Seq<char>, cap: Seq<char>, reason: Seq<char>) -> Seq<char> {
    "command `"@ + name + "` denied: capability `"@ + cap + "` not granted ("@ + reason + ")"@
}

pub open spec fn context_denied_message(name: Seq<char>, context: Seq<char>, reason: Seq<char>) -> Seq<char> {
    "command `"@ + name + "` denied in context `"@ + context + "`: "@ + reason
}

pub open spec fn caller_denied_message(name: Seq<char>, cap: Seq<char>, reason: Seq<char>) -> Seq<char> {
    "command `"@ + name + "` denied: caller lacks `"@ + cap + "` ("@ + reason + ")"@
}

pub open spec fn invoked_message(name: Seq<char>) -> Seq<char> {
    "command `"@ + name + "` invoked"@
}

pub open spec fn completed_message(name: Seq<char>) -> Seq<char> {
    "command `"@ + name + "` completed"@
}

pub open spec fn failed_message(name: Seq<char>, cause: Seq<char>) -> Seq<char> {
    "command `"@ + name + "` failed: "@ + cause
}

/// `last_outcome` after a run with result `result`.
pub open spec fn outcome_text(result: Result<(), String>) -> Seq<char> {
    match result {
        Ok(_) => "ok"@,
        Err(cause) => "failed: "@ + cause@,
    }
}

/// Update a command's counters after its body ran.
pub fn record_run(runtime: &mut CommandRuntime, result: &Result<(), String>, now_unix_ms: u128, duration_ms: u128)
    requires
        old(runtime).fires < u64::MAX,
        old(runtime).failures < u64::MAX,
    ensures
        final(runtime).fires == old(runtime).fires + 1,
        final(runtime).failures == old(runtime).failures + (if result is Err { 1int } else { 0int }),
        opt_str_view(final(runtime).last_outcome) == Some(outcome_text(*result)),
        final(runtime).last_invoked_at_unix_ms == now_unix_ms,
        final(runtime).last_duration_ms == duration_ms,
{
    runtime.fires = runtime.fires + 1;
    match result {
        Ok(()) => {
            runtime.last_outcome = Some(str_to_string("ok"));
        },
        Err(cause) => {
            runtime.failures = runtime.failures + 1;
            runtime.last_outcome = Some(str_concat("failed: ", cause.as_str()));
        },
    }
    runtime.last_invoked_at_unix_ms = now_unix_ms;
    runtime.last_duration_ms = duration_ms;
}

fn tag_generation(d: PluginDiagnostic, generation_id: Option<u64>) -> (r: PluginDiagnostic)
    requires
        d@.generation_id is None,
    ensures
        r@ == (DiagnosticView { generation_id, ..d@ }),
{
    match generation_id {
        Some(g) => d.with_generation(g),
        None => d,
    }
}

fn cat7(a: &str, b: &str, c: &str, d: &str, e: &str, f: &str, g: &str) -> (r: String)
    ensures
        r@ == a@ + b@ + c@ + d@ + e@ + f@ + g@,
{
    let mut r = cat5(a, b, c, d, e);
    r.append(f);
    r.append(g);
    r
}

/// What a dispatch of entry `before` by `name` with `args` leaves: the
/// entry `after`, the diagnostics `log` after `old_log`, the outcome and
/// duration `r`.
pub open spec fn dispatched(
    before: CommandEntry,
    after: CommandEntry,
    name: Seq<char>,
    args: JsonValue,
    old_log: Seq<DiagnosticView>,
    log: Seq<DiagnosticView>,
    r: (InvokeOutcome, u128),
) -> bool {
    let d = before.descriptor;
    &&& after.descriptor == d
    &&& match validate_args_spec(arg_views(d.args@), args) {
        Err(es) => {
            &&& r.0 matches InvokeOutcome::InvalidArgs(errs) && string_views(errs@) == es
            &&& r.1 == 0
            &&& after.runtime == before.runtime
            &&& log == old_log.push(
                diag_gen(
                    d.plugin_id@,
                    DiagnosticSeverity::Warning,
                    "command.invalid_args"@,
                    rejected_message(name, es),
                    None,
                    name,
                    Some(rejected_context(name, es, d.plugin_id@)),
                ),
            )
        },
        Ok(m) => match r.0 {
            InvokeOutcome::CapabilityDenied(c) => {
                &&& r.1 == 0
                &&& after.runtime == before.runtime
                &&& log.len() == old_log.len() + 1
                &&& log.subrange(0, old_log.len() as int) == old_log
                &&& log.last().code == "command.capability_denied"@
                &&& log.last().severity == DiagnosticSeverity::Error
                &&& log.last().plugin_id == d.plugin_id@
                &&& ((string_views(d.capabilities@).contains(c@) && exists|reason: Seq<char>|
                    log.last() == diag_gen(
                        d.plugin_id@,
                        DiagnosticSeverity::Error,
                        "command.capability_denied"@,
                        capability_denied_message(name, c@, reason),
                        d.generation_id, name, Some(capability_context(name, c@, d.plugin_id@, d.context@)))) || (string_views(d.plugin_invocation_capabilities@).contains(c@) && exists|reason: Seq<char>|
                    log.last() == diag_gen(
                        d.plugin_id@,
                        DiagnosticSeverity::Error,
                        "command.capability_denied"@,
                        caller_denied_message(name, c@, reason),
                        None, name, Some(caller_context(name, c@, d.plugin_id@, d.context@)))))
            },
            InvokeOutcome::ContextDenied(c) => {
                &&& c@ == d.context@
                &&& r.1 == 0
                &&& after.runtime == before.runtime
                &&& log.len() == old_log.len() + 1
                &&& log.subrange(0, old_log.len() as int) == old_log
                &&& exists|reason: Seq<char>|
                    log.last() == diag_gen(
                        d.plugin_id@,
                        DiagnosticSeverity::Error,
                        "command.context_denied"@,
                        context_denied_message(name, d.context@, reason),
                        None, name, Some(context_refusal_context(name, d.plugin_id@, d.context@, reason)))
            },
            InvokeOutcome::Success => {
                &&& after.runtime.fires == before.runtime.fires + 1
                &&& after.runtime.failures == before.runtime.failures
                &&& opt_str_view(after.runtime.last_outcome) == Some("ok"@)
                &&& after.runtime.last_duration_ms == r.1
                &&& log == old_log.push(
                    diag_gen(d.plugin_id@, DiagnosticSeverity::Info, "command.invoked"@, invoked_message(name), d.generation_id, name,
                        Some(invoked_context(name, d.plugin_id@, d.context@, JsonV::Object(entries_json(m))))),
                ).push(
                    diag_gen(d.plugin_id@, DiagnosticSeverity::Info, "command.completed"@, completed_message(name), d.generation_id, name,
                        Some(completed_context(name, d.plugin_id@, d.context@, JsonV::Object(entries_json(m)), r.1))),
                )
            },
            InvokeOutcome::Failed(cause) => {
                &&& after.runtime.fires == before.runtime.fires + 1
                &&& after.runtime.failures == before.runtime.failures + 1
                &&& opt_str_view(after.runtime.last_outcome) == Some("failed: "@ + cause@)
                &&& after.runtime.last_duration_ms == r.1
                &&& log == old_log.push(
                    diag_gen(d.plugin_id@, DiagnosticSeverity::Info, "command.invoked"@, invoked_message(name), d.generation_id, name,
                        Some(invoked_context(name, d.plugin_id@, d.context@, JsonV::Object(entries_json(m))))),
                ).push(
                    diag_gen(d.plugin_id@, DiagnosticSeverity::Error, "command.failed"@, failed_message(name, cause@), d.generation_id, name,
                        Some(failed_context(name, d.plugin_id@, d.context@, JsonV::Object(entries_json(m)), r.1, cause@))),
                )
            },
            _ => false,
        },
    }
}

/// Dispatch one command: validate the arguments, check each declared
/// capability, the invocation context and each capability the caller
/// needs, then run the body and update the counters. Every failed gate
/// stops the dispatch before the body with its diagnostic; a run records
/// `command.invoked`, then `command.completed` or `command.failed`, and
/// is announced through the runner. Returns the outcome and the time the
/// body took (0 when it did not run).
pub fn invoke_entry<R: CommandRunner>(
    entry: &mut CommandEntry,
    name: &str,
    args: &JsonValue,
    runner: &mut R,
    diagnostics: &mut DiagnosticStore,
) -> (r: (InvokeOutcome, u128))
    requires
        old(entry).runtime.fires < u64::MAX,
        old(entry).runtime.failures < u64::MAX,
    ensures
        dispatched(
            *old(entry),
            *final(entry),
            name@,
            *args,
            old(diagnostics).log(),
            final(diagnostics).log(),
            r,
        ),
        R::keeps_call_log() ==> ran_gates(old(runner).calls(), final(runner).calls(), old(entry).descriptor, name@, *args, r),
{
    let started = instant_now();
    let ghost d = entry.descriptor;
    let ghost c0 = runner.calls();
    let ghost caps = string_views(d.capabilities@);
    let ghost invs = string_views(d.plugin_invocation_capabilities@);
    let merged = match CommandRegistry::validate_args(&entry.descriptor, args) {
        Ok(v) => v,
        Err(errors) => {
            let joined = join_strings(&errors, "; ");
            let msg = cat3("command `", name, "` rejected: ");
            let mut msg = msg;
            msg.append(joined.as_str());
            diagnostics.record(
                PluginDiagnostic::new(
                    entry.descriptor.plugin_id.clone(),
                    DiagnosticSeverity::Warning,
                    "command.invalid_args",
                    msg,
                ).with_source(command_source(name)).with_context(
                    rejected_context_json(name, &errors, entry.descriptor.plugin_id.as_str()),
                ),
            );
            proof {
                if R::keeps_call_log() {
                    assert(runner.calls().subrange(0, c0.len() as int) =~= c0);
                    assert(runner.calls().subrange(c0.len() as int, runner.calls().len() as int) =~= Seq::<RunnerCall>::empty());
                }
            }
            return (InvokeOutcome::InvalidArgs(errors), 0);
        },
    };
    proof {
        lemma_entries_json(merged->Object_0@, validate_args_spec(arg_views(d.args@), *args)->Ok_0);
    }
    let mut answers: Vec<Result<(), String>> = Vec::new();
    let n = entry.descriptor.capabilities.len();
    let mut i: usize = 0;
    while i < n
        invariant
            i <= n == d.capabilities@.len(),
            entry.descriptor == d,
            *entry == *old(entry),
            diagnostics.log() == old(diagnostics).log(),
            validate_args_spec(arg_views(d.args@), *args) is Ok,
            caps == string_views(d.capabilities@),
            answers.len() == i,
            forall|j: int| 0 <= j < i ==> #[trigger] answers@[j] is Ok,
            R::keeps_call_log() ==> runner.calls().len() == c0.len() + i,
            R::keeps_call_log() ==> runner.calls().subrange(0, c0.len() as int) == c0,
            c0 == old(runner).calls(),
            R::keeps_call_log() ==> forall|j: int|
                0 <= j < i ==> #[trigger] runner.calls()[c0.len() + j] == cap_granted(d.plugin_id@, caps[j]),
        decreases n - i,
    {
        let cap = entry.descriptor.capabilities[i].as_str();
        let ghost before = runner.calls();
        let reply = runner.check_capability(entry.descriptor.plugin_id.as_str(), cap);
        assert(caps[i as int] == cap@);
        proof {
            if R::keeps_call_log() {
                assert(runner.calls().subrange(0, c0.len() as int) =~= before.subrange(0, c0.len() as int));
            }
        }
        match reply {
            Ok(()) => {
                answers.push(Ok(()));
                proof {
                    if R::keeps_call_log() {
                        assert forall|j: int| 0 <= j < i + 1 implies #[trigger] runner.calls()[c0.len() + j]
                            == cap_granted(d.plugin_id@, caps[j]) by {
                            if j < i {
                                assert(runner.calls()[c0.len() + j] == before[c0.len() + j]);
                            }
                        }
                    }
                }
            },
            Err(reason) => {
                answers.push(Err(reason.clone()));
                let ghost t = runner.calls().subrange(c0.len() as int, runner.calls().len() as int);
                proof {
                    let rv = result_views(answers@);
                    assert forall|j: int| 0 <= j < i implies #[trigger] rv[j] is Granted by {
                        assert(answers@[j] is Ok);
                    }
                    assert(rv[i as int] is Refused);
                    lemma_first_err_is(rv, i as int);
                }
                proof { if R::keeps_call_log() {
                    assert forall|j: int| 0 <= j < i implies #[trigger] runner.calls()[c0.len() + j] == cap_granted(
                        d.plugin_id@,
                        caps[j],
                    ) by {
                        assert(runner.calls()[c0.len() + j] == before[c0.len() + j]);
                    }
                    let av = answers_of(t);
                    assert forall|j: int| 0 <= j < i implies #[trigger] av[j] is Granted by {
                        assert(t[j] == runner.calls()[c0.len() + j]);
                        assert(runner.calls()[c0.len() + j] == cap_granted(d.plugin_id@, caps[j]));
                    }
                    assert(av[i as int] is Refused);
                    lemma_first_err_is(av, i as int);
                    assert(av =~= result_views(answers@)) by {
                        assert forall|j: int| 0 <= j < av.len() implies av[j] == result_views(answers@)[j] by {
                            assert(t[j] == runner.calls()[c0.len() + j]);
                            if j < i {
                                assert(runner.calls()[c0.len() + j] == cap_granted(d.plugin_id@, caps[j]));
                                assert(answers@[j] is Ok);
                            }
                        }
                    }
                    assert forall|j: int| 0 <= j < t.len() && j < gate_count(d) implies #[trigger] question(t[j])
                        == gate_question(d, name@, j) by {
                        assert(t[j] == runner.calls()[c0.len() + j]);
                        if j < i {
                            assert(runner.calls()[c0.len() + j] == cap_granted(d.plugin_id@, caps[j]));
                        }
                    }
                } }
                let outcome = dispatch_outcome(&entry.descriptor, &answers, &None);
                let msg = cat7(
                    "command `",
                    name,
                    "` denied: capability `",
                    cap,
                    "` not granted (",
                    reason.as_str(),
                    ")",
                );
                let dg = tag_generation(
                    PluginDiagnostic::new(
                        entry.descriptor.plugin_id.clone(),
                        DiagnosticSeverity::Error,
                        "command.capability_denied",
                        msg,
                    ).with_source(command_source(name)).with_context(
                        capability_context_json(
                            name,
                            cap,
                            entry.descriptor.plugin_id.as_str(),
                            entry.descriptor.context.as_str(),
                        ),
                    ),
                    entry.descriptor.generation_id,
                );
                diagnostics.record(dg);
                assert(caps.contains(cap@));
                assert(diagnostics.log().subrange(0, old(diagnostics).log().len() as int) =~= old(diagnostics).log());
                assert(diagnostics.log().last() == diag_gen(
                    d.plugin_id@,
                    DiagnosticSeverity::Error,
                    "command.capability_denied"@,
                    capability_denied_message(name@, cap@, reason@),
                    d.generation_id, name@, Some(capability_context(name@, cap@, d.plugin_id@, d.context@))));
                proof {
                    if R::keeps_call_log() {
                        assert(runner.calls().subrange(0, c0.len() as int) =~= c0);
                    }
                }
                return (outcome, 0);
            },
        }
        i += 1;
    }
    let ghost before_ctx = runner.calls();
    let ctx_answer = runner.check_invocation_context(name, entry.descriptor.context.as_str());
    proof {
        if R::keeps_call_log() {
            assert(runner.calls().subrange(0, c0.len() as int) =~= before_ctx.subrange(0, c0.len() as int));
            assert forall|k: int| 0 <= k < n implies #[trigger] runner.calls()[c0.len() + k] == cap_granted(
                d.plugin_id@,
                caps[k],
            ) by {
                assert(runner.calls()[c0.len() + k] == before_ctx[c0.len() + k]);
            }
            assert(runner.calls()[c0.len() + n] == (RunnerCall::Context {
                name: name@,
                context: d.context@,
                answer: result_view(ctx_answer),
            }));
        }
    }
    match ctx_answer {
        Ok(()) => {
            answers.push(Ok(()));
            proof {
                if R::keeps_call_log() {
                    assert forall|k: int|
                        #![trigger runner.calls()[c0.len() + k]]
                        0 <= k < n + 1 implies question(runner.calls()[c0.len() + k]) == gate_question(d, name@, k)
                            && answer(runner.calls()[c0.len() + k]) is Granted by {
                        if k < n {
                            assert(runner.calls()[c0.len() + k] == cap_granted(d.plugin_id@, caps[k]));
                        }
                    }
                }
            }
            assert forall|k: int| 0 <= k < n + 1 implies #[trigger] answers@[k] is Ok by {
                if k < n {
                    assert(answers@[k] is Ok);
                }
            }
        },
        Err(reason) => {
            answers.push(Err(reason.clone()));
            let ghost t = runner.calls().subrange(c0.len() as int, runner.calls().len() as int);
            proof {
                let rv = result_views(answers@);
                assert forall|j: int| 0 <= j < n implies #[trigger] rv[j] is Granted by {
                    assert(answers@[j] is Ok);
                }
                assert(rv[n as int] is Refused);
                lemma_first_err_is(rv, n as int);
            }
            proof { if R::keeps_call_log() {
                let av = answers_of(t);
                assert forall|j: int| 0 <= j < n implies #[trigger] av[j] is Granted by {
                    assert(t[j] == runner.calls()[c0.len() + j]);
                    assert(runner.calls()[c0.len() + j] == cap_granted(d.plugin_id@, caps[j]));
                }
                assert(av[n as int] is Refused);
                lemma_first_err_is(av, n as int);
                assert(av =~= result_views(answers@)) by {
                    assert forall|j: int| 0 <= j < av.len() implies av[j] == result_views(answers@)[j] by {
                        if j < n {
                            assert(t[j] == runner.calls()[c0.len() + j]);
                            assert(runner.calls()[c0.len() + j] == cap_granted(d.plugin_id@, caps[j]));
                            assert(answers@[j] is Ok);
                        }
                    }
                }
                assert forall|j: int| 0 <= j < t.len() && j < gate_count(d) implies #[trigger] question(t[j])
                    == gate_question(d, name@, j) by {
                    assert(t[j] == runner.calls()[c0.len() + j]);
                    if j < n {
                        assert(runner.calls()[c0.len() + j] == cap_granted(d.plugin_id@, caps[j]));
                    }
                }
            } }
            let outcome = dispatch_outcome(&entry.descriptor, &answers, &None);
            let msg = cat5("command `", name, "` denied in context `", entry.descriptor.context.as_str(), "`: ");
            let mut msg = msg;
            msg.append(reason.as_str());
            diagnostics.record(
                PluginDiagnostic::new(
                    entry.descriptor.plugin_id.clone(),
                    DiagnosticSeverity::Error,
                    "command.context_denied",
                    msg,
                ).with_source(command_source(name)).with_context(
                    context_refusal_json(
                        name,
                        entry.descriptor.plugin_id.as_str(),
                        entry.descriptor.context.as_str(),
                        reason.as_str(),
                    ),
                ),
            );
            assert(diagnostics.log().subrange(0, old(diagnostics).log().len() as int) =~= old(diagnostics).log());
            assert(diagnostics.log().last() == diag_gen(
                d.plugin_id@,
                DiagnosticSeverity::Error,
                "command.context_denied"@,
                context_denied_message(name@, d.context@, reason@),
                None, name@, Some(context_refusal_context(name@, d.plugin_id@, d.context@, reason@))));
            proof {
                if R::keeps_call_log() {
                    assert(runner.calls().subrange(0, c0.len() as int) =~= c0);
                }
            }
            return (outcome, 0);
        },
    }
    let m = entry.descriptor.plugin_invocation_capabilities.len();
    let mut j: usize = 0;
    while j < m
        invariant
            i == n == d.capabilities@.len(),
            j <= m == d.plugin_invocation_capabilities@.len(),
            entry.descriptor == d,
            *entry == *old(entry),
            diagnostics.log() == old(diagnostics).log(),
            validate_args_spec(arg_views(d.args@), *args) is Ok,
            caps == string_views(d.capabilities@),
            invs == string_views(d.plugin_invocation_capabilities@),
            answers.len() == n + 1 + j,
            forall|k: int| 0 <= k < n + 1 + j ==> #[trigger] answers@[k] is Ok,
            R::keeps_call_log() ==> runner.calls().len() == c0.len() + n + 1 + j,
            R::keeps_call_log() ==> runner.calls().subrange(0, c0.len() as int) == c0,
            c0 == old(runner).calls(),
            R::keeps_call_log() ==> forall|k: int|
                #![trigger runner.calls()[c0.len() + k]]
                0 <= k < n + 1 + j ==> question(runner.calls()[c0.len() + k]) == gate_question(d, name@, k)
                    && answer(runner.calls()[c0.len() + k]) is Granted,
        decreases m - j,
    {
        let cap = entry.descriptor.plugin_invocation_capabilities[j].as_str();
        let ghost before = runner.calls();
        let reply = runner.check_invocation_capability(name, cap);
        assert(invs[j as int] == cap@);
        proof {
            if R::keeps_call_log() {
                assert(runner.calls().subrange(0, c0.len() as int) =~= before.subrange(0, c0.len() as int));
                assert forall|k: int| 0 <= k < n + 1 + j implies #[trigger] runner.calls()[c0.len() + k] == before[c0.len() + k] by {}
            }
        }
        match reply {
            Ok(()) => {
                answers.push(Ok(()));
            },
            Err(reason) => {
                answers.push(Err(reason.clone()));
                let ghost t = runner.calls().subrange(c0.len() as int, runner.calls().len() as int);
                let ghost jj = n + 1 + j;
                proof {
                    let rv = result_views(answers@);
                    assert forall|k: int| 0 <= k < jj implies #[trigger] rv[k] is Granted by {
                        assert(answers@[k] is Ok);
                    }
                    assert(rv[jj as int] is Refused);
                    lemma_first_err_is(rv, jj as int);
                }
                proof { if R::keeps_call_log() {
                    let av = answers_of(t);
                    assert forall|k: int| 0 <= k < jj implies #[trigger] av[k] is Granted by {
                        assert(t[k] == runner.calls()[c0.len() + k]);
                        assert(runner.calls()[c0.len() + k] == before[c0.len() + k]);
                        assert(answer(before[c0.len() + k]) is Granted);
                    }
                    assert(av[jj as int] is Refused);
                    lemma_first_err_is(av, jj as int);
                    assert(av =~= result_views(answers@)) by {
                        assert forall|k: int| 0 <= k < av.len() implies av[k] == result_views(answers@)[k] by {
                            assert(t[k] == runner.calls()[c0.len() + k]);
                            assert(result_views(answers@)[k] == result_view(answers@[k]));
                            if k < jj {
                                assert(runner.calls()[c0.len() + k] == before[c0.len() + k]);
                                assert(answer(before[c0.len() + k]) is Granted);
                                assert(answers@[k] is Ok);
                            }
                        }
                    }
                    assert forall|k: int| 0 <= k < t.len() && k < gate_count(d) implies #[trigger] question(t[k])
                        == gate_question(d, name@, k) by {
                        assert(t[k] == runner.calls()[c0.len() + k]);
                        if k < jj {
                            assert(runner.calls()[c0.len() + k] == before[c0.len() + k]);
                            assert(question(before[c0.len() + k]) == gate_question(d, name@, k));
                        }
                    }
                } }
                let outcome = dispatch_outcome(&entry.descriptor, &answers, &None);
                let msg = cat7("command `", name, "` denied: caller lacks `", cap, "` (", reason.as_str(), ")");
                diagnostics.record(
                    PluginDiagnostic::new(
                        entry.descriptor.plugin_id.clone(),
                        DiagnosticSeverity::Error,
                        "command.capability_denied",
                        msg,
                    ).with_source(command_source(name)).with_context(
                        caller_context_json(
                            name,
                            cap,
                            entry.descriptor.plugin_id.as_str(),
                            entry.descriptor.context.as_str(),
                        ),
                    ),
                );
                assert(invs.contains(cap@));
                assert(diagnostics.log().subrange(0, old(diagnostics).log().len() as int) =~= old(diagnostics).log());
                assert(diagnostics.log().last() == diag_gen(
                    d.plugin_id@,
                    DiagnosticSeverity::Error,
                    "command.capability_denied"@,
                    caller_denied_message(name@, cap@, reason@),
                    None, name@, Some(caller_context(name@, cap@, d.plugin_id@, d.context@))));
                proof {
                    if R::keeps_call_log() {
                        assert(runner.calls().subrange(0, c0.len() as int) =~= c0);
                    }
                }
                return (outcome, 0);
            },
        }
        j += 1;
    }
    diagnostics.record(
        tag_generation(
            PluginDiagnostic::new(
                entry.descriptor.plugin_id.clone(),
                DiagnosticSeverity::Info,
                "command.invoked",
                cat3("command `", name, "` invoked"),
            ).with_source(command_source(name)).with_context(
                JsonValue::Object(
                    run_fields_json(name, entry.descriptor.plugin_id.as_str(), entry.descriptor.context.as_str(), &merged),
                ),
            ),
            entry.descriptor.generation_id,
        ),
    );
    let ghost before_run = runner.calls();
    let result = runner.run(&*entry, &merged);
    let duration_ms = elapsed_millis(&started);
    let now_unix_ms = unix_now_millis();
    record_run(&mut entry.runtime, &result, now_unix_ms, duration_ms);
    let run_answer = Some(result);
    let ghost g = gate_count(d);
    proof {
        let av = result_views(answers@);
        assert forall|k: int| 0 <= k < g implies #[trigger] av[k] is Granted by {
            assert(answers@[k] is Ok);
        }
        lemma_first_err_is(av, g);
    }
    let outcome = dispatch_outcome(&entry.descriptor, &answers, &run_answer);
    let plugin_id = entry.descriptor.plugin_id.clone();
    let mut detail = run_fields_json(name, plugin_id.as_str(), entry.descriptor.context.as_str(), &merged);
    put_field(&mut detail, "duration_ms", JsonValue::Integer(duration_ms as i128));
    match &outcome {
        InvokeOutcome::Success => {
            diagnostics.record(
                tag_generation(
                    PluginDiagnostic::new(
                        plugin_id.clone(),
                        DiagnosticSeverity::Info,
                        "command.completed",
                        cat3("command `", name, "` completed"),
                    ).with_source(command_source(name)).with_context(JsonValue::Object(detail)),
                    entry.descriptor.generation_id,
                ),
            );
        },
        InvokeOutcome::Failed(cause) => {
            let msg = cat3("command `", name, "` failed: ");
            let mut msg = msg;
            msg.append(cause.as_str());
            put_field(&mut detail, "cause", str_json(cause.as_str()));
            diagnostics.record(
                tag_generation(
                    PluginDiagnostic::new(plugin_id.clone(), DiagnosticSeverity::Error, "command.failed", msg).with_source(
                        command_source(name),
                    ).with_context(JsonValue::Object(detail)),
                    entry.descriptor.generation_id,
                ),
            );
        },
        _ => {},
    }
    let ok = outcome.is_ok();
    runner.emit_command_executed(name, plugin_id.as_str(), ok, duration_ms);
    proof { if R::keeps_call_log() {
        let calls = runner.calls();
        let t = calls.subrange(c0.len() as int, calls.len() as int);
        assert(calls.subrange(0, c0.len() as int) =~= c0);
        assert(t.len() == g + 2);
        assert forall|k: int| 0 <= k < g implies #[trigger] t[k] == before_run[c0.len() + k] by {}
        let gates = answers_of(t.take(g));
        assert(gates =~= result_views(answers@)) by {
            assert forall|k: int| 0 <= k < g implies gates[k] == result_views(answers@)[k] by {
                assert(t.take(g)[k] == t[k]);
                assert(t[k] == calls[c0.len() + k]);
                assert(calls[c0.len() + k] == before_run[c0.len() + k]);
                assert(answer(before_run[c0.len() + k]) is Granted);
                assert(answers@[k] is Ok);
                assert(result_views(answers@)[k] == result_view(answers@[k]));
                assert(gates[k] == answer(t.take(g)[k]));
                assert(answer(t[k]) == Answer::Granted);
                assert(result_view(answers@[k]) == Answer::Granted);
            }
        }
        assert forall|k: int| 0 <= k < t.len() && k < g implies #[trigger] question(t[k]) == gate_question(d, name@, k) by {
            assert(t[k] == calls[c0.len() + k]);
            assert(calls[c0.len() + k] == before_run[c0.len() + k]);
            assert(question(before_run[c0.len() + k]) == gate_question(d, name@, k));
        }
    } }
    (outcome, duration_ms)
}

// ---------------------------------------------------------------------
// Summaries

/// Projection of one schema argument for listings.
#[derive(Debug)]
pub struct CommandArgSummary {
    pub name: String,
    pub ty: String,
    pub required: bool,
    pub default: Option<JsonValue>,
    pub doc: String,
}

pub struct ArgSummaryView {
    pub name: Seq<char>,
    pub ty: Seq<char>,
    pub required: bool,
    pub default: Option<JsonV>,
    pub doc: Seq<char>,
}


impl View for CommandArgSummary {
    type V = ArgSummaryView;

    open spec fn view(&self) -> ArgSummaryView {
        ArgSummaryView {
            name: self.name@,
            ty: self.ty@,
            required: self.required,
            default: opt_json_view(self.default),
            doc: self.doc@,
        }
    }
}

pub open spec fn arg_summary_views(s: Seq<CommandArgSummary>) -> Seq<ArgSummaryView> {
    s.map_values(|a: CommandArgSummary| a@)
}

/// Projection of one command for the palette, listings and devtools.
#[derive(Debug)]
pub struct CommandSummary {
    pub name: String,
    pub title: String,
    pub description: String,
    pub plugin_id: String,
    pub generation_id: Option<u64>,
    pub context: String,
    pub destructive: bool,
    pub capabilities: Vec<String>,
    pub plugin_invocation_capabilities: Vec<String>,
    pub enabled: bool,
    pub disabled_reason: Option<String>,
    pub keymap_eligible: bool,
    pub palette_visible: bool,
    pub hooks: CommandHooks,
    pub args: Vec<CommandArgSummary>,
    pub fires: u64,
    pub failures: u64,
    pub last_outcome: Option<String>,
    pub last_duration_ms: u128,
}

pub struct SummaryView {
    pub name: Seq<char>,
    pub title: Seq<char>,
    pub description: Seq<char>,
    pub plugin_id: Seq<char>,
    pub generation_id: Option<u64>,
    pub context: Seq<char>,
    pub destructive: bool,
    pub capabilities: Seq<Seq<char>>,
    pub plugin_invocation_capabilities: Seq<Seq<char>>,
    pub enabled: bool,
    pub disabled_reason: Option<Seq<char>>,
    pub keymap_eligible: bool,
    pub palette_visible: bool,
    pub hooks: CommandHooks,
    pub args: Seq<ArgSummaryView>,
    pub fires: u64,
    pub failures: u64,
    pub last_outcome: Option<Seq<char>>,
    pub last_duration_ms: u128,
}

impl View for CommandSummary {
    type V = SummaryView;

    open spec fn view(&self) -> SummaryView {
        SummaryView {
            name: self.name@,
            title: self.title@,
            description: self.description@,
            plugin_id: self.plugin_id@,
            generation_id: self.generation_id,
            context: self.context@,
            destructive: self.destructive,
            capabilities: string_views(self.capabilities@),
            plugin_invocation_capabilities: string_views(self.plugin_invocation_capabilities@),
            enabled: self.enabled,
            disabled_reason: opt_str_view(self.disabled_reason),
            keymap_eligible: self.keymap_eligible,
            palette_visible: self.palette_visible,
            hooks: self.hooks,
            args: arg_summary_views(self.args@),
            fires: self.fires,
            failures: self.failures,
            last_outcome: opt_str_view(self.last_outcome),
            last_duration_ms: self.last_duration_ms,
        }
    }
}

pub open spec fn summary_views(s: Seq<CommandSummary>) -> Seq<SummaryView> {
    s.map_values(|x: CommandSummary| x@)
}

pub open spec fn arg_summary_of(a: CommandArg) -> ArgSummaryView {
    ArgSummaryView {
        name: a.name@,
        ty: arg_type_descriptor(a.ty@),
        required: a.required,
        default: opt_json_view(a.default),
        doc: a.doc@,
    }
}

/// The summary of a registry entry.
pub open spec fn summary_of(e: CommandEntry) -> SummaryView {
    SummaryView {
        name: e.descriptor.name@,
        title: e.descriptor.title@,
        description: e.descriptor.description@,
        plugin_id: e.descriptor.plugin_id@,
        generation_id: e.descriptor.generation_id,
        context: e.descriptor.context@,
        destructive: e.descriptor.destructive,
        capabilities: string_views(e.descriptor.capabilities@),
        plugin_invocation_capabilities: string_views(e.descriptor.plugin_invocation_capabilities@),
        enabled: e.descriptor.availability.enabled,
        disabled_reason: opt_str_view(e.descriptor.availability.reason),
        keymap_eligible: e.descriptor.keymap_eligible,
        palette_visible: e.descriptor.palette_visible,
        hooks: e.descriptor.hooks,
        args: e.descriptor.args@.map_values(|a: CommandArg| arg_summary_of(a)),
        fires: e.runtime.fires,
        failures: e.runtime.failures,
        last_outcome: opt_str_view(e.runtime.last_outcome),
        last_duration_ms: e.runtime.last_duration_ms,
    }
}

impl CommandArgSummary {
    pub fn duplicate(&self) -> (r: Self)
        ensures
            r@ == self@,
            opt_json_copy(r.default, self.default),
    {
        CommandArgSummary {
            name: self.name.clone(),
            ty: self.ty.clone(),
            required: self.required,
            default: copy_opt_json(&self.default),
            doc: self.doc.clone(),
        }
    }
}

fn arg_summary(a: &CommandArg) -> (r: CommandArgSummary)
    ensures
        r@ == arg_summary_of(*a),
        opt_json_copy(r.default, a.default),
{
    CommandArgSummary {
        name: a.name.clone(),
        ty: a.ty.as_descriptor(),
        required: a.required,
        default: copy_opt_json(&a.default),
        doc: a.doc.clone(),
    }
}

impl CommandSummary {
    pub fn duplicate(&self) -> (r: Self)
        ensures
            r@ == self@,
    {
        let mut args: Vec<CommandArgSummary> = Vec::new();
        let mut i: usize = 0;
        while i < self.args.len()
            invariant
                i <= self.args.len(),
                arg_summary_views(args@) == arg_summary_views(self.args@.subrange(0, i as int)),
            decreases self.args.len() - i,
        {
            args.push(self.args[i].duplicate());
            assert(arg_summary_views(self.args@.subrange(0, i + 1)) =~= arg_summary_views(self.args@.subrange(0, i as int)).push(
                self.args@[i as int]@,
            ));
            assert(arg_summary_views(args@) =~= arg_summary_views(self.args@.subrange(0, i as int)).push(self.args@[i as int]@));
            i += 1;
        }
        assert(self.args@.subrange(0, self.args.len() as int) == self.args@);
        CommandSummary {
            name: self.name.clone(),
            title: self.title.clone(),
            description: self.description.clone(),
            plugin_id: self.plugin_id.clone(),
            generation_id: self.generation_id,
            context: self.context.clone(),
            destructive: self.destructive,
            capabilities: clone_strings(&self.capabilities),
            plugin_invocation_capabilities: clone_strings(&self.plugin_invocation_capabilities),
            enabled: self.enabled,
            disabled_reason: clone_opt_string(&self.disabled_reason),
            keymap_eligible: self.keymap_eligible,
            palette_visible: self.palette_visible,
            hooks: self.hooks,
            args,
            fires: self.fires,
            failures: self.failures,
            last_outcome: clone_opt_string(&self.last_outcome),
            last_duration_ms: self.last_duration_ms,
        }
    }
}

fn summarize(e: &CommandEntry) -> (r: CommandSummary)
    ensures
        r@ == summary_of(*e),
{
    let d = &e.descriptor;
    let mut args: Vec<CommandArgSummary> = Vec::new();
    let mut i: usize = 0;
    while i < d.args.len()
        invariant
            i <= d.args.len(),
            d == &e.descriptor,
            arg_summary_views(args@) == d.args@.subrange(0, i as int).map_values(|a: CommandArg| arg_summary_of(a)),
        decreases d.args.len() - i,
    {
        args.push(arg_summary(&d.args[i]));
        assert(d.args@.subrange(0, i + 1).map_values(|a: CommandArg| arg_summary_of(a)) =~= d.args@.subrange(
            0,
            i as int,
        ).map_values(|a: CommandArg| arg_summary_of(a)).push(arg_summary_of(d.args@[i as int])));
        assert(arg_summary_views(args@) =~= d.args@.subrange(0, i as int).map_values(|a: CommandArg| arg_summary_of(a)).push(
            arg_summary_of(d.args@[i as int]),
        ));
        i += 1;
    }
    assert(d.args@.subrange(0, d.args.len() as int) == d.args@);
    CommandSummary {
        name: d.name.clone(),
        title: d.title.clone(),
        description: d.description.clone(),
        plugin_id: d.plugin_id.clone(),
        generation_id: d.generation_id,
        context: d.context.clone(),
        destructive: d.destructive,
        capabilities: clone_strings(&d.capabilities),
        plugin_invocation_capabilities: clone_strings(&d.plugin_invocation_capabilities),
        enabled: d.availability.enabled,
        disabled_reason: clone_opt_string(&d.availability.reason),
        keymap_eligible: d.keymap_eligible,
        palette_visible: d.palette_visible,
        hooks: d.hooks,
        args,
        fires: e.runtime.fires,
        failures: e.runtime.failures,
        last_outcome: clone_opt_string(&e.runtime.last_outcome),
        last_duration_ms: e.runtime.last_duration_ms,
    }
}

impl CommandRegistry {
    /// One summary per command, in registration order.
    pub fn summaries(&self) -> (r: Vec<CommandSummary>)
        ensures
            summary_views(r@) == self.commands().map_values(|e: CommandEntry| summary_of(e)),
    {
        let mut out: Vec<CommandSummary> = Vec::new();
        let mut i: usize = 0;
        while i < self.entries.len()
            invariant
                i <= self.entries.len(),
                summary_views(out@) == self.entries@.subrange(0, i as int).map_values(|e: CommandEntry| summary_of(e)),
            decreases self.entries.len() - i,
        {
            out.push(summarize(&self.entries[i]));
            assert(self.entries@.subrange(0, i + 1).map_values(|e: CommandEntry| summary_of(e)) =~= self.entries@.subrange(
                0,
                i as int,
            ).map_values(|e: CommandEntry| summary_of(e)).push(summary_of(self.entries@[i as int])));
            assert(summary_views(out@) =~= self.entries@.subrange(0, i as int).map_values(|e: CommandEntry| summary_of(e)).push(
                summary_of(self.entries@[i as int]),
            ));
            i += 1;
        }
        assert(self.entries@.subrange(0, self.entries.len() as int) == self.entries@);
        out
    }

    /// Dispatch the first command called `name` (see [`invoke_entry`]);
    /// an unknown name records `command.not_found` and gives `NotFound`.
    pub fn invoke<R: CommandRunner>(
        &mut self,
        name: &str,
        args: &JsonValue,
        runner: &mut R,
        diagnostics: &mut DiagnosticStore,
    ) -> (r: (InvokeOutcome, u128))
        requires
            forall|i: int|
                0 <= i < old(self).commands().len() ==> (#[trigger] old(self).commands()[i]).runtime.fires < u64::MAX
                    && old(self).commands()[i].runtime.failures < u64::MAX,
        ensures
            final(self).detached_spec() == old(self).detached_spec(),
            match first_index(old(self).commands(), named(name@)) {
                None => {
                    &&& r.0 is NotFound
                    &&& r.1 == 0
                    &&& final(self).commands() == old(self).commands()
                    &&& final(diagnostics).log() == old(diagnostics).log().push(not_found_diag(name@))
                    &&& R::keeps_call_log() ==> final(runner).calls() == old(runner).calls()
                },
                Some(i) => {
                    &&& final(self).commands().len() == old(self).commands().len()
                    &&& forall|j: int|
                        0 <= j < old(self).commands().len() && j != i ==> #[trigger] final(self).commands()[j]
                            == old(self).commands()[j]
                    &&& dispatched(
                        old(self).commands()[i],
                        final(self).commands()[i],
                        name@,
                        *args,
                        old(diagnostics).log(),
                        final(diagnostics).log(),
                        r,
                    )
                    &&& R::keeps_call_log() ==> ran_gates(
                        old(runner).calls(),
                        final(runner).calls(),
                        old(self).commands()[i].descriptor,
                        name@,
                        *args,
                        r,
                    )
                },
            },
    {
        match self.find_index(name) {
            None => {
                record_command_not_found(diagnostics, name);
                (InvokeOutcome::NotFound, 0)
            },
            Some(index) => {
                let mut entry = self.entries.remove(index);
                let r = invoke_entry(&mut entry, name, args, runner, diagnostics);
                self.entries.insert(index, entry);
                assert forall|j: int|
                    0 <= j < old(self).commands().len() && j != index implies #[trigger] self.entries@[j]
                        == old(self).commands()[j] by {
                    if j < index {
                    } else {
                    }
                }
                r
            },
        }
    }
}

// ---------------------------------------------------------------------
// The palette

/// Headless command palette: a query, whether destructive commands show,
/// and the active context (empty: every context).
#[derive(Debug, Clone)]
pub struct PaletteState {
    pub query: String,
    pub show_destructive: bool,
    /// Commands of context `global` always show; others only when their
    /// context is this one. Empty shows every context.
    pub context: String,
}

/// The palette lists `x` at all.
pub open spec fn palette_lists(show_destructive: bool, context: Seq<char>, x: SummaryView) -> bool {
    &&& x.palette_visible
    &&& x.enabled
    &&& (!x.destructive || show_destructive)
    &&& (context.len() == 0 || x.context == "global"@ || x.context == context)
}

/// Rank of `x` for the lowercased query `needle`: everything ranks 1000
/// for an empty query; otherwise 0 for an exact (lowercased) name, 10 for
/// a prefix of the name or title, 20 for a substring of the name, title,
/// description or plugin id; `None` when nothing matches.
pub open spec fn palette_score(needle: Seq<char>, x: SummaryView) -> Option<u32> {
    if needle.len() == 0 {
        Some(1000)
    } else if lower_seq(x.name) == needle {
        Some(0)
    } else if starts_with(lower_seq(x.name), needle) || starts_with(lower_seq(x.title), needle) {
        Some(10)
    } else if contains_seq(lower_seq(x.name), needle) || contains_seq(lower_seq(x.title), needle) || contains_seq(
        lower_seq(x.description),
        needle,
    ) || contains_seq(lower_seq(x.plugin_id), needle) {
        Some(20)
    } else {
        None
    }
}

/// How a summary ranks for a lowercased query `needle`. An empty query
/// matches everything at rank 1000. Otherwise a summary matches exactly
/// when the needle occurs (case-insensitively) in its name, title,
/// description or plugin id; it ranks 0 exactly when its name is the
/// needle, 10 when the needle otherwise starts its name or title, and 20
/// for any other match, so every match ranks at most 20.
pub proof fn lemma_palette_score(needle: Seq<char>, x: SummaryView)
    ensures
        needle.len() == 0 ==> palette_score(needle, x) == Some(1000u32),
        needle.len() > 0 ==> (palette_score(needle, x) is Some <==> (contains_seq(lower_seq(x.name), needle)
            || contains_seq(lower_seq(x.title), needle) || contains_seq(lower_seq(x.description), needle)
            || contains_seq(lower_seq(x.plugin_id), needle))),
        needle.len() > 0 && palette_score(needle, x) is Some ==> palette_score(needle, x)->0 <= 20,
        needle.len() > 0 ==> (palette_score(needle, x) == Some(0u32) <==> lower_seq(x.name) == needle),
        needle.len() > 0 ==> (palette_score(needle, x) == Some(10u32) <==> (lower_seq(x.name) != needle && (
        starts_with(lower_seq(x.name), needle) || starts_with(lower_seq(x.title), needle)))),
{
    lemma_starts_contains(lower_seq(x.name), needle);
    lemma_starts_contains(lower_seq(x.title), needle);
    assert(lower_seq(x.name) == needle ==> starts_with(lower_seq(x.name), needle)) by {
        if lower_seq(x.name) == needle {
            assert(lower_seq(x.name).subrange(0, needle.len() as int) =~= needle);
        }
    }
}

/// Which summaries the palette lists: only enabled, palette-visible
/// ones; destructive ones only when destructive commands show; and with
/// an active context, only commands of that context or of `global`
/// (every context when none is active).
pub proof fn lemma_palette_lists(show_destructive: bool, context: Seq<char>, x: SummaryView)
    ensures
        palette_lists(show_destructive, context, x) ==> x.enabled && x.palette_visible,
        palette_lists(show_destructive, context, x) && x.destructive ==> show_destructive,
        palette_lists(show_destructive, context, x) && context.len() > 0 ==> x.context == "global"@ || x.context
            == context,
        x.enabled && x.palette_visible && (!x.destructive || show_destructive) && (context.len() == 0 || x.context
            == "global"@ || x.context == context) ==> palette_lists(show_destructive, context, x),
{
}

/// A prefix of `s` occurs in `s`.
proof fn lemma_starts_contains(s: Seq<char>, p: Seq<char>)
    ensures
        starts_with(s, p) ==> contains_seq(s, p),
{
    if starts_with(s, p) {
        assert(s.subrange(0int, 0int + p.len()) == p);
    }
}

/// For a non-empty query, a summary the palette lists and whose
/// description, name, title or plugin id contains the lowercased query
/// is shown, ranked at most 20.
pub proof fn lemma_palette_shows_matches(
    query: Seq<char>,
    show_destructive: bool,
    context: Seq<char>,
    summaries: Seq<SummaryView>,
    x: SummaryView,
)
    requires
        lower_seq(query).len() > 0,
        summaries.contains(x),
        palette_lists(show_destructive, context, x),
        contains_seq(lower_seq(x.name), lower_seq(query)) || contains_seq(lower_seq(x.title), lower_seq(query))
            || contains_seq(lower_seq(x.description), lower_seq(query)) || contains_seq(
            lower_seq(x.plugin_id),
            lower_seq(query),
        ),
    ensures
        palette_filter_spec(query, show_destructive, context, summaries).contains(x),
        palette_score(lower_seq(query), x) is Some && palette_score(lower_seq(query), x)->0 <= 20,
{
    lemma_palette_score(lower_seq(query), x);
    lemma_palette_filter(query, show_destructive, context, summaries);
}

/// The listed, matching summaries with their ranks, in input order.
pub open spec fn palette_candidates(needle: Seq<char>, show_destructive: bool, context: Seq<char>, s: Seq<SummaryView>) -> Seq<
    (u32, SummaryView),
>
    decreases s.len(),
{
    if s.len() == 0 {
        Seq::empty()
    } else {
        let prev = palette_candidates(needle, show_destructive, context, s.drop_last());
        let x = s.last();
        if palette_lists(show_destructive, context, x) && palette_score(needle, x) is Some {
            prev.push((palette_score(needle, x)->0, x))
        } else {
            prev
        }
    }
}

/// `a` ranks strictly before `b`: by rank, then plugin id, then name.
pub open spec fn rank_lt(a: (u32, SummaryView), b: (u32, SummaryView)) -> bool {
    ||| a.0 < b.0
    ||| a.0 == b.0 && chars_lt(a.1.plugin_id, b.1.plugin_id)
    ||| a.0 == b.0 && a.1.plugin_id == b.1.plugin_id && chars_lt(a.1.name, b.1.name)
}

pub open spec fn ranked_after(x: (u32, SummaryView)) -> spec_fn((u32, SummaryView)) -> bool {
    |y: (u32, SummaryView)| rank_lt(x, y)
}

/// `x` put into `s` before the first item it ranks strictly before (at
/// the end when there is none).
pub open spec fn insert_ranked(s: Seq<(u32, SummaryView)>, x: (u32, SummaryView)) -> Seq<(u32, SummaryView)> {
    match first_index(s, ranked_after(x)) {
        Some(p) => s.insert(p, x),
        None => s.push(x),
    }
}

/// `s` in rank order, items of equal rank, plugin id and name in input
/// order (a stable sort).
pub open spec fn ranked(s: Seq<(u32, SummaryView)>) -> Seq<(u32, SummaryView)>
    decreases s.len(),
{
    if s.len() == 0 {
        s
    } else {
        insert_ranked(ranked(s.drop_last()), s.last())
    }
}

pub open spec fn ranked_views(s: Seq<(u32, CommandSummary)>) -> Seq<(u32, SummaryView)> {
    s.map_values(|c: (u32, CommandSummary)| (c.0, c.1@))
}

/// What the palette shows of `summaries`.
pub open spec fn palette_filter_spec(query: Seq<char>, show_destructive: bool, context: Seq<char>, summaries: Seq<SummaryView>) -> Seq<
    SummaryView,
> {
    ranked(palette_candidates(lower_seq(query), show_destructive, context, summaries)).map_values(
        |c: (u32, SummaryView)| c.1,
    )
}

fn vec_eq(a: &Vec<char>, b: &Vec<char>) -> (r: bool)
    ensures
        r == (a@ == b@),
{
    if a.len() != b.len() {
        return false;
    }
    let r = vec_starts_with(a, b);
    assert(r ==> a@.subrange(0, b@.len() as int) == b@);
    assert(a@.subrange(0, a@.len() as int) == a@);
    r
}

fn rank_less(a: &(u32, CommandSummary), b: &(u32, CommandSummary)) -> (r: bool)
    ensures
        r == rank_lt((a.0, a.1@), (b.0, b.1@)),
{
    if a.0 < b.0 {
        return true;
    }
    if a.0 != b.0 {
        return false;
    }
    if str_lt(a.1.plugin_id.as_str(), b.1.plugin_id.as_str()) {
        return true;
    }
    str_eq(a.1.plugin_id.as_str(), b.1.plugin_id.as_str()) && str_lt(a.1.name.as_str(), b.1.name.as_str())
}

fn score_of(needle: &Vec<char>, x: &CommandSummary) -> (r: Option<u32>)
    ensures
        r == palette_score(needle@, x@),
{
    if needle.len() == 0 {
        return Some(1000);
    }
    let name = to_ascii_lower(x.name.as_str());
    let title = to_ascii_lower(x.title.as_str());
    if vec_eq(&name, needle) {
        return Some(0);
    }
    if vec_starts_with(&name, needle) || vec_starts_with(&title, needle) {
        return Some(10);
    }
    let desc = to_ascii_lower(x.description.as_str());
    let plugin = to_ascii_lower(x.plugin_id.as_str());
    if vec_contains_seq(&name, needle) || vec_contains_seq(&title, needle) || vec_contains_seq(&desc, needle)
        || vec_contains_seq(&plugin, needle) {
        return Some(20);
    }
    None
}

fn lists(show_destructive: bool, context: &str, x: &CommandSummary) -> (r: bool)
    ensures
        r == palette_lists(show_destructive, context@, x@),
{
    if !x.palette_visible || !x.enabled {
        return false;
    }
    if x.destructive && !show_destructive {
        return false;
    }
    let ctx = chars_of(context);
    ctx.len() == 0 || str_eq(x.context.as_str(), CommandContext::GLOBAL) || str_eq(x.context.as_str(), context)
}

impl PaletteState {
    pub fn new() -> (r: Self)
        ensures
            r.query@ == Seq::<char>::empty(),
            !r.show_destructive,
            r.context@ == Seq::<char>::empty(),
    {
        PaletteState { query: String::new(), show_destructive: false, context: String::new() }
    }

    pub fn set_query(&mut self, query: &str)
        ensures
            final(self).query@ == query@,
            final(self).show_destructive == old(self).show_destructive,
            final(self).context@ == old(self).context@,
    {
        self.query = str_to_string(query);
    }

    pub fn set_context(&mut self, context: &str)
        ensures
            final(self).context@ == context@,
            final(self).show_destructive == old(self).show_destructive,
            final(self).query@ == old(self).query@,
    {
        self.context = str_to_string(context);
    }

    pub fn set_show_destructive(&mut self, show: bool)
        ensures
            final(self).show_destructive == show,
            final(self).query@ == old(self).query@,
            final(self).context@ == old(self).context@,
    {
        self.show_destructive = show;
    }

    /// The summaries the palette shows, best first: see
    /// [`palette_filter_spec`].
    pub fn filter(&self, summaries: &[CommandSummary]) -> (r: Vec<CommandSummary>)
        ensures
            summary_views(r@) == palette_filter_spec(
                self.query@,
                self.show_destructive,
                self.context@,
                summary_views(summaries@),
            ),
    {
        let needle = to_ascii_lower(self.query.as_str());
        let ghost all = summary_views(summaries@);
        let mut order: Vec<(u32, CommandSummary)> = Vec::new();
        let mut i: usize = 0;
        while i < summaries.len()
            invariant
                i <= summaries.len(),
                all == summary_views(summaries@),
                needle@ == lower_seq(self.query@),
                ranked_views(order@) == ranked(
                    palette_candidates(needle@, self.show_destructive, self.context@, all.subrange(0, i as int)),
                ),
            decreases summaries.len() - i,
        {
            let x = &summaries[i];
            let ghost prefix = all.subrange(0, i + 1);
            assert(prefix.drop_last() =~= all.subrange(0, i as int));
            assert(prefix.last() == x@);
            if lists(self.show_destructive, self.context.as_str(), x) {
                match score_of(&needle, x) {
                    Some(score) => {
                        let item = (score, x.duplicate());
                        let ghost before = ranked_views(order@);
                        let ghost xv = (score, x@);
                        let mut p: usize = 0;
                        while p < order.len() && !rank_less(&item, &order[p])
                            invariant
                                p <= order.len(),
                                before == ranked_views(order@),
                                xv == (item.0, item.1@),
                                forall|k: int| 0 <= k < p ==> !ranked_after(xv)(#[trigger] before[k]),
                            decreases order.len() - p,
                        {
                            p += 1;
                        }
                        proof {
                            lemma_first_index(before, ranked_after(xv), p as int);
                        }
                        order.insert(p, item);
                        assert(ranked_views(order@) =~= insert_ranked(before, xv));
                        let ghost prev = palette_candidates(needle@, self.show_destructive, self.context@, all.subrange(0, i as int));
                        assert(palette_candidates(needle@, self.show_destructive, self.context@, prefix) == prev.push(xv));
                        assert(prev.push(xv).drop_last() =~= prev);
                        assert(ranked(prev.push(xv)) == insert_ranked(ranked(prev), xv));
                    },
                    None => {},
                }
            }
            i += 1;
        }
        assert(all.subrange(0, summaries.len() as int) == all);
        let mut out: Vec<CommandSummary> = Vec::new();
        let ghost fin = ranked_views(order@);
        let mut k: usize = 0;
        while k < order.len()
            invariant
                k <= order.len(),
                fin == ranked_views(order@),
                summary_views(out@) == fin.subrange(0, k as int).map_values(|c: (u32, SummaryView)| c.1),
            decreases order.len() - k,
        {
            out.push(order[k].1.duplicate());
            assert(fin.subrange(0, k + 1).map_values(|c: (u32, SummaryView)| c.1) =~= fin.subrange(0, k as int).map_values(
                |c: (u32, SummaryView)| c.1,
            ).push(fin[k as int].1));
            assert(summary_views(out@) =~= fin.subrange(0, k as int).map_values(|c: (u32, SummaryView)| c.1).push(
                fin[k as int].1,
            ));
            k += 1;
        }
        assert(fin.subrange(0, order.len() as int) == fin);
        out
    }

    /// The first summary the palette shows.
    pub fn first_match(&self, summaries: &[CommandSummary]) -> (r: Option<CommandSummary>)
        ensures
            ({
                let shown = palette_filter_spec(self.query@, self.show_destructive, self.context@, summary_views(summaries@));
                match r {
                    Some(x) => shown.len() > 0 && x@ == shown[0],
                    None => shown.len() == 0,
                }
            }),
    {
        let mut shown = self.filter(summaries);
        if shown.len() == 0 {
            None
        } else {
            Some(shown.remove(0))
        }
    }
}

proof fn lemma_rank_lt_irrefl(a: (u32, SummaryView))
    ensures
        !rank_lt(a, a),
{
    lemma_chars_lt_irrefl(a.1.plugin_id);
    lemma_chars_lt_irrefl(a.1.name);
}

proof fn lemma_rank_lt_trans(a: (u32, SummaryView), b: (u32, SummaryView), c: (u32, SummaryView))
    requires
        rank_lt(a, b),
        rank_lt(b, c),
    ensures
        rank_lt(a, c),
{
    if a.0 == b.0 && b.0 == c.0 {
        if chars_lt(a.1.plugin_id, b.1.plugin_id) && chars_lt(b.1.plugin_id, c.1.plugin_id) {
            lemma_chars_lt_trans(a.1.plugin_id, b.1.plugin_id, c.1.plugin_id);
        }
        if a.1.plugin_id == b.1.plugin_id && b.1.plugin_id == c.1.plugin_id && chars_lt(a.1.name, b.1.name) && chars_lt(
            b.1.name,
            c.1.name,
        ) {
            lemma_chars_lt_trans(a.1.name, b.1.name, c.1.name);
        }
    }
}

/// The palette lists commands in rank order (rank, then plugin id, then
/// name): no item it shows ranks strictly before one shown ahead of it,
/// and nothing is lost or added.
pub proof fn lemma_ranked_in_order(s: Seq<(u32, SummaryView)>)
    ensures
        ranked(s).len() == s.len(),
        forall|i: int, j: int| 0 <= i < j < ranked(s).len() ==> !rank_lt(#[trigger] ranked(s)[j], #[trigger] ranked(s)[i]),
    decreases s.len(),
{
    if s.len() > 0 {
        let prev = ranked(s.drop_last());
        lemma_ranked_in_order(s.drop_last());
        let x = s.last();
        let t = ranked(s);
        assert(t == insert_ranked(prev, x));
        lemma_first_index_props(prev, ranked_after(x));
        let p: int = match first_index(prev, ranked_after(x)) {
            Some(i) => i,
            None => prev.len() as int,
        };
        assert(t =~= prev.insert(p, x));
        assert forall|i: int, j: int| 0 <= i < j < t.len() implies !rank_lt(#[trigger] t[j], #[trigger] t[i]) by {
            if j < p {
                assert(t[i] == prev[i] && t[j] == prev[j]);
            } else if j == p {
                assert(t[i] == prev[i]);
                assert(!ranked_after(x)(prev[i]));
            } else if i == p {
                assert(t[j] == prev[j - 1]);
                if rank_lt(prev[j - 1], x) {
                    assert(ranked_after(x)(prev[p]));
                    lemma_rank_lt_trans(prev[j - 1], x, prev[p]);
                    if j - 1 == p {
                        lemma_rank_lt_irrefl(prev[p]);
                    }
                }
            } else if i < p {
                assert(t[i] == prev[i] && t[j] == prev[j - 1]);
            } else {
                assert(t[i] == prev[i - 1] && t[j] == prev[j - 1]);
            }
        }
    }
}

/// Ranking keeps exactly the items it was given.
proof fn lemma_ranked_same_items(s: Seq<(u32, SummaryView)>, y: (u32, SummaryView))
    ensures
        ranked(s).contains(y) <==> s.contains(y),
    decreases s.len(),
{
    if s.len() > 0 {
        let prev = ranked(s.drop_last());
        lemma_ranked_same_items(s.drop_last(), y);
        lemma_ranked_in_order(s.drop_last());
        let x = s.last();
        lemma_first_index_props(prev, ranked_after(x));
        let p: int = match first_index(prev, ranked_after(x)) {
            Some(i) => i,
            None => prev.len() as int,
        };
        let t = prev.insert(p, x);
        assert(ranked(s) =~= t);
        if t.contains(y) {
            let k = choose|k: int| 0 <= k < t.len() && t[k] == y;
            if k < p {
                assert(prev[k] == y);
            } else if k > p {
                assert(prev[k - 1] == y);
            }
            if y != x {
                assert(prev.contains(y));
                let m = choose|m: int| 0 <= m < s.drop_last().len() && s.drop_last()[m] == y;
                assert(s[m] == y);
            } else {
                assert(s[s.len() - 1] == y);
            }
        }
        if s.contains(y) {
            let k = choose|k: int| 0 <= k < s.len() && s[k] == y;
            if k == s.len() - 1 {
                assert(t[p] == y);
            } else {
                assert(s.drop_last()[k] == y);
                assert(prev.contains(y));
                let m = choose|m: int| 0 <= m < prev.len() && prev[m] == y;
                if m < p {
                    assert(t[m] == y);
                } else {
                    assert(t[m + 1] == y);
                }
            }
        }
    }
}

/// Each candidate carries its own rank, is listed and matches, and comes
/// from `s`; every listed, matching summary of `s` is a candidate.
proof fn lemma_candidates(needle: Seq<char>, show_destructive: bool, context: Seq<char>, s: Seq<SummaryView>, x: SummaryView)
    ensures
        forall|k: int| 0 <= k < palette_candidates(needle, show_destructive, context, s).len() ==> {
            let c = #[trigger] palette_candidates(needle, show_destructive, context, s)[k];
            &&& palette_lists(show_destructive, context, c.1)
            &&& palette_score(needle, c.1) == Some(c.0)
            &&& s.contains(c.1)
        },
        (s.contains(x) && palette_lists(show_destructive, context, x) && palette_score(needle, x) is Some)
            ==> palette_candidates(needle, show_destructive, context, s).contains((palette_score(needle, x)->0, x)),
    decreases s.len(),
{
    if s.len() > 0 {
        let d = s.drop_last();
        lemma_candidates(needle, show_destructive, context, d, x);
        let prev = palette_candidates(needle, show_destructive, context, d);
        let c = palette_candidates(needle, show_destructive, context, s);
        assert forall|k: int| 0 <= k < c.len() implies {
            let e = #[trigger] c[k];
            &&& palette_lists(show_destructive, context, e.1)
            &&& palette_score(needle, e.1) == Some(e.0)
            &&& s.contains(e.1)
        } by {
            if k < prev.len() {
                assert(c[k] == prev[k]);
                let m = choose|m: int| 0 <= m < d.len() && d[m] == prev[k].1;
                assert(s[m] == prev[k].1);
            } else {
                assert(s[s.len() - 1] == c[k].1);
            }
        }
        if s.contains(x) && palette_lists(show_destructive, context, x) && palette_score(needle, x) is Some {
            let k = choose|k: int| 0 <= k < s.len() && s[k] == x;
            if k < s.len() - 1 {
                assert(d[k] == x);
                let m = choose|m: int| 0 <= m < prev.len() && prev[m] == (palette_score(needle, x)->0, x);
                assert(c[m] == prev[m]);
            } else {
                assert(c[c.len() - 1] == (palette_score(needle, x)->0, x));
            }
        }
    }
}

/// What the palette shows for `query`: a summary shows if and only if it
/// is one of `summaries`, the palette lists it and it matches the query;
/// and what shows is in rank order (rank for the lowercased query, then
/// plugin id, then name).
pub proof fn lemma_palette_filter(
    query: Seq<char>,
    show_destructive: bool,
    context: Seq<char>,
    summaries: Seq<SummaryView>,
)
    ensures
        ({
            let needle = lower_seq(query);
            let shown = palette_filter_spec(query, show_destructive, context, summaries);
            &&& forall|x: SummaryView| #[trigger] shown.contains(x) <==> summaries.contains(x) && palette_lists(
                show_destructive,
                context,
                x,
            ) && palette_score(needle, x) is Some
            &&& forall|i: int, j: int| 0 <= i < j < shown.len() ==> !rank_lt(
                (palette_score(needle, #[trigger] shown[j])->0, shown[j]),
                (palette_score(needle, #[trigger] shown[i])->0, shown[i]),
            )
        }),
{
    let needle = lower_seq(query);
    let c = palette_candidates(needle, show_destructive, context, summaries);
    let t = ranked(c);
    let shown = palette_filter_spec(query, show_destructive, context, summaries);
    lemma_ranked_in_order(c);
    assert(shown.len() == t.len());
    assert forall|k: int| 0 <= k < t.len() implies palette_score(needle, #[trigger] t[k].1) == Some(t[k].0)
        && palette_lists(show_destructive, context, t[k].1) && summaries.contains(t[k].1) by {
        lemma_ranked_same_items(c, t[k]);
        assert(t.contains(t[k]));
        let m = choose|m: int| 0 <= m < c.len() && c[m] == t[k];
        lemma_candidates(needle, show_destructive, context, summaries, t[k].1);
        assert(c[m] == t[k]);
    }
    assert forall|x: SummaryView| #[trigger] shown.contains(x) <==> summaries.contains(x) && palette_lists(
        show_destructive,
        context,
        x,
    ) && palette_score(needle, x) is Some by {
        if shown.contains(x) {
            let k = choose|k: int| 0 <= k < shown.len() && shown[k] == x;
            assert(shown[k] == t[k].1);
        }
        if summaries.contains(x) && palette_lists(show_destructive, context, x) && palette_score(needle, x) is Some {
            lemma_candidates(needle, show_destructive, context, summaries, x);
            let y = (palette_score(needle, x)->0, x);
            lemma_ranked_same_items(c, y);
            let k = choose|k: int| 0 <= k < t.len() && t[k] == y;
            assert(shown[k] == x);
        }
    }
    assert forall|i: int, j: int| 0 <= i < j < shown.len() implies !rank_lt(
        (palette_score(needle, #[trigger] shown[j])->0, shown[j]),
        (palette_score(needle, #[trigger] shown[i])->0, shown[i]),
    ) by {
        assert(shown[i] == t[i].1 && shown[j] == t[j].1);
        assert((palette_score(needle, t[j].1)->0, t[j].1) == t[j]);
        assert((palette_score(needle, t[i].1)->0, t[i].1) == t[i]);
        assert(!rank_lt(t[j], t[i]));
    }
}

// ---------------------------------------------------------------------
// Building descriptors from what a plugin declared

/// One argument as a plugin declared it; its type is still text.
#[derive(Debug)]
pub struct RawCommandArg {
    pub name: String,
    pub ty: String,
    pub required: bool,
    pub default: Option<JsonValue>,
    pub doc: Option<String>,
}

pub struct RawArgView {
    pub name: Seq<char>,
    pub ty: Seq<char>,
    pub required: bool,
    pub default: Option<JsonValue>,
    pub doc: Option<Seq<char>>,
}

impl View for RawCommandArg {
    type V = RawArgView;

    open spec fn view(&self) -> RawArgView {
        RawArgView {
            name: self.name@,
            ty: self.ty@,
            required: self.required,
            default: self.default,
            doc: opt_str_view(self.doc),
        }
    }
}

pub open spec fn raw_arg_views(s: Seq<RawCommandArg>) -> Seq<RawArgView> {
    s.map_values(|a: RawCommandArg| a@)
}

/// A command as a plugin declared it, before its schema is checked.
#[derive(Debug)]
pub struct RawCommand {
    pub name: String,
    pub title: Option<String>,
    pub description: Option<String>,
    pub context: Option<String>,
    pub destructive: bool,
    pub capabilities: Vec<String>,
    pub args: Vec<RawCommandArg>,
    /// Handle of the Lua callback on the declaring plugin's state.
    pub callback: u64,
    pub source_location: Option<String>,
}

/// One error per declared argument whose type does not parse, or whose
/// default does not have its type, in order.
pub open spec fn build_errors(args: Seq<RawArgView>) -> Seq<Seq<char>>
    decreases args.len(),
{
    if args.len() == 0 {
        Seq::empty()
    } else {
        let prev = build_errors(args.drop_last());
        let a = args.last();
        match parse_arg_type(a.ty) {
            Ok(t) => match a.default {
                Some(d) => match validate_value_spec(t, d) {
                    Err(e) => prev.push("arg `"@ + a.name + "` default: "@ + e),
                    Ok(_) => prev,
                },
                None => prev,
            },
            Err(e) => prev.push("arg `"@ + a.name + "` type: "@ + e),
        }
    }
}

/// The schema argument built from a declared one whose type parses.
pub open spec fn built_arg(a: RawArgView) -> ArgView {
    ArgView { name: a.name, ty: parse_arg_type(a.ty)->Ok_0, required: a.required, default: a.default }
}

pub open spec fn built_args(s: Seq<RawArgView>) -> Seq<ArgView> {
    s.map_values(|a: RawArgView| built_arg(a))
}

pub open spec fn or_else(o: Option<Seq<char>>, d: Seq<char>) -> Seq<char> {
    match o {
        Some(x) => x,
        None => d,
    }
}

/// Check a declared command's schema and build its descriptor: title
/// defaults to the name, description to empty, context to `global`; the
/// body is the declared Lua callback; every command starts enabled,
/// listed, keymap-eligible, with only the result event. Any argument
/// whose type does not parse or whose default has the wrong type makes
/// it fail with every such error.
pub fn build_descriptor(raw: RawCommand, plugin_id: String, generation_id: Option<u64>) -> (r: Result<
    CommandDescriptor,
    Vec<String>,
>)
    ensures
        ({
            let errors = build_errors(raw_arg_views(raw.args@));
            match r {
                Err(es) => errors.len() > 0 && string_views(es@) == errors,
                Ok(d) => {
                    &&& errors.len() == 0
                    &&& d.name@ == raw.name@
                    &&& d.title@ == or_else(opt_str_view(raw.title), raw.name@)
                    &&& d.description@ == or_else(opt_str_view(raw.description), Seq::empty())
                    &&& d.plugin_id@ == plugin_id@
                    &&& d.generation_id == generation_id
                    &&& d.context@ == or_else(opt_str_view(raw.context), "global"@)
                    &&& arg_views(d.args@) == built_args(raw_arg_views(raw.args@))
                    &&& forall|i: int|
                        0 <= i < d.args@.len() ==> (#[trigger] d.args@[i]).doc@ == or_else(
                            raw_arg_views(raw.args@)[i].doc,
                            Seq::empty(),
                        )
                    &&& d.destructive == raw.destructive
                    &&& string_views(d.capabilities@) == string_views(raw.capabilities@)
                    &&& d.plugin_invocation_capabilities@.len() == 0
                    &&& d.availability.enabled && d.availability.reason is None
                    &&& d.keymap_eligible && d.palette_visible
                    &&& d.hooks == (CommandHooks { before: false, after: true, veto: false, replace: false })
                    &&& d.run == (CommandBody::Lua { callback: raw.callback })
                },
            }
        }),
{
    let ghost raws = raw_arg_views(raw.args@);
    let mut errors: Vec<String> = Vec::new();
    let mut args: Vec<CommandArg> = Vec::new();
    let mut i: usize = 0;
    while i < raw.args.len()
        invariant
            i <= raw.args.len(),
            raws == raw_arg_views(raw.args@),
            string_views(errors@) == build_errors(raws.subrange(0, i as int)),
            errors@.len() == 0 ==> arg_views(args@) == built_args(raws.subrange(0, i as int)),
            errors@.len() == 0 ==> forall|k: int|
                0 <= k < args@.len() ==> (#[trigger] args@[k]).doc@ == or_else(raws[k].doc, Seq::empty()),
        decreases raw.args.len() - i,
    {
        let ra = &raw.args[i];
        let ghost before = string_views(errors@);
        assert(raws.subrange(0, i + 1).drop_last() =~= raws.subrange(0, i as int));
        assert(raws.subrange(0, i + 1).last() == ra@);
        match CommandArgType::parse(ra.ty.as_str()) {
            Ok(ty) => {
                let bad = match &ra.default {
                    Some(d) => match validate_value(&ty, d) {
                        Ok(()) => None,
                        Err(e) => Some(e),
                    },
                    None => None,
                };
                match bad {
                    Some(e) => {
                        let mut msg = str_concat("arg `", ra.name.as_str());
                        msg.append("` default: ");
                        msg.append(e.as_str());
                        errors.push(msg);
                        assert(string_views(errors@) =~= before.push("arg `"@ + ra.name@ + "` default: "@ + e@));
                    },
                    None => {
                        let doc = match &ra.doc {
                            Some(d) => d.clone(),
                            None => String::new(),
                        };
                        let default = copy_opt_json(&ra.default);
                        let ghost n = args@.len();
                        let ghost old_args = arg_views(args@);
                        args.push(CommandArg { name: ra.name.clone(), ty, required: ra.required, default, doc });
                        if errors.len() == 0 {
                            assert(arg_views(args@)[n as int] == built_arg(ra@));
                            assert(arg_views(args@) =~= old_args.push(built_arg(ra@)));
                            assert(raws.subrange(0, i + 1) =~= raws.subrange(0, i as int).push(ra@));
                            assert(built_args(raws.subrange(0, i + 1)) =~= built_args(raws.subrange(0, i as int)).push(built_arg(ra@)));
                        }
                    },
                }
            },
            Err(e) => {
                let mut msg = str_concat("arg `", ra.name.as_str());
                msg.append("` type: ");
                msg.append(e.as_str());
                errors.push(msg);
                assert(string_views(errors@) =~= before.push("arg `"@ + ra.name@ + "` type: "@ + e@));
            },
        }
        i += 1;
    }
    assert(raws.subrange(0, raw.args.len() as int) == raws);
    if errors.len() > 0 {
        return Err(errors);
    }
    let title = match &raw.title {
        Some(t) => t.clone(),
        None => raw.name.clone(),
    };
    let description = match &raw.description {
        Some(t) => t.clone(),
        None => String::new(),
    };
    let context = match &raw.context {
        Some(t) => t.clone(),
        None => str_to_string(CommandContext::GLOBAL),
    };
    proof {
        reveal_strlit("global");
    }
    Ok(CommandDescriptor {
        name: raw.name,
        title,
        description,
        plugin_id,
        generation_id,
        context,
        args,
        destructive: raw.destructive,
        capabilities: raw.capabilities,
        plugin_invocation_capabilities: Vec::new(),
        availability: CommandAvailability::enabled(),
        keymap_eligible: true,
        palette_visible: true,
        hooks: CommandHooks::result_event_only(),
        run: CommandBody::Lua { callback: raw.callback },
    })
}

// ---------------------------------------------------------------------
// Queued command-executed events

/// One dispatch that reached a body, to be announced on the next tick.
#[derive(Debug, Clone)]
pub struct PendingCommandEvent {
    pub name: String,
    pub plugin_id: String,
    pub ok: bool,
    pub duration_ms: u128,
}

pub struct PendingEventView {
    pub name: Seq<char>,
    pub plugin_id: Seq<char>,
    pub ok: bool,
    pub duration_ms: u128,
}

impl View for PendingCommandEvent {
    type V = PendingEventView;

    open spec fn view(&self) -> PendingEventView {
        PendingEventView { name: self.name@, plugin_id: self.plugin_id@, ok: self.ok, duration_ms: self.duration_ms }
    }
}

/// Queue of command-executed events, oldest first.
pub struct PendingCommandEvents {
    inner: Vec<PendingCommandEvent>,
}

impl PendingCommandEvents {
    pub closed spec fn queued(&self) -> Seq<PendingCommandEvent> {
        self.inner@
    }

    pub fn new() -> (r: Self)
        ensures
            r.queued() == Seq::<PendingCommandEvent>::empty(),
    {
        PendingCommandEvents { inner: Vec::new() }
    }

    pub fn push(&mut self, event: PendingCommandEvent)
        ensures
            final(self).queued() == old(self).queued().push(event),
    {
        self.inner.push(event);
    }

    /// Take every queued event, oldest first, leaving the queue empty.
    pub fn drain(&mut self) -> (r: Vec<PendingCommandEvent>)
        ensures
            r@ == old(self).queued(),
            final(self).queued() == Seq::<PendingCommandEvent>::empty(),
    {
        let mut taken: Vec<PendingCommandEvent> = Vec::new();
        std::mem::swap(&mut taken, &mut self.inner);
        taken
    }

    pub fn is_empty(&self) -> (r: bool)
        ensures
            r == (self.queued().len() == 0),
    {
        self.inner.len() == 0
    }
}

// ---------------------------------------------------------------------
// Invocation contexts

/// The value at `/a/b` of `v`.
pub open spec fn json_at2(v: JsonValue, a: Seq<char>, b: Seq<char>) -> Option<JsonValue> {
    match v {
        JsonValue::Object(m) => match object_get(m@, a) {
            Some(JsonValue::Object(m2)) => object_get(m2@, b),
            _ => None,
        },
        _ => None,
    }
}

/// The active surface: the string at `surface`, else empty.
pub open spec fn context_surface_spec(active: JsonValue) -> Seq<char> {
    match active {
        JsonValue::Object(m) => match object_get(m@, "surface"@) {
            Some(JsonValue::Str(s)) => s@,
            _ => Seq::empty(),
        },
        _ => Seq::empty(),
    }
}

/// A command of context `command_context` may run in the active context
/// `active`: `global` always; `repository` and `repository.*` when a
/// repository is open; `tab_bar` when a tab is open; any other context
/// when it is the active surface.
pub open spec fn context_allowed_spec(command_context: Seq<char>, active: JsonValue) -> bool {
    if command_context == "global"@ {
        true
    } else if command_context == "repository"@ || starts_with(command_context, "repository."@) {
        json_at2(active, "repository"@, "is_open"@) == Some(JsonValue::Bool(true))
    } else if command_context == "tab_bar"@ {
        json_at2(active, "tab"@, "count"@) matches Some(JsonValue::Integer(n)) && 0 < n <= u64::MAX
    } else {
        context_surface_spec(active) == command_context
    }
}

fn json_lookup2<'a>(v: &'a JsonValue, a: &str, b: &str) -> (r: Option<&'a JsonValue>)
    ensures
        match r {
            Some(x) => json_at2(*v, a@, b@) == Some(*x),
            None => json_at2(*v, a@, b@) is None,
        },
{
    match v {
        JsonValue::Object(m) => match object_lookup(m, a) {
            Some(inner) => match inner {
                JsonValue::Object(m2) => object_lookup(m2, b),
                _ => None,
            },
            None => None,
        },
        _ => None,
    }
}

/// The active surface named in `active`, or empty.
pub fn context_surface(active: &JsonValue) -> (r: String)
    ensures
        r@ == context_surface_spec(*active),
{
    match active {
        JsonValue::Object(m) => match object_lookup(m, "surface") {
            Some(JsonValue::Str(s)) => s.clone(),
            _ => String::new(),
        },
        _ => String::new(),
    }
}

/// See [`context_allowed_spec`].
pub fn command_context_allowed(command_context: &str, active: &JsonValue) -> (r: bool)
    ensures
        r == context_allowed_spec(command_context@, *active),
{
    if str_eq(command_context, CommandContext::GLOBAL) {
        return true;
    }
    let v = chars_of(command_context);
    let prefixed = v.len() >= 11 && v[0] == 'r' && v[1] == 'e' && v[2] == 'p' && v[3] == 'o' && v[4] == 's' && v[5] == 'i'
        && v[6] == 't' && v[7] == 'o' && v[8] == 'r' && v[9] == 'y' && v[10] == '.';
    proof {
        reveal_strlit("repository.");
        if v@.len() >= 11 {
            if prefixed {
                assert(v@.subrange(0, 11) =~= "repository."@);
            } else {
                assert(v@.subrange(0, 11) != "repository."@) by {
                    if v@.subrange(0, 11) == "repository."@ {
                        assert(v@.subrange(0, 11)[0] == 'r');
                        assert(v@.subrange(0, 11)[1] == 'e');
                        assert(v@.subrange(0, 11)[2] == 'p');
                        assert(v@.subrange(0, 11)[3] == 'o');
                        assert(v@.subrange(0, 11)[4] == 's');
                        assert(v@.subrange(0, 11)[5] == 'i');
                        assert(v@.subrange(0, 11)[6] == 't');
                        assert(v@.subrange(0, 11)[7] == 'o');
                        assert(v@.subrange(0, 11)[8] == 'r');
                        assert(v@.subrange(0, 11)[9] == 'y');
                        assert(v@.subrange(0, 11)[10] == '.');
                    }
                }
            }
        }
        assert(prefixed == starts_with(command_context@, "repository."@));
    }
    if str_eq(command_context, "repository") || prefixed {
        return match json_lookup2(active, "repository", "is_open") {
            Some(JsonValue::Bool(b)) => *b,
            _ => false,
        };
    }
    if str_eq(command_context, "tab_bar") {
        return match json_lookup2(active, "tab", "count") {
            Some(JsonValue::Integer(n)) => 0 < *n && *n <= 18446744073709551615i128,
            _ => false,
        };
    }
    let surface = context_surface(active);
    str_eq(surface.as_str(), command_context)
}

} // verus!
