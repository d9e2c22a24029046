//! `leviathan.shell` / `bash` / `zsh`: which shell flavour a program is,
//! how a command is handed to it, and what a run or open request means
//! once its optional fields are filled in.

use vstd::prelude::*;
use crate::text::{str_to_string, str_concat, str_eq, chars_of, to_ascii_lower, lower_seq, chars_eq_str, trim};
use crate::paths::{basename, stem, file_name_spec, stem_spec, components};
use crate::activation::{blank, is_blank};
use crate::json::{JsonValue, object_get, lemma_object_get_at};

verus! {

/// Output kept per stream when a run does not say.
pub const DEFAULT_OUTPUT_LIMIT: usize = 2097152;

/// The most output a run may keep per stream.
pub const MAX_OUTPUT_LIMIT: usize = 16777216;

/// The least output a run keeps per stream.
pub const MIN_OUTPUT_LIMIT: usize = 1024;

/// How a shell takes a command line.
#[derive(Debug, Clone, Copy, PartialEq, Eq, Structural)]
pub enum ShellKind {
    /// A POSIX shell, run as a login shell: `-lc <command>`.
    PosixLogin,
    /// Any other program: `-c <command>`.
    Command,
    /// `cmd.exe`: `/D /C <command>`.
    Cmd,
    /// PowerShell: `-NoLogo -NoProfile -Command <command>`.
    PowerShell,
}

pub open spec fn shell_kind_spec(name: Seq<char>) -> ShellKind {
    let lower = lower_seq(name);
    if lower == "cmd"@ || lower == "cmd.exe"@ {
        ShellKind::Cmd
    } else if lower == "pwsh"@ || lower == "pwsh.exe"@ || lower == "powershell"@ || lower == "powershell.exe"@ {
        ShellKind::PowerShell
    } else if lower == "sh"@ || lower == "sh.exe"@ || lower == "bash"@ || lower == "bash.exe"@ || lower == "zsh"@
        || lower == "zsh.exe"@ || lower == "dash"@ || lower == "dash.exe"@ || lower == "ksh"@ || lower == "ksh.exe"@ {
        ShellKind::PosixLogin
    } else {
        ShellKind::Command
    }
}

/// How a shell called `name` runs a command, whatever the letter case:
/// `cmd` (or `cmd.exe`) as `/D /C <command>`; `pwsh` or `powershell`
/// (bare or `.exe`) as `-NoLogo -NoProfile -Command <command>`; sh, bash,
/// zsh, dash and ksh (bare or `.exe`) as a login shell, `-lc <command>`;
/// any other program as `-c <command>`. Names that differ only in case
/// run alike.
pub proof fn lemma_shell_kind(name: Seq<char>, other: Seq<char>, command: Seq<char>)
    ensures
        lower_seq(name) == lower_seq(other) ==> shell_kind_spec(name) == shell_kind_spec(other),
        (lower_seq(name) == "cmd"@ || lower_seq(name) == "cmd.exe"@) <==> shell_kind_spec(name) == ShellKind::Cmd,
        (lower_seq(name) == "pwsh"@ || lower_seq(name) == "pwsh.exe"@ || lower_seq(name) == "powershell"@
            || lower_seq(name) == "powershell.exe"@) <==> shell_kind_spec(name) == ShellKind::PowerShell,
        lower_seq(name) == "sh"@ ==> shell_kind_spec(name) == ShellKind::PosixLogin,
        lower_seq(name) == "sh.exe"@ ==> shell_kind_spec(name) == ShellKind::PosixLogin,
        lower_seq(name) == "bash"@ ==> shell_kind_spec(name) == ShellKind::PosixLogin,
        lower_seq(name) == "bash.exe"@ ==> shell_kind_spec(name) == ShellKind::PosixLogin,
        lower_seq(name) == "zsh"@ ==> shell_kind_spec(name) == ShellKind::PosixLogin,
        lower_seq(name) == "zsh.exe"@ ==> shell_kind_spec(name) == ShellKind::PosixLogin,
        lower_seq(name) == "dash"@ ==> shell_kind_spec(name) == ShellKind::PosixLogin,
        lower_seq(name) == "dash.exe"@ ==> shell_kind_spec(name) == ShellKind::PosixLogin,
        lower_seq(name) == "ksh"@ ==> shell_kind_spec(name) == ShellKind::PosixLogin,
        lower_seq(name) == "ksh.exe"@ ==> shell_kind_spec(name) == ShellKind::PosixLogin,
        shell_kind_spec(name) == ShellKind::PosixLogin ==> (lower_seq(name) == "sh"@
            || lower_seq(name) == "sh.exe"@
            || lower_seq(name) == "bash"@
            || lower_seq(name) == "bash.exe"@
            || lower_seq(name) == "zsh"@
            || lower_seq(name) == "zsh.exe"@
            || lower_seq(name) == "dash"@
            || lower_seq(name) == "dash.exe"@
            || lower_seq(name) == "ksh"@
            || lower_seq(name) == "ksh.exe"@),
        shell_kind_spec(name) == ShellKind::PosixLogin ==> shell_args_spec(shell_kind_spec(name), command) == seq![
            "-lc"@,
            command,
        ],
        shell_kind_spec(name) == ShellKind::Command ==> shell_args_spec(shell_kind_spec(name), command) == seq![
            "-c"@,
            command,
        ],
        shell_kind_spec(name) == ShellKind::Cmd ==> shell_args_spec(shell_kind_spec(name), command) == seq![
            "/D"@,
            "/C"@,
            command,
        ],
        shell_kind_spec(name) == ShellKind::PowerShell ==> shell_args_spec(shell_kind_spec(name), command) == seq![
            "-NoLogo"@,
            "-NoProfile"@,
            "-Command"@,
            command,
        ],
{
    reveal_strlit("cmd");
    reveal_strlit("cmd.exe");
    reveal_strlit("pwsh");
    reveal_strlit("pwsh.exe");
    reveal_strlit("powershell");
    reveal_strlit("powershell.exe");
    reveal_strlit("sh");
    reveal_strlit("sh.exe");
    reveal_strlit("bash");
    reveal_strlit("bash.exe");
    reveal_strlit("zsh");
    reveal_strlit("zsh.exe");
    reveal_strlit("dash");
    reveal_strlit("dash.exe");
    reveal_strlit("ksh");
    reveal_strlit("ksh.exe");
    assert("pwsh"@ != "cmd"@) by { assert("pwsh"@.len() != "cmd"@.len()); }
    assert("pwsh"@ != "cmd.exe"@) by { assert("pwsh"@.len() != "cmd.exe"@.len()); }
    assert("pwsh.exe"@ != "cmd"@) by { assert("pwsh.exe"@.len() != "cmd"@.len()); }
    assert("pwsh.exe"@ != "cmd.exe"@) by { assert("pwsh.exe"@.len() != "cmd.exe"@.len()); }
    assert("powershell"@ != "cmd"@) by { assert("powershell"@.len() != "cmd"@.len()); }
    assert("powershell"@ != "cmd.exe"@) by { assert("powershell"@.len() != "cmd.exe"@.len()); }
    assert("powershell.exe"@ != "cmd"@) by { assert("powershell.exe"@.len() != "cmd"@.len()); }
    assert("powershell.exe"@ != "cmd.exe"@) by { assert("powershell.exe"@.len() != "cmd.exe"@.len()); }
    assert("sh"@ != "cmd"@) by { assert("sh"@.len() != "cmd"@.len()); }
    assert("sh"@ != "cmd.exe"@) by { assert("sh"@.len() != "cmd.exe"@.len()); }
    assert("sh"@ != "pwsh"@) by { assert("sh"@.len() != "pwsh"@.len()); }
    assert("sh"@ != "pwsh.exe"@) by { assert("sh"@.len() != "pwsh.exe"@.len()); }
    assert("sh"@ != "powershell"@) by { assert("sh"@.len() != "powershell"@.len()); }
    assert("sh"@ != "powershell.exe"@) by { assert("sh"@.len() != "powershell.exe"@.len()); }
    assert("sh.exe"@ != "cmd"@) by { assert("sh.exe"@.len() != "cmd"@.len()); }
    assert("sh.exe"@ != "cmd.exe"@) by { assert("sh.exe"@.len() != "cmd.exe"@.len()); }
    assert("sh.exe"@ != "pwsh"@) by { assert("sh.exe"@.len() != "pwsh"@.len()); }
    assert("sh.exe"@ != "pwsh.exe"@) by { assert("sh.exe"@.len() != "pwsh.exe"@.len()); }
    assert("sh.exe"@ != "powershell"@) by { assert("sh.exe"@.len() != "powershell"@.len()); }
    assert("sh.exe"@ != "powershell.exe"@) by { assert("sh.exe"@.len() != "powershell.exe"@.len()); }
    assert("bash"@ != "cmd"@) by { assert("bash"@.len() != "cmd"@.len()); }
    assert("bash"@ != "cmd.exe"@) by { assert("bash"@.len() != "cmd.exe"@.len()); }
    assert("bash"@ != "pwsh"@) by { assert("bash"@[0] != "pwsh"@[0]); }
    assert("bash"@ != "pwsh.exe"@) by { assert("bash"@.len() != "pwsh.exe"@.len()); }
    assert("bash"@ != "powershell"@) by { assert("bash"@.len() != "powershell"@.len()); }
    assert("bash"@ != "powershell.exe"@) by { assert("bash"@.len() != "powershell.exe"@.len()); }
    assert("bash.exe"@ != "cmd"@) by { assert("bash.exe"@.len() != "cmd"@.len()); }
    assert("bash.exe"@ != "cmd.exe"@) by { assert("bash.exe"@.len() != "cmd.exe"@.len()); }
    assert("bash.exe"@ != "pwsh"@) by { assert("bash.exe"@.len() != "pwsh"@.len()); }
    assert("bash.exe"@ != "pwsh.exe"@) by { assert("bash.exe"@[0] != "pwsh.exe"@[0]); }
    assert("bash.exe"@ != "powershell"@) by { assert("bash.exe"@.len() != "powershell"@.len()); }
    assert("bash.exe"@ != "powershell.exe"@) by { assert("bash.exe"@.len() != "powershell.exe"@.len()); }
    assert("zsh"@ != "cmd"@) by { assert("zsh"@[0] != "cmd"@[0]); }
    assert("zsh"@ != "cmd.exe"@) by { assert("zsh"@.len() != "cmd.exe"@.len()); }
    assert("zsh"@ != "pwsh"@) by { assert("zsh"@.len() != "pwsh"@.len()); }
    assert("zsh"@ != "pwsh.exe"@) by { assert("zsh"@.len() != "pwsh.exe"@.len()); }
    assert("zsh"@ != "powershell"@) by { assert("zsh"@.len() != "powershell"@.len()); }
    assert("zsh"@ != "powershell.exe"@) by { assert("zsh"@.len() != "powershell.exe"@.len()); }
    assert("zsh.exe"@ != "cmd"@) by { assert("zsh.exe"@.len() != "cmd"@.len()); }
    assert("zsh.exe"@ != "cmd.exe"@) by { assert("zsh.exe"@[0] != "cmd.exe"@[0]); }
    assert("zsh.exe"@ != "pwsh"@) by { assert("zsh.exe"@.len() != "pwsh"@.len()); }
    assert("zsh.exe"@ != "pwsh.exe"@) by { assert("zsh.exe"@.len() != "pwsh.exe"@.len()); }
    assert("zsh.exe"@ != "powershell"@) by { assert("zsh.exe"@.len() != "powershell"@.len()); }
    assert("zsh.exe"@ != "powershell.exe"@) by { assert("zsh.exe"@.len() != "powershell.exe"@.len()); }
    assert("dash"@ != "cmd"@) by { assert("dash"@.len() != "cmd"@.len()); }
    assert("dash"@ != "cmd.exe"@) by { assert("dash"@.len() != "cmd.exe"@.len()); }
    assert("dash"@ != "pwsh"@) by { assert("dash"@[0] != "pwsh"@[0]); }
    assert("dash"@ != "pwsh.exe"@) by { assert("dash"@.len() != "pwsh.exe"@.len()); }
    assert("dash"@ != "powershell"@) by { assert("dash"@.len() != "powershell"@.len()); }
    assert("dash"@ != "powershell.exe"@) by { assert("dash"@.len() != "powershell.exe"@.len()); }
    assert("dash.exe"@ != "cmd"@) by { assert("dash.exe"@.len() != "cmd"@.len()); }
    assert("dash.exe"@ != "cmd.exe"@) by { assert("dash.exe"@.len() != "cmd.exe"@.len()); }
    assert("dash.exe"@ != "pwsh"@) by { assert("dash.exe"@.len() != "pwsh"@.len()); }
    assert("dash.exe"@ != "pwsh.exe"@) by { assert("dash.exe"@[0] != "pwsh.exe"@[0]); }
    assert("dash.exe"@ != "powershell"@) by { assert("dash.exe"@.len() != "powershell"@.len()); }
    assert("dash.exe"@ != "powershell.exe"@) by { assert("dash.exe"@.len() != "powershell.exe"@.len()); }
    assert("ksh"@ != "cmd"@) by { assert("ksh"@[0] != "cmd"@[0]); }
    assert("ksh"@ != "cmd.exe"@) by { assert("ksh"@.len() != "cmd.exe"@.len()); }
    assert("ksh"@ != "pwsh"@) by { assert("ksh"@.len() != "pwsh"@.len()); }
    assert("ksh"@ != "pwsh.exe"@) by { assert("ksh"@.len() != "pwsh.exe"@.len()); }
    assert("ksh"@ != "powershell"@) by { assert("ksh"@.len() != "powershell"@.len()); }
    assert("ksh"@ != "powershell.exe"@) by { assert("ksh"@.len() != "powershell.exe"@.len()); }
    assert("ksh.exe"@ != "cmd"@) by { assert("ksh.exe"@.len() != "cmd"@.len()); }
    assert("ksh.exe"@ != "cmd.exe"@) by { assert("ksh.exe"@[0] != "cmd.exe"@[0]); }
    assert("ksh.exe"@ != "pwsh"@) by { assert("ksh.exe"@.len() != "pwsh"@.len()); }
    assert("ksh.exe"@ != "pwsh.exe"@) by { assert("ksh.exe"@.len() != "pwsh.exe"@.len()); }
    assert("ksh.exe"@ != "powershell"@) by { assert("ksh.exe"@.len() != "powershell"@.len()); }
    assert("ksh.exe"@ != "powershell.exe"@) by { assert("ksh.exe"@.len() != "powershell.exe"@.len()); }
}

/// The flavour of the shell called `name` (case-insensitive).
pub fn shell_kind(name: &str) -> (r: ShellKind)
    ensures
        r == shell_kind_spec(name@),
{
    let lower = to_ascii_lower(name);
    if chars_eq_str(&lower, "cmd") || chars_eq_str(&lower, "cmd.exe") {
        ShellKind::Cmd
    } else if chars_eq_str(&lower, "pwsh") || chars_eq_str(&lower, "pwsh.exe") || chars_eq_str(&lower, "powershell")
        || chars_eq_str(&lower, "powershell.exe") {
        ShellKind::PowerShell
    } else if chars_eq_str(&lower, "sh") || chars_eq_str(&lower, "sh.exe") || chars_eq_str(&lower, "bash")
        || chars_eq_str(&lower, "bash.exe") || chars_eq_str(&lower, "zsh") || chars_eq_str(&lower, "zsh.exe")
        || chars_eq_str(&lower, "dash") || chars_eq_str(&lower, "dash.exe") || chars_eq_str(&lower, "ksh")
        || chars_eq_str(&lower, "ksh.exe") {
        ShellKind::PosixLogin
    } else {
        ShellKind::Command
    }
}

pub open spec fn shell_args_spec(kind: ShellKind, command: Seq<char>) -> Seq<Seq<char>> {
    match kind {
        ShellKind::PosixLogin => seq!["-lc"@, command],
        ShellKind::Command => seq!["-c"@, command],
        ShellKind::Cmd => seq!["/D"@, "/C"@, command],
        ShellKind::PowerShell => seq!["-NoLogo"@, "-NoProfile"@, "-Command"@, command],
    }
}

/// The arguments that make a shell of flavour `kind` run `command`.
pub fn shell_args(kind: ShellKind, command: &str) -> (r: Vec<String>)
    ensures
        crate::text::string_views(r@) == shell_args_spec(kind, command@),
{
    let mut v: Vec<String> = Vec::new();
    match kind {
        ShellKind::PosixLogin => {
            v.push(str_to_string("-lc"));
        },
        ShellKind::Command => {
            v.push(str_to_string("-c"));
        },
        ShellKind::Cmd => {
            v.push(str_to_string("/D"));
            v.push(str_to_string("/C"));
        },
        ShellKind::PowerShell => {
            v.push(str_to_string("-NoLogo"));
            v.push(str_to_string("-NoProfile"));
            v.push(str_to_string("-Command"));
        },
    }
    v.push(str_to_string(command));
    assert(crate::text::string_views(v@) =~= shell_args_spec(kind, command@));
    v
}

/// A command run, its optional fields filled in.
#[derive(Debug)]
pub struct ShellRunSpec {
    pub command: String,
    pub cwd: Option<String>,
    pub env: Vec<(String, String)>,
    pub input: Option<String>,
    pub timeout_ms: Option<u64>,
    pub max_output_bytes: usize,
    pub ansi: bool,
}

/// The fields of a run table as given; each may be missing.
#[derive(Debug)]
pub struct RawShellRun {
    pub command: Option<String>,
    pub cwd: Option<String>,
    pub env: Vec<(String, String)>,
    pub input: Option<String>,
    pub timeout_ms: Option<u64>,
    pub max_output_bytes: Option<u64>,
    pub ansi: Option<bool>,
}

/// What `shell.run` was handed.
#[derive(Debug)]
pub enum RawShellRunValue {
    Command(String),
    Table(RawShellRun),
    Other,
}

/// `n` held between the least and the most output a run keeps.
pub open spec fn clamp_output(n: usize) -> usize {
    if n < MIN_OUTPUT_LIMIT {
        MIN_OUTPUT_LIMIT
    } else if n > MAX_OUTPUT_LIMIT {
        MAX_OUTPUT_LIMIT
    } else {
        n
    }
}

pub open spec fn non_empty(o: Option<String>) -> Option<String> {
    match o {
        Some(s) => if s@.len() > 0 { Some(s) } else { None },
        None => None,
    }
}

/// Read a run request: a bare command runs with defaults (no cwd, env,
/// input or timeout, the default output limit, ANSI colours on); a table
/// must name its command, drops an empty cwd and a zero timeout, and
/// holds its output limit between the least and the most allowed. Any
/// other value, and a command of only whitespace, is refused.
pub fn parse_run_spec(value: RawShellRunValue) -> (r: Result<ShellRunSpec, String>)
    ensures
        match value {
            RawShellRunValue::Command(c) => match r {
                Ok(spec) => {
                    &&& !blank(c@)
                    &&& spec.command@ == c@
                    &&& spec.cwd is None
                    &&& spec.env@.len() == 0
                    &&& spec.input is None
                    &&& spec.timeout_ms is None
                    &&& spec.max_output_bytes == DEFAULT_OUTPUT_LIMIT
                    &&& spec.ansi
                },
                Err(e) => blank(c@) && e@ == "shell.run command must not be empty"@,
            },
            RawShellRunValue::Table(t) => match t.command {
                None => r matches Err(e) && e@ == "shell.run spec requires command"@,
                Some(c) => match r {
                    Ok(spec) => {
                        &&& !blank(c@)
                        &&& spec.command == c
                        &&& spec.cwd == non_empty(t.cwd)
                        &&& spec.env == t.env
                        &&& spec.input == t.input
                        &&& spec.timeout_ms == (match t.timeout_ms {
                            Some(ms) => if ms > 0 { Some(ms) } else { None },
                            None => None,
                        })
                        &&& spec.max_output_bytes == clamp_output(match t.max_output_bytes {
                            Some(n) => n as usize,
                            None => DEFAULT_OUTPUT_LIMIT,
                        })
                        &&& spec.ansi == (match t.ansi {
                            Some(a) => a,
                            None => true,
                        })
                    },
                    Err(e) => blank(c@) && e@ == "shell.run command must not be empty"@,
                },
            },
            RawShellRunValue::Other => r matches Err(e) && e@ == "shell.run expects a command string or spec table"@,
        },
{
    let spec = match value {
        RawShellRunValue::Command(command) => ShellRunSpec {
            command,
            cwd: None,
            env: Vec::new(),
            input: None,
            timeout_ms: None,
            max_output_bytes: DEFAULT_OUTPUT_LIMIT,
            ansi: true,
        },
        RawShellRunValue::Table(t) => {
            let command = match t.command {
                Some(c) => c,
                None => return Err(str_to_string("shell.run spec requires command")),
            };
            let cwd = match t.cwd {
                Some(c) => if chars_of(c.as_str()).len() > 0 { Some(c) } else { None },
                None => None,
            };
            let timeout_ms = match t.timeout_ms {
                Some(ms) => if ms > 0 { Some(ms) } else { None },
                None => None,
            };
            let limit: usize = match t.max_output_bytes {
                Some(n) => n as usize,
                None => DEFAULT_OUTPUT_LIMIT,
            };
            let max_output_bytes = if limit < MIN_OUTPUT_LIMIT {
                MIN_OUTPUT_LIMIT
            } else if limit > MAX_OUTPUT_LIMIT {
                MAX_OUTPUT_LIMIT
            } else {
                limit
            };
            let ansi = match t.ansi {
                Some(a) => a,
                None => true,
            };
            ShellRunSpec { command, cwd, env: t.env, input: t.input, timeout_ms, max_output_bytes, ansi }
        },
        RawShellRunValue::Other => {
            return Err(str_to_string("shell.run expects a command string or spec table"));
        },
    };
    if is_blank(spec.command.as_str()) {
        Err(str_to_string("shell.run command must not be empty"))
    } else {
        Ok(spec)
    }
}

/// An interactive shell request, its optional fields filled in.
#[derive(Debug)]
pub struct ShellOpenSpec {
    pub cwd: Option<String>,
    pub env: Vec<(String, String)>,
    pub rows: Option<u16>,
    pub cols: Option<u16>,
}

/// What `shell.open` was handed.
#[derive(Debug)]
pub enum RawShellOpenValue {
    Nil,
    Table { cwd: Option<String>, env: Vec<(String, String)>, rows: Option<u16>, cols: Option<u16> },
    Other,
}

pub open spec fn positive(o: Option<u16>) -> Option<u16> {
    match o {
        Some(n) => if n > 0 { Some(n) } else { None },
        None => None,
    }
}

/// Read an open request: nothing means defaults; a table drops an empty
/// cwd and zero sizes; any other value is refused.
pub fn parse_open_spec(value: RawShellOpenValue) -> (r: Result<ShellOpenSpec, String>)
    ensures
        match value {
            RawShellOpenValue::Nil => r matches Ok(s) && s.cwd is None && s.env@.len() == 0 && s.rows is None && s.cols is None,
            RawShellOpenValue::Table { cwd, env, rows, cols } => r matches Ok(s) && s.cwd == non_empty(cwd) && s.env == env
                && s.rows == positive(rows) && s.cols == positive(cols),
            RawShellOpenValue::Other => r matches Err(e) && e@ == "shell.open expects nil or a spec table"@,
        },
{
    match value {
        RawShellOpenValue::Nil => Ok(ShellOpenSpec { cwd: None, env: Vec::new(), rows: None, cols: None }),
        RawShellOpenValue::Table { cwd, env, rows, cols } => {
            let cwd = match cwd {
                Some(c) => if chars_of(c.as_str()).len() > 0 { Some(c) } else { None },
                None => None,
            };
            let rows = match rows {
                Some(n) => if n > 0 { Some(n) } else { None },
                None => None,
            };
            let cols = match cols {
                Some(n) => if n > 0 { Some(n) } else { None },
                None => None,
            };
            Ok(ShellOpenSpec { cwd, env, rows, cols })
        },
        RawShellOpenValue::Other => Err(str_to_string("shell.open expects nil or a spec table")),
    }
}

/// The capabilities any one of which lets a plugin spawn `executable`:
/// `process:spawn`, `process:spawn:<file name>`, and
/// `process:spawn:<file stem>` when the stem differs from the name.
pub open spec fn spawn_caps_spec(executable: Seq<char>) -> Seq<Seq<char>> {
    match file_name_spec(executable) {
        None => seq!["process:spawn"@],
        Some(name) => {
            let with_name = seq!["process:spawn"@, "process:spawn:"@ + name];
            match file_name_spec(name) {
                Some(n2) => if stem_spec(n2) != name { with_name.push("process:spawn:"@ + stem_spec(n2)) } else { with_name },
                None => with_name,
            }
        },
    }
}

pub fn process_spawn_caps(executable: &str) -> (r: Vec<String>)
    ensures
        crate::text::string_views(r@) == spawn_caps_spec(executable@),
{
    let mut caps: Vec<String> = Vec::new();
    caps.push(str_to_string("process:spawn"));
    match basename(executable) {
        Some(name) => {
            caps.push(str_concat("process:spawn:", name.as_str()));
            match stem(name.as_str()) {
                Some(st) => {
                    if !str_eq(st.as_str(), name.as_str()) {
                        caps.push(str_concat("process:spawn:", st.as_str()));
                    }
                },
                None => {},
            }
        },
        None => {},
    }
    assert(crate::text::string_views(caps@) =~= spawn_caps_spec(executable@));
    caps
}

/// How to find the program a shell name refers to.
#[derive(Debug, Clone, Copy, PartialEq, Eq, Structural)]
pub enum ExecutableLookup {
    /// Nothing to look for (an empty name).
    Nothing,
    /// A path with more than one component: use it if it is a file.
    UsePath,
    /// A bare name: search the directories of `PATH`.
    SearchPath,
}

/// How to find the program `raw` names.
pub fn executable_lookup(raw: &str) -> (r: ExecutableLookup)
    ensures
        r == (if raw@.len() == 0 {
            ExecutableLookup::Nothing
        } else if components(raw@).len() > 1 {
            ExecutableLookup::UsePath
        } else {
            ExecutableLookup::SearchPath
        }),
{
    let v = chars_of(raw);
    if v.len() == 0 {
        return ExecutableLookup::Nothing;
    }
    let cs = crate::paths::components_of(&v);
    assert(cs@.map_values(crate::paths::comp_view_fn()).len() == cs@.len());
    if cs.len() > 1 {
        ExecutableLookup::UsePath
    } else {
        ExecutableLookup::SearchPath
    }
}


/// The `status` word of a finished run.
pub open spec fn run_status_spec(success: bool, timed_out: bool) -> Seq<char> {
    if timed_out {
        "timed_out"@
    } else if success {
        "success"@
    } else {
        "failed"@
    }
}

/// Standard output followed by standard error.
pub open spec fn combined_spec(stdout: Seq<char>, stderr: Seq<char>) -> Seq<char> {
    stdout + stderr
}

/// `v` is a string value holding `s`.
pub open spec fn is_str(v: Option<JsonValue>, s: Seq<char>) -> bool {
    v matches Some(JsonValue::Str(x)) && x@ == s
}

/// `v` is a boolean value holding `b`.
pub open spec fn is_bool(v: Option<JsonValue>, b: bool) -> bool {
    v matches Some(JsonValue::Bool(x)) && x == b
}

/// The table a finished `run` hands back to the plugin. `exited_ok` is
/// whether the process exited successfully; a run that timed out is
/// never a success. `combined` is stdout then stderr.
pub fn run_result(
    shell: &str,
    command: &str,
    cwd: &str,
    exit_code: Option<i32>,
    exited_ok: bool,
    timed_out: bool,
    stdout: &str,
    stderr: &str,
) -> (r: JsonValue)
    ensures
        r matches JsonValue::Object(m) && {
            let success = exited_ok && !timed_out;
            &&& m@.len() == 10
            &&& is_str(object_get(m@, "shell"@), shell@)
            &&& is_str(object_get(m@, "command"@), command@)
            &&& is_str(object_get(m@, "cwd"@), cwd@)
            &&& is_bool(object_get(m@, "success"@), success)
            &&& is_str(object_get(m@, "status"@), run_status_spec(success, timed_out))
            &&& match exit_code {
                Some(c) => object_get(m@, "exit_code"@) == Some(JsonValue::Integer(c as i128)),
                None => object_get(m@, "exit_code"@) == Some(JsonValue::Null),
            }
            &&& is_str(object_get(m@, "stdout"@), stdout@)
            &&& is_str(object_get(m@, "stderr"@), stderr@)
            &&& is_str(object_get(m@, "combined"@), combined_spec(stdout@, stderr@))
            &&& is_bool(object_get(m@, "timed_out"@), timed_out)
        },
{
    let success = exited_ok && !timed_out;
    let status = if timed_out {
        "timed_out"
    } else if success {
        "success"
    } else {
        "failed"
    };
    let code = match exit_code {
        Some(c) => JsonValue::Integer(c as i128),
        None => JsonValue::Null,
    };
    let mut m: Vec<(String, JsonValue)> = Vec::new();
    m.push((str_to_string("shell"), JsonValue::Str(str_to_string(shell))));
    m.push((str_to_string("command"), JsonValue::Str(str_to_string(command))));
    m.push((str_to_string("cwd"), JsonValue::Str(str_to_string(cwd))));
    m.push((str_to_string("success"), JsonValue::Bool(success)));
    m.push((str_to_string("status"), JsonValue::Str(str_to_string(status))));
    m.push((str_to_string("exit_code"), code));
    m.push((str_to_string("stdout"), JsonValue::Str(str_to_string(stdout))));
    m.push((str_to_string("stderr"), JsonValue::Str(str_to_string(stderr))));
    m.push((str_to_string("combined"), JsonValue::Str(str_concat(stdout, stderr))));
    m.push((str_to_string("timed_out"), JsonValue::Bool(timed_out)));
    proof {
        reveal_strlit("shell");
        reveal_strlit("command");
        reveal_strlit("cwd");
        reveal_strlit("success");
        reveal_strlit("status");
        reveal_strlit("exit_code");
        reveal_strlit("stdout");
        reveal_strlit("stderr");
        reveal_strlit("combined");
        reveal_strlit("timed_out");
        reveal_strlit("failed");
        let s = m@;
        assert(s[0].0@ == "shell"@);
        assert(s[1].0@ == "command"@);
        assert(s[2].0@ == "cwd"@);
        assert(s[3].0@ == "success"@);
        assert(s[4].0@ == "status"@);
        assert(s[5].0@ == "exit_code"@);
        assert(s[6].0@ == "stdout"@);
        assert(s[7].0@ == "stderr"@);
        assert(s[8].0@ == "combined"@);
        assert(s[9].0@ == "timed_out"@);
        assert("success"@[0] != "command"@[0]);
        assert("stdout"@[2] != "status"@[2]);
        assert("stderr"@[2] != "status"@[2]);
        assert("stderr"@[3] != "stdout"@[3]);
        assert("timed_out"@[0] != "exit_code"@[0]);
        lemma_object_get_at(s, "shell"@, 0);
        lemma_object_get_at(s, "command"@, 1);
        lemma_object_get_at(s, "cwd"@, 2);
        lemma_object_get_at(s, "success"@, 3);
        lemma_object_get_at(s, "status"@, 4);
        lemma_object_get_at(s, "exit_code"@, 5);
        lemma_object_get_at(s, "stdout"@, 6);
        lemma_object_get_at(s, "stderr"@, 7);
        lemma_object_get_at(s, "combined"@, 8);
        lemma_object_get_at(s, "timed_out"@, 9);
    }
    JsonValue::Object(m)
}

/// Append to `out` as much of `chunk` as keeps it within `max_bytes`
/// (what one read of a child's output stream keeps).
pub fn append_limited(out: &mut Vec<u8>, chunk: &[u8], max_bytes: usize)
    ensures
        final(out)@ == old(out)@ + chunk@.take(
            if old(out)@.len() >= max_bytes { 0int }
            else if chunk@.len() <= max_bytes - old(out)@.len() { chunk@.len() as int }
            else { max_bytes - old(out)@.len() },
        ),
{
    let remaining: usize = if out.len() >= max_bytes { 0 } else { max_bytes - out.len() };
    let take: usize = if chunk.len() <= remaining { chunk.len() } else { remaining };
    let ghost start = out@;
    let mut i: usize = 0;
    while i < take
        invariant
            i <= take,
            take <= chunk@.len(),
            out@ == start + chunk@.take(i as int),
        decreases take - i,
    {
        out.push(chunk[i]);
        i += 1;
        assert(chunk@.take(i as int) =~= chunk@.take(i - 1).push(chunk@[i - 1]));
    }
}

/// What a running command's wait loop does next.
#[derive(Debug, Clone, Copy, PartialEq, Eq, Structural)]
pub enum WaitStep {
    /// Kill the process and report the job cancelled.
    Cancel,
    /// Kill the process and finish as timed out.
    TimeOut,
    /// Look whether the process has exited, then wait a little.
    Poll,
}

/// The next step of the wait loop: a cancellation is honoured first, then
/// the timeout once `elapsed_ms` has reached it, otherwise poll again.
pub fn wait_step(cancelled: bool, elapsed_ms: u128, timeout_ms: Option<u64>) -> (r: WaitStep)
    ensures
        cancelled ==> r == WaitStep::Cancel,
        !cancelled ==> r == match timeout_ms {
            Some(t) => if elapsed_ms >= t { WaitStep::TimeOut } else { WaitStep::Poll },
            None => WaitStep::Poll,
        },
{
    if cancelled {
        return WaitStep::Cancel;
    }
    match timeout_ms {
        Some(t) => if elapsed_ms >= t as u128 {
            WaitStep::TimeOut
        } else {
            WaitStep::Poll
        },
        None => WaitStep::Poll,
    }
}

/// The variables that ask a command for colour output.
pub open spec fn color_env_spec() -> Seq<(Seq<char>, Seq<char>)> {
    seq![
        ("TERM"@, "xterm-256color"@),
        ("COLORTERM"@, "truecolor"@),
        ("CLICOLOR"@, "1"@),
        ("CLICOLOR_FORCE"@, "1"@),
        ("FORCE_COLOR"@, "1"@),
    ]
}

pub open spec fn env_views(s: Seq<(String, String)>) -> Seq<(Seq<char>, Seq<char>)> {
    s.map_values(|e: (String, String)| (e.0@, e.1@))
}

/// The environment set before the caller's own variables: the colour
/// variables when `ansi` output is asked for, none otherwise.
pub fn color_env(ansi: bool) -> (r: Vec<(String, String)>)
    ensures
        env_views(r@) == if ansi { color_env_spec() } else { Seq::empty() },
{
    let mut out: Vec<(String, String)> = Vec::new();
    if ansi {
        out.push((str_to_string("TERM"), str_to_string("xterm-256color")));
        out.push((str_to_string("COLORTERM"), str_to_string("truecolor")));
        out.push((str_to_string("CLICOLOR"), str_to_string("1")));
        out.push((str_to_string("CLICOLOR_FORCE"), str_to_string("1")));
        out.push((str_to_string("FORCE_COLOR"), str_to_string("1")));
    }
    assert(env_views(out@) =~= if ansi { color_env_spec() } else { Seq::empty() });
    out
}

} // verus!
