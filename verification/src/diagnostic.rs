//! Plugin diagnostics: what the host reports about a plugin (a command
//! registered, a call rejected, a body failing), kept in arrival order.

use vstd::prelude::*;
use crate::json::{JsonValue, JsonV, json_view, opt_json_view};

verus! {

#[derive(Debug, Clone, Copy, PartialEq, Eq, Structural)]
pub enum DiagnosticSeverity {
    Info,
    Warning,
    Error,
}

/// Where a diagnostic points: an API function (such as `command:<name>`)
/// or a key of a plugin's manifest file.
#[derive(Debug)]
pub enum SourceSpan {
    ApiFunction { name: String },
    Manifest { path: String, key: Option<String> },
}

pub enum SourceSpanV {
    ApiFunction(Seq<char>),
    Manifest(Seq<char>, Option<Seq<char>>),
}

impl View for SourceSpan {
    type V = SourceSpanV;

    open spec fn view(&self) -> SourceSpanV {
        match self {
            SourceSpan::ApiFunction { name } => SourceSpanV::ApiFunction(name@),
            SourceSpan::Manifest { path, key } => SourceSpanV::Manifest(path@, crate::text::opt_str_view(*key)),
        }
    }
}

pub open spec fn opt_span_view(o: Option<SourceSpan>) -> Option<SourceSpanV> {
    match o {
        Some(s) => Some(s@),
        None => None,
    }
}

impl SourceSpan {
    pub fn duplicate(&self) -> (r: Self)
        ensures
            r@ == self@,
    {
        match self {
            SourceSpan::ApiFunction { name } => SourceSpan::ApiFunction { name: name.clone() },
            SourceSpan::Manifest { path, key } => SourceSpan::Manifest {
                path: path.clone(),
                key: crate::text::clone_opt_string(key),
            },
        }
    }
}

/// One diagnostic, attributed to a plugin (or to `<host>`).
#[derive(Debug)]
pub struct PluginDiagnostic {
    pub plugin_id: String,
    pub severity: DiagnosticSeverity,
    /// Stable machine-readable code such as `command.not_found`.
    pub code: String,
    pub message: String,
    pub generation_id: Option<u64>,
    /// What the diagnostic points at.
    pub source: Option<SourceSpan>,
    /// Structured detail: the names and values the message is built from.
    pub context: Option<JsonValue>,
}

pub struct DiagnosticView {
    pub plugin_id: Seq<char>,
    pub severity: DiagnosticSeverity,
    pub code: Seq<char>,
    pub message: Seq<char>,
    pub generation_id: Option<u64>,
    pub source: Option<SourceSpanV>,
    pub context: Option<JsonV>,
}

impl View for PluginDiagnostic {
    type V = DiagnosticView;

    open spec fn view(&self) -> DiagnosticView {
        DiagnosticView {
            plugin_id: self.plugin_id@,
            severity: self.severity,
            code: self.code@,
            message: self.message@,
            generation_id: self.generation_id,
            source: opt_span_view(self.source),
            context: opt_json_view(self.context),
        }
    }
}

impl PluginDiagnostic {
    pub fn new(plugin_id: String, severity: DiagnosticSeverity, code: &str, message: String) -> (r: Self)
        ensures
            r@ == (DiagnosticView {
                plugin_id: plugin_id@,
                severity,
                code: code@,
                message: message@,
                generation_id: None,
                source: None,
                context: None,
            }),
    {
        PluginDiagnostic {
            plugin_id,
            severity,
            code: code.to_owned(),
            message,
            generation_id: None,
            source: None,
            context: None,
        }
    }

    /// The same diagnostic, pointing at `source`.
    pub fn with_source(self, source: SourceSpan) -> (r: Self)
        ensures
            r@ == (DiagnosticView { source: Some(source@), ..self@ }),
    {
        PluginDiagnostic { source: Some(source), ..self }
    }

    /// The same diagnostic, with structured detail.
    pub fn with_context(self, context: JsonValue) -> (r: Self)
        ensures
            r@ == (DiagnosticView { context: Some(json_view(context)), ..self@ }),
    {
        PluginDiagnostic { context: Some(context), ..self }
    }

    /// The same diagnostic, tagged with the plugin generation it concerns.
    pub fn with_generation(self, generation_id: u64) -> (r: Self)
        ensures
            r@ == (DiagnosticView { generation_id: Some(generation_id), ..self@ }),
    {
        PluginDiagnostic { generation_id: Some(generation_id), ..self }
    }

    pub fn duplicate(&self) -> (r: Self)
        ensures
            r@ == self@,
    {
        PluginDiagnostic {
            plugin_id: self.plugin_id.clone(),
            severity: self.severity,
            code: self.code.clone(),
            message: self.message.clone(),
            generation_id: self.generation_id,
            source: match &self.source {
                Some(s) => Some(s.duplicate()),
                None => None,
            },
            context: match &self.context {
                Some(c) => Some(c.duplicate()),
                None => None,
            },
        }
    }
}

pub open spec fn diagnostic_views(s: Seq<PluginDiagnostic>) -> Seq<DiagnosticView> {
    s.map_values(|d: PluginDiagnostic| d@)
}

/// The codes of a run of diagnostics, in order.
pub open spec fn diagnostic_codes(s: Seq<DiagnosticView>) -> Seq<Seq<char>> {
    s.map_values(|d: DiagnosticView| d.code)
}

/// Diagnostics recorded so far, oldest first.
pub struct DiagnosticStore {
    entries: Vec<PluginDiagnostic>,
}

impl DiagnosticStore {
    pub closed spec fn log(&self) -> Seq<DiagnosticView> {
        diagnostic_views(self.entries@)
    }

    pub fn new() -> (r: Self)
        ensures
            r.log() == Seq::<DiagnosticView>::empty(),
    {
        let r = DiagnosticStore { entries: Vec::new() };
        assert(r.log() =~= Seq::<DiagnosticView>::empty());
        r
    }

    pub fn record(&mut self, diagnostic: PluginDiagnostic)
        ensures
            final(self).log() == old(self).log().push(diagnostic@),
    {
        self.entries.push(diagnostic);
        assert(self.log() =~= old(self).log().push(diagnostic@));
    }

    pub fn len(&self) -> (r: usize)
        ensures
            r == self.log().len(),
    {
        self.entries.len()
    }

    /// Copies of the last `n` diagnostics (all of them when there are
    /// fewer), oldest first.
    pub fn tail(&self, n: usize) -> (r: Vec<PluginDiagnostic>)
        ensures
            diagnostic_views(r@) == (if n >= self.log().len() {
                self.log()
            } else {
                self.log().subrange(self.log().len() - n, self.log().len() as int)
            }),
    {
        let len = self.entries.len();
        let start: usize = if n >= len { 0 } else { len - n };
        let mut out: Vec<PluginDiagnostic> = Vec::new();
        let mut i: usize = start;
        while i < len
            invariant
                start <= i <= len,
                len == self.entries.len(),
                diagnostic_views(out@) == diagnostic_views(self.entries@.subrange(start as int, i as int)),
            decreases len - i,
        {
            out.push(self.entries[i].duplicate());
            assert(diagnostic_views(self.entries@.subrange(start as int, i + 1)) =~= diagnostic_views(
                self.entries@.subrange(start as int, i as int),
            ).push(self.entries@[i as int]@));
            assert(diagnostic_views(out@) =~= diagnostic_views(self.entries@.subrange(start as int, i as int)).push(
                self.entries@[i as int]@,
            ));
            i += 1;
        }
        assert(diagnostic_views(self.entries@.subrange(start as int, len as int)) =~= (if n >= self.log().len() {
            self.log()
        } else {
            self.log().subrange(self.log().len() - n, self.log().len() as int)
        }));
        out
    }
}

} // verus!
