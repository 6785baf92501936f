//! The model behind the Rust Compiler panel: the facts kept from
//! `cargo check --message-format=json` output, and the streaming parser that
//! turns cargo's messages into flattened diagnostics with running counts.
//!
//! The JSON text itself is decoded into [`CargoMessage`] by the caller; this
//! module decides what each decoded message contributes.

use vstd::prelude::*;
use crate::text::str_eq;
use std::collections::VecDeque;

verus! {

/// Severity of a flattened diagnostic.
#[derive(Debug, Clone, Copy, PartialEq, Eq, Structural)]
pub enum DiagnosticLevel {
    Error,
    Warning,
    Note,
    Help,
}

/// Lower-case name of a level as rustc prints it.
pub open spec fn diagnostic_level_label(l: DiagnosticLevel) -> Seq<char> {
    match l {
        DiagnosticLevel::Error => "error"@,
        DiagnosticLevel::Warning => "warning"@,
        DiagnosticLevel::Note => "note"@,
        DiagnosticLevel::Help => "help"@,
    }
}

impl DiagnosticLevel {
    /// Lower-case name of the level as rustc prints it.
    pub fn label(self) -> (r: &'static str)
        ensures
            r@ == diagnostic_level_label(self),
    {
        match self {
            DiagnosticLevel::Error => "error",
            DiagnosticLevel::Warning => "warning",
            DiagnosticLevel::Note => "note",
            DiagnosticLevel::Help => "help",
        }
    }
}

/// One flattened diagnostic the UI can render.
#[derive(Debug, Clone)]
pub struct Diagnostic {
    pub level: DiagnosticLevel,
    pub message: String,
    pub file: String,
    pub line: u32,
    /// Pretty rustc-rendered snippet (multi-line).
    pub rendered: String,
}

/// The facts of a diagnostic, as values.
pub struct DiagnosticView {
    pub level: DiagnosticLevel,
    pub message: Seq<char>,
    pub file: Seq<char>,
    pub line: u32,
    pub rendered: Seq<char>,
}

impl Diagnostic {
    /// The facts of this diagnostic.
    pub open spec fn view_of(self) -> DiagnosticView {
        DiagnosticView {
            level: self.level,
            message: self.message@,
            file: self.file@,
            line: self.line,
            rendered: self.rendered@,
        }
    }
}

/// One line of cargo's JSON stream, decoded (absent fields are `None`).
pub struct CargoMessage {
    pub reason: Option<String>,
    pub message: Option<CargoDiag>,
}

/// The compiler diagnostic carried by a `compiler-message`.
pub struct CargoDiag {
    pub level: Option<String>,
    pub message: Option<String>,
    pub rendered: Option<String>,
    pub spans: Option<Vec<CargoSpan>>,
}

/// A source span of a compiler diagnostic.
pub struct CargoSpan {
    pub file_name: Option<String>,
    pub line_start: Option<u32>,
    pub is_primary: Option<bool>,
}

/// The characters of an optional string, empty when absent.
pub open spec fn text_or_empty(s: Option<String>) -> Seq<char> {
    match s {
        Some(t) => t@,
        None => Seq::empty(),
    }
}

/// The level a rustc level string denotes; `None` for levels the panel
/// does not show (or an absent level).
pub open spec fn level_of(level: Option<String>) -> Option<DiagnosticLevel> {
    let s = text_or_empty(level);
    if s == "error"@ || s == "error: internal compiler error"@ || s == "fatal error"@ {
        Some(DiagnosticLevel::Error)
    } else if s == "warning"@ {
        Some(DiagnosticLevel::Warning)
    } else if s == "note"@ {
        Some(DiagnosticLevel::Note)
    } else if s == "help"@ {
        Some(DiagnosticLevel::Help)
    } else {
        None
    }
}

/// Whether a span is marked primary.
pub open spec fn is_primary_span(s: CargoSpan) -> bool {
    s.is_primary == Some(true)
}

/// The spans of a diagnostic (none when the list is absent).
pub open spec fn spans_of(d: CargoDiag) -> Seq<CargoSpan> {
    match d.spans {
        Some(v) => v@,
        None => Seq::empty(),
    }
}

/// Index of the first primary span, if any.
pub open spec fn first_primary(spans: Seq<CargoSpan>) -> Option<int> {
    if exists|i: int| 0 <= i < spans.len() && is_primary_span(#[trigger] spans[i]) {
        Some(choose|i: int| 0 <= i < spans.len() && is_primary_span(#[trigger] spans[i])
            && forall|j: int| 0 <= j < i ==> !is_primary_span(#[trigger] spans[j]))
    } else {
        None
    }
}

/// Whether a span names a file.
pub open spec fn has_file(s: CargoSpan) -> bool {
    s.file_name is Some
}

/// Index of the first span that names a file, if any.
pub open spec fn first_with_file(spans: Seq<CargoSpan>) -> Option<int> {
    if exists|i: int| 0 <= i < spans.len() && has_file(#[trigger] spans[i]) {
        Some(choose|i: int| 0 <= i < spans.len() && has_file(#[trigger] spans[i])
            && forall|j: int| 0 <= j < i ==> !has_file(#[trigger] spans[j]))
    } else {
        None
    }
}

/// The file and line of one span (empty file, line 0 where absent).
pub open spec fn span_location(s: CargoSpan) -> (Seq<char>, u32) {
    (
        text_or_empty(s.file_name),
        match s.line_start {
            Some(l) => l,
            None => 0,
        },
    )
}

/// The file and line a diagnostic points at: those of its first primary
/// span; when no span is primary, those of the first span that names a
/// file; an empty file and line 0 when there is neither.
pub open spec fn location_of(d: CargoDiag) -> (Seq<char>, u32) {
    match first_primary(spans_of(d)) {
        Some(i) => span_location(spans_of(d)[i]),
        None => match first_with_file(spans_of(d)) {
            Some(i) => span_location(spans_of(d)[i]),
            None => (Seq::empty(), 0),
        },
    }
}

/// The flattened diagnostic a compiler diagnostic becomes, if its level is
/// one the panel shows.
pub open spec fn flatten(d: CargoDiag) -> Option<DiagnosticView> {
    match level_of(d.level) {
        Some(level) => Some(
            DiagnosticView {
                level,
                message: text_or_empty(d.message),
                file: location_of(d).0,
                line: location_of(d).1,
                rendered: text_or_empty(d.rendered),
            },
        ),
        None => None,
    }
}

/// The compiler diagnostic a stream line contributes: only lines whose
/// reason is `compiler-message` and that carry a message.
pub open spec fn contributed(m: CargoMessage) -> Option<CargoDiag> {
    if text_or_empty(m.reason) == "compiler-message"@ && m.reason is Some {
        m.message
    } else {
        None
    }
}

/// Number of diagnostics of `level` in `ds`.
pub open spec fn count_level(ds: Seq<DiagnosticView>, level: DiagnosticLevel) -> nat
    decreases ds.len(),
{
    if ds.len() == 0 {
        0
    } else {
        count_level(ds.drop_last(), level) + if ds.last().level == level { 1nat } else { 0nat }
    }
}

/// Streaming parser: feed decoded stdout lines, receive finished diagnostics.
pub struct DiagnosticsParser {
    finished: VecDeque<Diagnostic>,
    error_count: u32,
    warning_count: u32,
    /// Every diagnostic produced since the last reset, in order.
    seen: Ghost<Seq<DiagnosticView>>,
}

impl DiagnosticsParser {
    /// Diagnostics produced and not yet taken, in order.
    pub closed spec fn pending(&self) -> Seq<DiagnosticView> {
        self.finished@.map_values(|d: Diagnostic| d.view_of())
    }

    /// Every diagnostic produced since the parser was created or reset.
    pub closed spec fn history(&self) -> Seq<DiagnosticView> {
        self.seen@
    }

    /// Errors counted since the last reset.
    pub closed spec fn errors(&self) -> nat {
        self.error_count as nat
    }

    /// Warnings counted since the last reset.
    pub closed spec fn warnings(&self) -> nat {
        self.warning_count as nat
    }

    /// The parser's invariant: the counters count the history exactly and
    /// the pending diagnostics are the most recent part of the history.
    pub closed spec fn wf(&self) -> bool {
        &&& self.error_count == count_level(self.seen@, DiagnosticLevel::Error)
        &&& self.warning_count == count_level(self.seen@, DiagnosticLevel::Warning)
        &&& self.finished@.len() <= self.seen@.len()
        &&& forall|i: int| 0 <= i < self.finished@.len() ==>
            (#[trigger] self.finished@[i]).view_of() == self.seen@[self.seen@.len() - self.finished@.len() + i]
    }

    /// The invariant, seen from outside: counters agree with the history
    /// and what is pending is a suffix of the history.
    pub proof fn lemma_wf(&self)
        requires
            self.wf(),
        ensures
            self.errors() == count_level(self.history(), DiagnosticLevel::Error),
            self.warnings() == count_level(self.history(), DiagnosticLevel::Warning),
            self.pending().len() <= self.history().len(),
            self.pending() == self.history().subrange(
                self.history().len() - self.pending().len(),
                self.history().len() as int,
            ),
    {
        assert(self.pending() =~= self.history().subrange(
            self.history().len() - self.pending().len(),
            self.history().len() as int,
        ));
    }

    /// A parser that has seen nothing.
    pub fn new() -> (p: Self)
        ensures
            p.wf(),
            p.pending() == Seq::<DiagnosticView>::empty(),
            p.history() == Seq::<DiagnosticView>::empty(),
            p.errors() == 0,
            p.warnings() == 0,
    {
        let p = DiagnosticsParser {
            finished: VecDeque::new(),
            error_count: 0,
            warning_count: 0,
            seen: Ghost(Seq::empty()),
        };
        assert(p.pending() =~= Seq::<DiagnosticView>::empty());
        p
    }

    /// Feed one decoded stdout line: a `compiler-message` with a diagnostic
    /// is absorbed, everything else (build progress, `build-finished`, other
    /// reasons) leaves the parser unchanged.
    pub fn feed_message(&mut self, msg: CargoMessage)
        requires
            old(self).wf(),
            old(self).errors() < u32::MAX,
            old(self).warnings() < u32::MAX,
        ensures
            final(self).wf(),
            match contributed(msg) {
                Some(d) => absorbed(*old(self), d, *final(self)),
                None => unchanged(*old(self), *final(self)),
            },
    {
        let is_compiler = match &msg.reason {
            Some(r) => str_eq(r.as_str(), "compiler-message"),
            None => false,
        };
        if is_compiler {
            if let Some(d) = msg.message {
                self.absorb(d);
            }
        }
    }

    /// Absorb one compiler diagnostic: levels the panel does not show are
    /// dropped; otherwise the flattened diagnostic is queued and errors and
    /// warnings are counted.
    pub fn absorb(&mut self, diag: CargoDiag)
        requires
            old(self).wf(),
            old(self).errors() < u32::MAX,
            old(self).warnings() < u32::MAX,
        ensures
            final(self).wf(),
            absorbed(*old(self), diag, *final(self)),
    {
        let level = match &diag.level {
            Some(l) => {
                let s = l.as_str();
                if str_eq(s, "error") || str_eq(s, "error: internal compiler error") || str_eq(s, "fatal error") {
                    DiagnosticLevel::Error
                } else if str_eq(s, "warning") {
                    DiagnosticLevel::Warning
                } else if str_eq(s, "note") {
                    DiagnosticLevel::Note
                } else if str_eq(s, "help") {
                    DiagnosticLevel::Help
                } else {
                    return;
                }
            },
            None => {
                proof {
                    reveal_strlit("error");
                    reveal_strlit("warning");
                    reveal_strlit("note");
                    reveal_strlit("help");
                    reveal_strlit("error: internal compiler error");
                    reveal_strlit("fatal error");
                    assert("error"@.len() > 0);
                    assert("warning"@.len() > 0);
                    assert("note"@.len() > 0);
                    assert("help"@.len() > 0);
                    assert("error: internal compiler error"@.len() > 0);
                    assert("fatal error"@.len() > 0);
                }
                return;
            },
        };
        let (file, line) = primary_location(&diag);
        let message = match diag.message {
            Some(m) => m,
            None => String::new(),
        };
        let rendered = match diag.rendered {
            Some(r) => r,
            None => String::new(),
        };
        if level == DiagnosticLevel::Error {
            self.error_count = self.error_count + 1;
        } else if level == DiagnosticLevel::Warning {
            self.warning_count = self.warning_count + 1;
        }
        let d = Diagnostic { level, message, file, line, rendered };
        let ghost old_seen = self.seen@;
        self.seen = Ghost(self.seen@.push(d.view_of()));
        self.finished.push_back(d);
        proof {
            assert(self.seen@.drop_last() =~= old_seen);
            assert forall|i: int| 0 <= i < self.finished@.len() implies
                (#[trigger] self.finished@[i]).view_of() == self.seen@[self.seen@.len() - self.finished@.len() + i]
            by {
                if i < self.finished@.len() - 1 {
                    assert(self.finished@[i] == old(self).finished@[i]);
                }
            }
            assert(self.pending() =~= old(self).pending().push(d.view_of()));
        }
    }

    /// Drain everything parsed so far, oldest first.
    pub fn take(&mut self) -> (r: Vec<Diagnostic>)
        requires
            old(self).wf(),
        ensures
            final(self).wf(),
            r@.map_values(|d: Diagnostic| d.view_of()) == old(self).pending(),
            final(self).pending() == Seq::<DiagnosticView>::empty(),
            final(self).history() == old(self).history(),
            final(self).errors() == old(self).errors(),
            final(self).warnings() == old(self).warnings(),
    {
        let ghost start = self.finished@;
        let mut r: Vec<Diagnostic> = Vec::new();
        while self.finished.len() > 0
            invariant
                r@ + self.finished@ == start,
                self.seen == old(self).seen,
                self.error_count == old(self).error_count,
                self.warning_count == old(self).warning_count,
            decreases self.finished@.len(),
        {
            let ghost before = self.finished@;
            match self.finished.pop_front() {
                Some(d) => {
                    r.push(d);
                    proof {
                        assert(r@ + self.finished@ =~= start) by {
                            assert(before =~= seq![d] + self.finished@);
                        }
                    }
                },
                None => {},
            }
        }
        proof {
            assert(r@ =~= start);
            assert(self.pending() =~= Seq::<DiagnosticView>::empty());
        }
        r
    }

    /// Errors counted since the last reset.
    pub fn error_count(&self) -> (n: u32)
        ensures
            n == self.errors(),
    {
        self.error_count
    }

    /// Warnings counted since the last reset.
    pub fn warning_count(&self) -> (n: u32)
        ensures
            n == self.warnings(),
    {
        self.warning_count
    }

    /// Forget everything: pending diagnostics, history and counts.
    pub fn reset(&mut self)
        ensures
            final(self).wf(),
            final(self).pending() == Seq::<DiagnosticView>::empty(),
            final(self).history() == Seq::<DiagnosticView>::empty(),
            final(self).errors() == 0,
            final(self).warnings() == 0,
    {
        self.finished.clear();
        self.error_count = 0;
        self.warning_count = 0;
        self.seen = Ghost(Seq::empty());
        proof {
            assert(self.pending() =~= Seq::<DiagnosticView>::empty());
        }
    }
}

/// The parser state did not change.
pub open spec fn unchanged(before: DiagnosticsParser, after: DiagnosticsParser) -> bool {
    &&& after.pending() == before.pending()
    &&& after.history() == before.history()
    &&& after.errors() == before.errors()
    &&& after.warnings() == before.warnings()
}

/// `after` is `before` having absorbed the compiler diagnostic `d`.
pub open spec fn absorbed(before: DiagnosticsParser, d: CargoDiag, after: DiagnosticsParser) -> bool {
    match flatten(d) {
        None => unchanged(before, after),
        Some(v) => {
            &&& after.pending() == before.pending().push(v)
            &&& after.history() == before.history().push(v)
            &&& after.errors() == before.errors() + if v.level == DiagnosticLevel::Error { 1nat } else { 0nat }
            &&& after.warnings() == before.warnings() + if v.level == DiagnosticLevel::Warning { 1nat } else { 0nat }
        },
    }
}

/// File and line of one span (empty file, line 0 where absent).
fn span_location_of(s: &CargoSpan) -> (r: (String, u32))
    ensures
        r.0@ == span_location(*s).0,
        r.1 == span_location(*s).1,
{
    let file = match &s.file_name {
        Some(f) => f.clone(),
        None => String::new(),
    };
    let line = match s.line_start {
        Some(l) => l,
        None => 0,
    };
    (file, line)
}

/// File and line a diagnostic points at: its first primary span, else its
/// first span that names a file, else an empty file and line 0.
fn primary_location(diag: &CargoDiag) -> (r: (String, u32))
    ensures
        r.0@ == location_of(*diag).0,
        r.1 == location_of(*diag).1,
{
    match &diag.spans {
        None => (String::new(), 0),
        Some(spans) => {
            let n = spans.len();
            let mut i: usize = 0;
            while i < n
                invariant
                    n == spans@.len(),
                    spans_of(*diag) == spans@,
                    i <= n,
                    forall|j: int| 0 <= j < i ==> !is_primary_span(#[trigger] spans@[j]),
                decreases n - i,
            {
                let s = &spans[i];
                if s.is_primary == Some(true) {
                    proof {
                        let w = i as int;
                        assert(is_primary_span(spans@[w]));
                        let c = choose|k: int| 0 <= k < spans@.len() && is_primary_span(#[trigger] spans@[k])
                            && forall|j: int| 0 <= j < k ==> !is_primary_span(#[trigger] spans@[j]);
                        assert(0 <= c < spans@.len() && is_primary_span(spans@[c])
                            && forall|j: int| 0 <= j < c ==> !is_primary_span(#[trigger] spans@[j]));
                        if c < w {
                        } else if c > w {
                            assert(!is_primary_span(spans@[w]));
                        }
                        assert(first_primary(spans@) == Some(w));
                    }
                    return span_location_of(s);
                }
                i = i + 1;
            }
            assert(first_primary(spans@) is None);
            let mut k: usize = 0;
            while k < n
                invariant
                    n == spans@.len(),
                    spans_of(*diag) == spans@,
                    first_primary(spans@) is None,
                    k <= n,
                    forall|j: int| 0 <= j < k ==> !has_file(#[trigger] spans@[j]),
                decreases n - k,
            {
                let s = &spans[k];
                if s.file_name.is_some() {
                    proof {
                        let w = k as int;
                        assert(has_file(spans@[w]));
                        let c = choose|q: int| 0 <= q < spans@.len() && has_file(#[trigger] spans@[q])
                            && forall|j: int| 0 <= j < q ==> !has_file(#[trigger] spans@[j]);
                        assert(0 <= c < spans@.len() && has_file(spans@[c])
                            && forall|j: int| 0 <= j < c ==> !has_file(#[trigger] spans@[j]));
                        if c < w {
                        } else if c > w {
                            assert(!has_file(spans@[w]));
                        }
                        assert(first_with_file(spans@) == Some(w));
                    }
                    return span_location_of(s);
                }
                k = k + 1;
            }
            assert(first_with_file(spans@) is None);
            (String::new(), 0)
        },
    }
}

} // verus!
