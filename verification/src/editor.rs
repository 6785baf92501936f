//! Editor-side rules that sit between the engine link, the compiler runner
//! and the panels: where the log file and the demo project live, when a
//! received frame is usable, and the messages shown for protocol, compiler
//! and offline-edit events.

use vstd::prelude::*;
use crate::diagnostics::{Diagnostic, DiagnosticLevel};
use crate::ipc::{HierNode, LogLevel, PROTOCOL_VERSION};
use crate::paths::{join_spec, path_join};
use crate::runtime::TargetOs;
use crate::text::{concat, decimal, format_decimal, owned, signed_decimal, trim_end, trim_end_spec};

verus! {

/// File name of the editor log.
pub const LOG_FILE_NAME: &'static str = "bevyforge.log";

/// Size above which the log file is rotated on startup (2 MiB).
pub const MAX_LOG_BYTES: u64 = 2097152u64;

/// Where the log file may live, in preference order: next to the
/// executable; under `%LOCALAPPDATA%\BevyForge`; then the first of
/// `$XDG_DATA_HOME/bevyforge`, `~/.local/share/bevyforge` and `$TEMP` that is
/// set.
pub open spec fn log_candidates_spec(
    os: TargetOs,
    exe_dir: Option<Seq<char>>,
    local_app_data: Option<Seq<char>>,
    xdg_data_home: Option<Seq<char>>,
    home: Option<Seq<char>>,
    temp: Option<Seq<char>>,
) -> Seq<Seq<char>> {
    let a = match exe_dir { Some(d) => seq![join_spec(os, d, LOG_FILE_NAME@)], None => Seq::empty() };
    let b = match local_app_data {
        Some(l) => seq![join_spec(os, join_spec(os, l, "BevyForge"@), LOG_FILE_NAME@)],
        None => Seq::empty(),
    };
    let c = match xdg_data_home {
        Some(x) => seq![join_spec(os, join_spec(os, x, "bevyforge"@), LOG_FILE_NAME@)],
        None => match home {
            Some(h) => seq![join_spec(os, h, ".local/share/bevyforge/bevyforge.log"@)],
            None => match temp {
                Some(t) => seq![join_spec(os, t, LOG_FILE_NAME@)],
                None => Seq::empty(),
            },
        },
    };
    a + b + c
}

/// Where the log file may live (see [`log_candidates_spec`]); each argument
/// is the directory or variable value when known.
pub fn log_candidates(
    os: TargetOs,
    exe_dir: Option<&str>,
    local_app_data: Option<&str>,
    xdg_data_home: Option<&str>,
    home: Option<&str>,
    temp: Option<&str>,
) -> (r: Vec<String>)
    ensures
        r@.map_values(|s: String| s@) == log_candidates_spec(
            os,
            match exe_dir { Some(d) => Some(d@), None => None },
            match local_app_data { Some(d) => Some(d@), None => None },
            match xdg_data_home { Some(d) => Some(d@), None => None },
            match home { Some(d) => Some(d@), None => None },
            match temp { Some(d) => Some(d@), None => None },
        ),
{
    let mut r: Vec<String> = Vec::new();
    if let Some(d) = exe_dir {
        r.push(path_join(os, d, LOG_FILE_NAME));
    }
    if let Some(l) = local_app_data {
        let dir = path_join(os, l, "BevyForge");
        r.push(path_join(os, dir.as_str(), LOG_FILE_NAME));
    }
    if let Some(x) = xdg_data_home {
        let dir = path_join(os, x, "bevyforge");
        r.push(path_join(os, dir.as_str(), LOG_FILE_NAME));
    } else if let Some(h) = home {
        r.push(path_join(os, h, ".local/share/bevyforge/bevyforge.log"));
    } else if let Some(t) = temp {
        r.push(path_join(os, t, LOG_FILE_NAME));
    }
    proof {
        let ed = match exe_dir { Some(d) => Some(d@), None => None::<Seq<char>> };
        let la = match local_app_data { Some(d) => Some(d@), None => None::<Seq<char>> };
        let xd = match xdg_data_home { Some(d) => Some(d@), None => None::<Seq<char>> };
        let hm = match home { Some(d) => Some(d@), None => None::<Seq<char>> };
        let tp = match temp { Some(d) => Some(d@), None => None::<Seq<char>> };
        assert(r@.map_values(|s: String| s@) =~= log_candidates_spec(os, ed, la, xd, hm, tp));
    }
    r
}

/// Whether a log file of `len` bytes is rotated before use.
pub fn log_needs_rotation(len: u64) -> (r: bool)
    ensures
        r == (len > MAX_LOG_BYTES),
{
    len > MAX_LOG_BYTES
}

/// The demo project opened when none is given, under the home directory
/// (or the working directory).
pub open spec fn demo_project_dir_spec(os: TargetOs, base: Seq<char>) -> Seq<char> {
    join_spec(os, join_spec(os, base, "BevyForgeProjects"@), "Demo"@)
}

/// The demo project directory under `base` (see [`demo_project_dir_spec`]).
pub fn demo_project_dir(os: TargetOs, base: &str) -> (r: String)
    ensures
        r@ == demo_project_dir_spec(os, base@),
{
    let d = path_join(os, base, "BevyForgeProjects");
    path_join(os, d.as_str(), "Demo")
}

/// Whether a received RGB frame of `width` x `height` pixels carries exactly
/// three bytes per pixel in `len` bytes.
pub fn frame_size_ok(width: u32, height: u32, len: usize) -> (r: bool)
    ensures
        r == (width as int * height as int * 3 == len as int),
{
    let w: u128 = width as u128;
    let h: u128 = height as u128;
    assert(w * h <= 0xffff_ffffu128 * 0xffff_ffffu128) by (nonlinear_arith)
        requires
            w <= 0xffff_ffff,
            h <= 0xffff_ffff,
    ;
    let area: u128 = w * h;
    let expected: u128 = area * 3;
    expected == len as u128
}

/// The toast shown when the engine speaks another protocol version.
pub open spec fn protocol_mismatch_spec(runtime: u32) -> Option<Seq<char>> {
    if runtime != PROTOCOL_VERSION {
        Some("Protocol mismatch: editor "@ + decimal(PROTOCOL_VERSION as nat) + ", runtime "@ + decimal(runtime as nat))
    } else {
        None
    }
}

/// The toast shown when the engine speaks another protocol version.
pub fn protocol_mismatch(runtime: u32) -> (r: Option<String>)
    ensures
        match r { Some(s) => protocol_mismatch_spec(runtime) == Some(s@), None => protocol_mismatch_spec(runtime) is None },
{
    if runtime != PROTOCOL_VERSION {
        let mut m = owned("Protocol mismatch: editor ");
        let e = format_decimal(PROTOCOL_VERSION as u64);
        m.append(e.as_str());
        m.append(", runtime ");
        let r = format_decimal(runtime as u64);
        m.append(r.as_str());
        Some(m)
    } else {
        None
    }
}

/// The toast shown when the engine greets the editor.
pub fn welcome_text(bevy_version: &str, pid: u32) -> (r: String)
    ensures
        r@ == "Runtime connected (Bevy "@ + bevy_version@ + ", pid "@ + decimal(pid as nat) + ")"@,
{
    let mut m = concat("Runtime connected (Bevy ", bevy_version);
    m.append(", pid ");
    let p = format_decimal(pid as u64);
    m.append(p.as_str());
    m.append(")");
    m
}

/// The toast shown when offline edits were shipped to a fresh engine.
pub fn synced_text(count: usize) -> (r: String)
    ensures
        r@ == "Synced "@ + decimal(count as nat) + " offline edit(s) to the engine — undo history reset"@,
{
    let mut m = owned("Synced ");
    let c = format_decimal(count as u64);
    m.append(c.as_str());
    m.append(" offline edit(s) to the engine — undo history reset");
    m
}

/// Number of diagnostics of `level`.
pub open spec fn count_at_spec(ds: Seq<Diagnostic>, level: DiagnosticLevel) -> nat
    decreases ds.len(),
{
    if ds.len() == 0 {
        0
    } else {
        count_at_spec(ds.drop_last(), level) + if ds.last().level == level { 1nat } else { 0nat }
    }
}

/// Number of diagnostics of `level` (the panel's error/warning counters).
pub fn count_at(ds: &Vec<Diagnostic>, level: DiagnosticLevel) -> (n: usize)
    ensures
        n == count_at_spec(ds@, level),
{
    let len = ds.len();
    let mut n: usize = 0;
    let mut i: usize = 0;
    while i < len
        invariant
            len == ds@.len(),
            i <= len,
            n == count_at_spec(ds@.subrange(0, i as int), level),
            n <= i,
        decreases len - i,
    {
        assert(ds@.subrange(0, i + 1).drop_last() =~= ds@.subrange(0, i as int));
        if ds[i].level == level {
            n = n + 1;
        }
        i = i + 1;
    }
    assert(ds@.subrange(0, len as int) =~= ds@);
    n
}

/// The summary line of a finished `cargo check` that took `secs` (already
/// printed with one decimal).
pub open spec fn check_summary_spec(secs: Seq<char>, errors: u32, warnings: u32) -> Seq<char> {
    if errors > 0 {
        "Finished check in "@ + secs + "s — "@ + decimal(errors as nat) + " error(s), "@ + decimal(warnings as nat) + " warning(s)"@
    } else if warnings > 0 {
        "Finished check in "@ + secs + "s — clean ("@ + decimal(warnings as nat) + " warning(s))"@
    } else {
        "Finished check in "@ + secs + "s — 0 errors"@
    }
}

/// The summary line of a finished `cargo check` and the level of its toast
/// (an error when errors were found).
pub fn check_summary(secs: &str, errors: u32, warnings: u32) -> (r: (LogLevel, String))
    ensures
        r.1@ == check_summary_spec(secs@, errors, warnings),
        r.0 == if errors > 0 { LogLevel::Error } else { LogLevel::Info },
{
    let mut m = concat("Finished check in ", secs);
    if errors > 0 {
        m.append("s — ");
        let e = format_decimal(errors as u64);
        m.append(e.as_str());
        m.append(" error(s), ");
        let w = format_decimal(warnings as u64);
        m.append(w.as_str());
        m.append(" warning(s)");
        (LogLevel::Error, m)
    } else if warnings > 0 {
        m.append("s — clean (");
        let w = format_decimal(warnings as u64);
        m.append(w.as_str());
        m.append(" warning(s))");
        (LogLevel::Info, m)
    } else {
        m.append("s — 0 errors");
        (LogLevel::Info, m)
    }
}

/// The notice after adding (`adding`) or removing a component offline,
/// depending on whether it `applied`.
pub open spec fn component_notice_spec(adding: bool, applied: bool, label: Seq<char>) -> (LogLevel, Seq<char>) {
    if adding {
        if applied {
            (LogLevel::Info, "Added "@ + label + " (offline)"@)
        } else {
            (LogLevel::Warn, label + " is intrinsic or already present (offline)"@)
        }
    } else {
        if applied {
            (LogLevel::Info, "Removed "@ + label + " (offline)"@)
        } else {
            (LogLevel::Warn, label + " is intrinsic or missing (offline)"@)
        }
    }
}

/// The notice after adding or removing a component offline.
pub fn component_notice(adding: bool, applied: bool, label: &str) -> (r: (LogLevel, String))
    ensures
        r.0 == component_notice_spec(adding, applied, label@).0,
        r.1@ == component_notice_spec(adding, applied, label@).1,
{
    if adding {
        if applied {
            let mut m = concat("Added ", label);
            m.append(" (offline)");
            (LogLevel::Info, m)
        } else {
            (LogLevel::Warn, concat(label, " is intrinsic or already present (offline)"))
        }
    } else {
        if applied {
            let mut m = concat("Removed ", label);
            m.append(" (offline)");
            (LogLevel::Info, m)
        } else {
            (LogLevel::Warn, concat(label, " is intrinsic or missing (offline)"))
        }
    }
}

/// Least time between two "needs the engine" warnings while offline.
pub const OFFLINE_WARN_GAP_MS: u64 = 3000;

/// Whether an offline command that needs the engine warns again at `now_ms`,
/// the last warning having been at `last_ms`: the first time, or once more
/// than [`OFFLINE_WARN_GAP_MS`] have passed (a clock that went backwards
/// counts as no time passed).
pub fn offline_warning_due(last_ms: Option<u64>, now_ms: u64) -> (r: bool)
    ensures
        r == match last_ms {
            None => true,
            Some(t) => now_ms >= t && now_ms - t > OFFLINE_WARN_GAP_MS,
        },
{
    match last_ms {
        None => true,
        Some(t) => now_ms >= t && now_ms - t > OFFLINE_WARN_GAP_MS,
    }
}

/// The ids of the hierarchy rows that are expanded on arrival: the top-level
/// rows, in order.
pub open spec fn auto_expanded_spec(nodes: Seq<HierNode>) -> Seq<u64>
    decreases nodes.len(),
{
    if nodes.len() == 0 {
        Seq::empty()
    } else {
        auto_expanded_spec(nodes.drop_last()) + if nodes.last().depth < 1 { seq![nodes.last().id] } else { Seq::empty() }
    }
}

/// The ids of the hierarchy rows that are expanded on arrival (see
/// [`auto_expanded_spec`]).
pub fn auto_expanded(nodes: &Vec<HierNode>) -> (r: Vec<u64>)
    ensures
        r@ == auto_expanded_spec(nodes@),
{
    let n = nodes.len();
    let mut r: Vec<u64> = Vec::new();
    let mut i: usize = 0;
    while i < n
        invariant
            n == nodes@.len(),
            i <= n,
            r@ == auto_expanded_spec(nodes@.subrange(0, i as int)),
        decreases n - i,
    {
        assert(nodes@.subrange(0, i + 1).drop_last() =~= nodes@.subrange(0, i as int));
        if nodes[i].depth < 1 {
            r.push(nodes[i].id);
        }
        i = i + 1;
        assert(r@ =~= auto_expanded_spec(nodes@.subrange(0, i as int)));
    }
    assert(nodes@.subrange(0, n as int) =~= nodes@);
    r
}

/// Where one line of `cargo check` output goes, once its trailing white
/// space is cut.
#[derive(Debug, Clone)]
pub enum OutputLine {
    /// A JSON message, for the diagnostics parser.
    Message(String),
    /// Plain text, for the output panel.
    Text(String),
    /// Nothing left.
    Blank,
}

/// Route one line of compiler output: after cutting trailing white space, a
/// line starting with `{` is a JSON message, another non-empty line is
/// plain text, and an empty one is dropped.
pub fn route_output_line(line: &str) -> (r: OutputLine)
    ensures
        ({
            let t = trim_end_spec(line@);
            match r {
                OutputLine::Message(m) => t.len() > 0 && t[0] == '{' && m@ == t,
                OutputLine::Text(m) => t.len() > 0 && t[0] != '{' && m@ == t,
                OutputLine::Blank => t.len() == 0,
            }
        }),
{
    let t = trim_end(line);
    if t.unicode_len() == 0 {
        OutputLine::Blank
    } else if t.as_str().get_char(0) == '{' {
        OutputLine::Message(t)
    } else {
        OutputLine::Text(t)
    }
}

/// `Some(<code>)` or `None`, as an exit status prints.
pub fn exit_code_text(code: Option<i32>) -> (r: String)
    ensures
        r@ == crate::runtime::exit_code_text(code),
{
    match code {
        Some(c) => {
            let mut m = owned("Some(");
            let d = crate::text::format_i32(c);
            m.append(d.as_str());
            m.append(")");
            m
        },
        None => owned("None"),
    }
}

} // verus!
