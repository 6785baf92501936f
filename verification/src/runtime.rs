//! Decisions of the supervisor that finds and launches the engine process:
//! where the binary may live, which GPU backends to try, how the startup
//! handshake is read, and how failures are reported.
//!
//! The process spawning, pipes and timers stay with the caller; it feeds the
//! observations in and carries out what is decided here.

use vstd::prelude::*;
use crate::ipc::DEFAULT_PORT;
use crate::paths::{join_spec, path_join};
use crate::text::{
    concat, format_decimal, format_i32, join, owned, parse_u16, parse_u16_spec, seq_join, signed_decimal,
    decimal, starts_with, trim, trim_spec,
};

verus! {

/// Base name of the runtime binary (without platform suffix).
pub const RUNTIME_BASE: &'static str = "bevyforge-runtime";

/// The platform the editor was built for, as far as the supervisor cares.
#[derive(Debug, Clone, Copy, PartialEq, Eq, Structural)]
pub enum TargetOs {
    Windows,
    MacOs,
    /// Linux and every other Unix.
    Other,
}

/// Backend fallback chain per platform: the empty spec lets the renderer
/// choose; the remaining entries force individual backends so a machine with
/// exactly one working driver still boots.
pub open spec fn backend_chain_spec(os: TargetOs) -> Seq<Seq<char>> {
    match os {
        TargetOs::Windows => seq![""@, "dx12"@, "vulkan"@, "gl"@],
        TargetOs::MacOs => seq![""@, "metal"@],
        TargetOs::Other => seq![""@, "vulkan"@, "gl"@],
    }
}

/// The GPU backend fallback chain for `os` (see [`backend_chain_spec`]).
pub fn default_backend_chain(os: TargetOs) -> (r: Vec<String>)
    ensures
        r@.map_values(|s: String| s@) == backend_chain_spec(os),
{
    let mut r: Vec<String> = Vec::new();
    r.push(owned(""));
    match os {
        TargetOs::Windows => {
            r.push(owned("dx12"));
            r.push(owned("vulkan"));
            r.push(owned("gl"));
        },
        TargetOs::MacOs => {
            r.push(owned("metal"));
        },
        TargetOs::Other => {
            r.push(owned("vulkan"));
            r.push(owned("gl"));
        },
    }
    assert(r@.map_values(|s: String| s@) =~= backend_chain_spec(os));
    r
}

/// File-name suffix of executables on `os`.
pub open spec fn exe_suffix_spec(os: TargetOs) -> Seq<char> {
    match os {
        TargetOs::Windows => ".exe"@,
        _ => ""@,
    }
}

/// File-name suffix of executables on `os`.
pub fn exe_suffix(os: TargetOs) -> (r: &'static str)
    ensures
        r@ == exe_suffix_spec(os),
{
    match os {
        TargetOs::Windows => ".exe",
        _ => "",
    }
}

/// Where the runtime binary may live, in search order: next to the editor,
/// one and two levels up (cargo target layouts), then the bare name (looked
/// up on `PATH`).
pub open spec fn candidates_spec(os: TargetOs, exe_dir: Seq<char>, suffix: Seq<char>) -> Seq<Seq<char>> {
    let base = RUNTIME_BASE@ + suffix;
    seq![
        join_spec(os, exe_dir, base),
        join_spec(os, exe_dir, "../"@ + base),
        join_spec(os, exe_dir, "../../"@ + base),
        base,
    ]
}

/// Candidate paths for the runtime binary given the editor's directory and
/// the platform's executable suffix (see [`candidates_spec`]).
pub fn candidate_paths_with(os: TargetOs, exe_dir: &str, suffix: &str) -> (r: Vec<String>)
    ensures
        r@.map_values(|s: String| s@) == candidates_spec(os, exe_dir@, suffix@),
{
    let base = concat(RUNTIME_BASE, suffix);
    let up1 = concat("../", base.as_str());
    let up2 = concat("../../", base.as_str());
    let mut r: Vec<String> = Vec::new();
    r.push(path_join(os, exe_dir, base.as_str()));
    r.push(path_join(os, exe_dir, up1.as_str()));
    r.push(path_join(os, exe_dir, up2.as_str()));
    r.push(base);
    proof {
        assert(("../"@ + (RUNTIME_BASE@ + suffix@)) == up1@);
    }
    assert(r@.map_values(|s: String| s@) =~= candidates_spec(os, exe_dir@, suffix@));
    r
}

/// Events observed from the runtime's stdout/stderr pumps.
#[derive(Debug, Clone)]
pub enum RuntimeSignal {
    /// Runtime announced its IPC port (always the first signal).
    Port(u16),
    /// A raw stdout line (diagnostics).
    Stdout(String),
    /// The runtime process exited with this status.
    Exited(Option<i32>),
}

/// Finds and launches the runtime.
#[derive(Debug, Clone)]
pub struct RuntimeSpawner {
    /// Explicit path to the runtime binary; when `None`, the candidates are
    /// searched.
    pub binary: Option<String>,
    pub port: u16,
    /// GPU backend fallback chain, tried in order. `""` lets the renderer
    /// decide. Each entry is passed to the runtime as `--backend <value>`.
    pub backends: Vec<String>,
}

impl RuntimeSpawner {
    /// The spawner used by default on `os`: no explicit binary, the default
    /// port and the platform's backend chain.
    pub fn with_defaults(os: TargetOs) -> (s: Self)
        ensures
            s.binary is None,
            s.port == DEFAULT_PORT,
            s.backends@.map_values(|b: String| b@) == backend_chain_spec(os),
    {
        RuntimeSpawner { binary: None, port: DEFAULT_PORT, backends: default_backend_chain(os) }
    }

    /// Resolve the runtime binary: the configured binary when set (an error
    /// when it is not a file), else the first candidate that is a file, else
    /// an error listing every candidate. `configured_is_file` and
    /// `candidate_is_file` report which paths exist as files.
    pub fn find_binary_among(
        &self,
        configured_is_file: bool,
        candidates: &Vec<String>,
        candidate_is_file: &Vec<bool>,
        suffix: &str,
    ) -> (r: Result<String, String>)
        requires
            candidate_is_file@.len() == candidates@.len(),
        ensures
            match self.binary {
                Some(p) => if configured_is_file {
                    r matches Ok(s) && s@ == p@
                } else {
                    r matches Err(m) && m@ == "configured runtime binary not found: "@ + p@
                },
                None => match first_true(candidate_is_file@) {
                    Some(k) => r matches Ok(s) && s@ == candidates@[k]@,
                    None => r matches Err(m) && m@ == binary_missing_message(
                        suffix@, candidates@.map_values(|c: String| c@)),
                },
            },
    {
        match &self.binary {
            Some(p) => {
                if configured_is_file {
                    Ok(p.clone())
                } else {
                    Err(concat("configured runtime binary not found: ", p.as_str()))
                }
            },
            None => {
                let n = candidates.len();
                let mut k: usize = 0;
                while k < n
                    invariant
                        n == candidates@.len(),
                        self.binary is None,
                        candidate_is_file@.len() == n,
                        k <= n,
                        forall|j: int| 0 <= j < k ==> !candidate_is_file@[j],
                    decreases n - k,
                {
                    if candidate_is_file[k] {
                        proof {
                            assert(first_true(candidate_is_file@) == Some(k as int));
                        }
                        return Ok(candidates[k].clone());
                    }
                    k = k + 1;
                }
                let mut m = concat(RUNTIME_BASE, suffix);
                m.append(" not found next to the editor or on PATH.\nsearched: ");
                let listed = join(candidates, ", ");
                m.append(listed.as_str());
                m.append("\nfix: extract the FULL BevyForge archive so both executables sit in the same folder (Windows Defender may also have quarantined it).");
                Err(m)
            },
        }
    }
}

/// Position of the first `true`, if any.
pub open spec fn first_true(s: Seq<bool>) -> Option<int> {
    if exists|k: int| 0 <= k < s.len() && s[k] {
        Some(choose|k: int| 0 <= k < s.len() && s[k] && forall|j: int| 0 <= j < k ==> !s[j])
    } else {
        None
    }
}

/// The report when no candidate holds the runtime binary.
pub open spec fn binary_missing_message(suffix: Seq<char>, candidates: Seq<Seq<char>>) -> Seq<char> {
    RUNTIME_BASE@ + suffix + " not found next to the editor or on PATH.\nsearched: "@
        + seq_join(candidates, ", "@)
        + "\nfix: extract the FULL BevyForge archive so both executables sit in the same folder (Windows Defender may also have quarantined it)."@
}

/// Prefix of the stdout line by which the runtime announces its port.
pub const PORT_PREFIX: &'static str = "FORGE_PORT=";

/// The port a runtime stdout line announces: a line `FORGE_PORT=<n>` whose
/// rest, trimmed, parses as a port number.
pub open spec fn announced_port(line: Seq<char>) -> Option<u16> {
    if PORT_PREFIX@.len() <= line.len() && line.subrange(0, PORT_PREFIX@.len() as int) == PORT_PREFIX@ {
        parse_u16_spec(trim_spec(line.subrange(PORT_PREFIX@.len() as int, line.len() as int)))
    } else {
        None
    }
}

/// The port a runtime stdout line announces (see [`announced_port`]).
pub fn parse_port_line(line: &str) -> (r: Option<u16>)
    ensures
        r == announced_port(line@),
{
    if !starts_with(line, PORT_PREFIX) {
        return None;
    }
    proof {
        reveal_strlit("FORGE_PORT=");
    }
    let n = line.unicode_len();
    let rest = line.substring_char(11, n);
    let t = trim(rest);
    parse_u16(t.as_str())
}

/// Most stdout lines kept for a failed startup report.
pub const TAIL_LINES: usize = 14;

/// What a waiting supervisor observes on the runtime's signal channel.
#[derive(Debug, Clone)]
pub enum HandshakeEvent {
    /// A signal arrived.
    Signal(RuntimeSignal),
    /// Nothing arrived within one polling interval.
    Idle,
    /// Every sender is gone.
    Disconnected,
}

/// The supervisor's view of a runtime startup in progress.
pub struct Handshake {
    tail: Vec<String>,
    port: Option<u16>,
    early_exit: Option<Option<i32>>,
}

/// `tail` after one more stdout line: the last [`TAIL_LINES`] lines.
pub open spec fn tail_after(tail: Seq<Seq<char>>, line: Seq<char>) -> Seq<Seq<char>> {
    if tail.len() >= TAIL_LINES {
        tail.drop_first().push(line)
    } else {
        tail.push(line)
    }
}

impl Handshake {
    /// The stdout lines kept so far, oldest first.
    pub closed spec fn tail(&self) -> Seq<Seq<char>> {
        self.tail@.map_values(|s: String| s@)
    }

    /// The port announced, once it was.
    pub closed spec fn port(&self) -> Option<u16> {
        self.port
    }

    /// The exit status, when the runtime exited before announcing a port.
    pub closed spec fn early_exit(&self) -> Option<Option<i32>> {
        self.early_exit
    }

    /// At most [`TAIL_LINES`] lines are kept.
    pub open spec fn wf(&self) -> bool {
        self.tail().len() <= TAIL_LINES
    }

    /// A startup that has observed nothing yet.
    pub fn new() -> (h: Self)
        ensures
            h.wf(),
            h.tail() == Seq::<Seq<char>>::empty(),
            h.port() is None,
            h.early_exit() is None,
    {
        let h = Handshake { tail: Vec::new(), port: None, early_exit: None };
        assert(h.tail() =~= Seq::<Seq<char>>::empty());
        h
    }

    /// Take one observation; returns whether to keep waiting. A port
    /// announcement or an exit ends the wait, as does a dead channel; stdout
    /// lines are kept (the last [`TAIL_LINES`]) and waiting goes on.
    pub fn observe(&mut self, event: HandshakeEvent) -> (keep_waiting: bool)
        requires
            old(self).wf(),
        ensures
            final(self).wf(),
            match event {
                HandshakeEvent::Signal(RuntimeSignal::Port(p)) => !keep_waiting
                    && final(self).port() == Some(p)
                    && final(self).tail() == old(self).tail()
                    && final(self).early_exit() == old(self).early_exit(),
                HandshakeEvent::Signal(RuntimeSignal::Stdout(l)) => keep_waiting
                    && final(self).tail() == tail_after(old(self).tail(), l@)
                    && final(self).port() == old(self).port()
                    && final(self).early_exit() == old(self).early_exit(),
                HandshakeEvent::Signal(RuntimeSignal::Exited(code)) => !keep_waiting
                    && final(self).early_exit() == Some(code)
                    && final(self).tail() == old(self).tail()
                    && final(self).port() == old(self).port(),
                HandshakeEvent::Idle => keep_waiting
                    && final(self).tail() == old(self).tail()
                    && final(self).port() == old(self).port()
                    && final(self).early_exit() == old(self).early_exit(),
                HandshakeEvent::Disconnected => !keep_waiting
                    && final(self).tail() == old(self).tail()
                    && final(self).port() == old(self).port()
                    && final(self).early_exit() == old(self).early_exit(),
            },
    {
        match event {
            HandshakeEvent::Signal(RuntimeSignal::Port(p)) => {
                self.port = Some(p);
                false
            },
            HandshakeEvent::Signal(RuntimeSignal::Stdout(l)) => {
                let ghost before = self.tail@;
                if self.tail.len() >= TAIL_LINES {
                    self.tail.remove(0);
                }
                let ghost lv = l@;
                self.tail.push(l);
                proof {
                    if before.len() >= TAIL_LINES {
                        assert(self.tail() =~= before.map_values(|s: String| s@).drop_first().push(lv));
                    } else {
                        assert(self.tail() =~= before.map_values(|s: String| s@).push(lv));
                    }
                }
                true
            },
            HandshakeEvent::Signal(RuntimeSignal::Exited(code)) => {
                self.early_exit = Some(code);
                false
            },
            HandshakeEvent::Idle => true,
            HandshakeEvent::Disconnected => false,
        }
    }

    /// How the startup ended: the announced port, or the report of why it
    /// failed (see [`startup_failure`]).
    pub fn outcome(&self, timeout_secs: u64) -> (r: Result<u16, String>)
        requires
            self.wf(),
        ensures
            match self.port() {
                Some(p) => r == Ok::<u16, String>(p),
                None => r matches Err(m) && m@ == startup_failure(self.early_exit(), self.tail(), timeout_secs),
            },
    {
        if let Some(p) = self.port {
            return Ok(p);
        }
        let tail_txt = if self.tail.len() == 0 {
            String::new()
        } else {
            let mut t = owned("\nengine output:\n  ");
            let j = join(&self.tail, "\n  ");
            t.append(j.as_str());
            t
        };
        let mut m = match self.early_exit {
            Some(code) => {
                let mut m = owned("engine crashed during startup (exit code ");
                match code {
                    Some(c) => {
                        m.append("Some(");
                        let d = format_i32(c);
                        m.append(d.as_str());
                        m.append(")");
                    },
                    None => {
                        m.append("None");
                    },
                }
                m.append(")");
                m
            },
            None => {
                let mut m = owned("engine did not signal startup within ");
                let d = format_decimal(timeout_secs);
                m.append(d.as_str());
                m.append("s");
                m
            },
        };
        m.append(tail_txt.as_str());
        Err(m)
    }
}

/// `Some(<code>)` or `None`, as the exit status prints.
pub open spec fn exit_code_text(code: Option<i32>) -> Seq<char> {
    match code {
        Some(c) => "Some("@ + signed_decimal(c as int) + ")"@,
        None => "None"@,
    }
}

/// The engine output block of a failure report (empty when nothing was
/// printed).
pub open spec fn tail_text(tail: Seq<Seq<char>>) -> Seq<char> {
    if tail.len() == 0 {
        Seq::empty()
    } else {
        "\nengine output:\n  "@ + seq_join(tail, "\n  "@)
    }
}

/// The report of a startup that announced no port: a crash report with the
/// exit status when the runtime exited, else a timeout report; both followed
/// by the engine output kept.
pub open spec fn startup_failure(early_exit: Option<Option<i32>>, tail: Seq<Seq<char>>, timeout_secs: u64) -> Seq<char> {
    match early_exit {
        Some(code) => "engine crashed during startup (exit code "@ + exit_code_text(code) + ")"@ + tail_text(tail),
        None => "engine did not signal startup within "@ + decimal(timeout_secs as nat) + "s"@ + tail_text(tail),
    }
}

/// Name of a backend in reports (`auto` for the renderer's own choice).
pub open spec fn backend_label_spec(backend: Seq<char>) -> Seq<char> {
    if backend.len() == 0 { "auto"@ } else { backend }
}

/// One line of the all-backends-failed report.
pub open spec fn backend_failure_line(backend: Seq<char>, error: Seq<char>) -> Seq<char> {
    "--backend "@ + backend_label_spec(backend) + ": "@ + error
}

/// The report when every backend of the chain failed to start.
pub open spec fn all_backends_failed(backends: Seq<Seq<char>>, errors: Seq<Seq<char>>) -> Seq<char> {
    "the render engine failed to start on every GPU backend tried.\n"@
        + seq_join(Seq::new(backends.len(), |i: int| backend_failure_line(backends[i], errors[i])), "\n"@)
}

/// The report when every backend of the chain failed to start, given the
/// error of each attempt in chain order.
pub fn spawn_failure_report(backends: &Vec<String>, errors: &Vec<String>) -> (r: String)
    requires
        errors@.len() == backends@.len(),
    ensures
        r@ == all_backends_failed(backends@.map_values(|s: String| s@), errors@.map_values(|s: String| s@)),
{
    let ghost bv = backends@.map_values(|s: String| s@);
    let ghost ev = errors@.map_values(|s: String| s@);
    let n = backends.len();
    let mut lines: Vec<String> = Vec::new();
    let mut i: usize = 0;
    while i < n
        invariant
            n == backends@.len(),
            errors@.len() == n,
            bv == backends@.map_values(|s: String| s@),
            ev == errors@.map_values(|s: String| s@),
            i <= n,
            lines@.map_values(|s: String| s@) == Seq::new(i as nat, |k: int| backend_failure_line(bv[k], ev[k])),
        decreases n - i,
    {
        let b = backends[i].as_str();
        let mut line = owned("--backend ");
        if b.unicode_len() == 0 {
            line.append("auto");
        } else {
            line.append(b);
        }
        line.append(": ");
        line.append(errors[i].as_str());
        let ghost lv = line@;
        let ghost before = lines@.map_values(|s: String| s@);
        lines.push(line);
        i = i + 1;
        proof {
            assert(lines@.map_values(|s: String| s@) =~= before.push(lv));
            assert(lv == backend_failure_line(bv[i - 1], ev[i - 1]));
            assert(lines@.map_values(|s: String| s@) =~= Seq::new(i as nat, |k: int| backend_failure_line(bv[k], ev[k])));
        }
    }
    let mut r = owned("the render engine failed to start on every GPU backend tried.\n");
    let j = join(&lines, "\n");
    r.append(j.as_str());
    r
}

} // verus!
