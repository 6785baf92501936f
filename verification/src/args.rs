//! Command-line arguments of the editor.

use vstd::prelude::*;
use crate::ipc::DEFAULT_PORT;
use crate::text::{parse_u16, parse_u16_spec, str_eq};

verus! {

/// What the editor was asked to do on startup.
#[derive(Debug, Clone)]
pub struct EditorArgs {
    /// `--project <dir>`.
    pub project_dir: Option<String>,
    /// `--connect <port>`: attach to a running engine.
    pub connect_port: Option<u16>,
    /// `--port N`: the port a spawned engine listens on.
    pub port: u16,
    /// `--exit-after SECS`, as given (the caller reads the number).
    pub exit_after: Option<String>,
    /// `--doctor` / `--selftest`.
    pub doctor: bool,
}

/// The outcome of reading the arguments.
#[derive(Debug, Clone)]
pub enum ArgsOutcome {
    /// Start with these settings.
    Run(EditorArgs),
    /// `--version`: print the version and exit.
    ShowVersion,
    /// An unknown argument: print usage and exit with status 2.
    Unknown(String),
}

/// The facts of [`EditorArgs`], as values.
pub struct ArgsView {
    pub project_dir: Option<Seq<char>>,
    pub connect_port: Option<u16>,
    pub port: u16,
    pub exit_after: Option<Seq<char>>,
    pub doctor: bool,
}

/// The facts of [`ArgsOutcome`], as values.
pub enum OutcomeView {
    Run(ArgsView),
    ShowVersion,
    Unknown(Seq<char>),
}

/// The facts of a settings record.
pub open spec fn args_view(a: EditorArgs) -> ArgsView {
    ArgsView {
        project_dir: match a.project_dir { Some(s) => Some(s@), None => None },
        connect_port: a.connect_port,
        port: a.port,
        exit_after: match a.exit_after { Some(s) => Some(s@), None => None },
        doctor: a.doctor,
    }
}

/// The facts of an outcome.
pub open spec fn outcome_view(o: ArgsOutcome) -> OutcomeView {
    match o {
        ArgsOutcome::Run(a) => OutcomeView::Run(args_view(a)),
        ArgsOutcome::ShowVersion => OutcomeView::ShowVersion,
        ArgsOutcome::Unknown(s) => OutcomeView::Unknown(s@),
    }
}

/// The settings before any argument is read.
pub open spec fn initial_args() -> ArgsView {
    ArgsView { project_dir: None, connect_port: None, port: DEFAULT_PORT, exit_after: None, doctor: false }
}

/// The value following position `i`, if any.
pub open spec fn value_after(args: Seq<Seq<char>>, i: int) -> Option<Seq<char>> {
    if i + 1 < args.len() { Some(args[i + 1]) } else { None }
}

/// Reading the arguments from position `i` on with settings `st` so far:
/// options taking a value consume the next argument (a missing value
/// counts as absent); `--connect` keeps only a valid port; `--port` keeps
/// the previous port when the value is missing or invalid; `--version` and
/// an unknown argument stop the reading.
pub open spec fn read_args(args: Seq<Seq<char>>, i: int, st: ArgsView) -> OutcomeView
    decreases args.len() + 2 - i,
{
    if i >= args.len() || i < 0 {
        OutcomeView::Run(st)
    } else {
        let a = args[i];
        let v = value_after(args, i);
        if a == "--project"@ {
            read_args(args, i + 2, ArgsView { project_dir: v, ..st })
        } else if a == "--connect"@ {
            read_args(args, i + 2, ArgsView {
                connect_port: match v { Some(t) => parse_u16_spec(t), None => None },
                ..st
            })
        } else if a == "--port"@ {
            read_args(args, i + 2, ArgsView {
                port: match v {
                    Some(t) => match parse_u16_spec(t) { Some(p) => p, None => st.port },
                    None => st.port,
                },
                ..st
            })
        } else if a == "--exit-after"@ {
            read_args(args, i + 2, ArgsView { exit_after: v, ..st })
        } else if a == "--doctor"@ || a == "--selftest"@ {
            read_args(args, i + 1, ArgsView { doctor: true, ..st })
        } else if a == "--version"@ {
            OutcomeView::ShowVersion
        } else {
            OutcomeView::Unknown(a)
        }
    }
}

/// Read the editor's arguments (the program name excluded).
pub fn parse_args(args: &Vec<String>) -> (r: ArgsOutcome)
    ensures
        outcome_view(r) == read_args(args@.map_values(|s: String| s@), 0, initial_args()),
{
    let ghost av = args@.map_values(|s: String| s@);
    let mut st = EditorArgs { project_dir: None, connect_port: None, port: DEFAULT_PORT, exit_after: None, doctor: false };
    let n = args.len();
    let mut i: usize = 0;
    while i < n
        invariant
            n == args@.len(),
            av == args@.map_values(|s: String| s@),
            i <= n,
            read_args(av, i as int, args_view(st)) == read_args(av, 0, initial_args()),
        decreases n - i,
    {
        let a = args[i].as_str();
        let ghost sv = args_view(st);
        let next: Option<&String> = if i + 1 < n { Some(&args[i + 1]) } else { None };
        let ghost i0 = i as int;
        assert(av[i as int] == a@);
        assert(match next { Some(v) => value_after(av, i0) == Some(v@), None => value_after(av, i0) is None });
        if str_eq(a, "--project") {
            st.project_dir = match next { Some(v) => Some(v.clone()), None => None };
            i = if i + 1 < n { i + 2 } else { n };
            assert(read_args(av, i0, sv) == read_args(av, i0 + 2, args_view(st)));
        } else if str_eq(a, "--connect") {
            st.connect_port = match next { Some(v) => parse_u16(v.as_str()), None => None };
            i = if i + 1 < n { i + 2 } else { n };
            assert(read_args(av, i0, sv) == read_args(av, i0 + 2, args_view(st)));
        } else if str_eq(a, "--port") {
            match next {
                Some(v) => match parse_u16(v.as_str()) {
                    Some(p) => { st.port = p; },
                    None => {},
                },
                None => {},
            }
            i = if i + 1 < n { i + 2 } else { n };
            assert(read_args(av, i0, sv) == read_args(av, i0 + 2, args_view(st)));
        } else if str_eq(a, "--exit-after") {
            st.exit_after = match next { Some(v) => Some(v.clone()), None => None };
            i = if i + 1 < n { i + 2 } else { n };
            assert(read_args(av, i0, sv) == read_args(av, i0 + 2, args_view(st)));
        } else if str_eq(a, "--doctor") || str_eq(a, "--selftest") {
            st.doctor = true;
            i = i + 1;
            assert(read_args(av, i0, sv) == read_args(av, i0 + 1, args_view(st)));
        } else if str_eq(a, "--version") {
            return ArgsOutcome::ShowVersion;
        } else {
            return ArgsOutcome::Unknown(args[i].clone());
        }
    }
    ArgsOutcome::Run(st)
}

} // verus!
