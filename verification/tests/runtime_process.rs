use bevyforge::runtime::{
    candidate_paths_with, default_backend_chain, parse_port_line, spawn_failure_report, Handshake,
    HandshakeEvent, RuntimeSignal, RuntimeSpawner, TargetOs,
};
use std::path::PathBuf;

fn host() -> TargetOs {
    if std::path::MAIN_SEPARATOR == '\\' { TargetOs::Windows } else { TargetOs::Other }
}

fn joined(dir: &PathBuf, rel: &str) -> String {
    dir.join(rel).to_string_lossy().to_string()
}

#[test]
fn missing_binary_is_reported() {
    let mut spawner = RuntimeSpawner::with_defaults(TargetOs::Other);
    spawner.binary = Some("/nonexistent/bevyforge-runtime".to_string());
    let candidates = candidate_paths_with(host(), "/tmp/x", "");
    let exists = vec![false; candidates.len()];
    let r = spawner.find_binary_among(false, &candidates, &exists, "");
    assert!(r.is_err());
    assert_eq!(
        r.unwrap_err(),
        "configured runtime binary not found: /nonexistent/bevyforge-runtime"
    );
}

#[test]
fn windows_candidates_include_exe_suffix() {
    let dir = PathBuf::from("/tmp/fake-exe-dir");
    let paths = candidate_paths_with(host(), "/tmp/fake-exe-dir", ".exe");
    assert!(paths.contains(&joined(&dir, "bevyforge-runtime.exe")));
    assert!(paths.contains(&joined(&dir, "../bevyforge-runtime.exe")));
    // bare name must NOT be relied upon when a suffix exists
    assert!(!paths.contains(&joined(&dir, "bevyforge-runtime")));
}

#[test]
fn unix_candidates_have_no_suffix() {
    let dir = PathBuf::from("/tmp/fake-exe-dir");
    let paths = candidate_paths_with(host(), "/tmp/fake-exe-dir", "");
    assert!(paths.contains(&joined(&dir, "bevyforge-runtime")));
}

#[test]
fn default_chain_covers_platform_backends() {
    for os in [TargetOs::Windows, TargetOs::MacOs, TargetOs::Other] {
        let chain = default_backend_chain(os);
        assert_eq!(chain.first().map(String::as_str), Some(""));
        if os == TargetOs::Windows {
            assert!(chain.contains(&"dx12".to_string()));
            assert!(chain.contains(&"vulkan".to_string()));
            assert!(chain.contains(&"gl".to_string()));
        }
    }
    assert_eq!(default_backend_chain(TargetOs::Other), vec!["", "vulkan", "gl"]);
    assert_eq!(default_backend_chain(TargetOs::MacOs), vec!["", "metal"]);
}

#[test]
fn candidates_in_search_order() {
    let paths = candidate_paths_with(TargetOs::Other, "/opt/forge", "");
    assert_eq!(
        paths,
        vec![
            "/opt/forge/bevyforge-runtime",
            "/opt/forge/../bevyforge-runtime",
            "/opt/forge/../../bevyforge-runtime",
            "bevyforge-runtime",
        ]
    );
}

#[test]
fn first_existing_candidate_wins() {
    let spawner = RuntimeSpawner::with_defaults(TargetOs::Other);
    let candidates = candidate_paths_with(TargetOs::Other, "/opt/forge", "");
    let r = spawner.find_binary_among(false, &candidates, &vec![false, true, true, false], "");
    assert_eq!(r, Ok("/opt/forge/../bevyforge-runtime".to_string()));
    let none = spawner.find_binary_among(false, &candidates, &vec![false; 4], "");
    let msg = none.unwrap_err();
    assert!(msg.starts_with("bevyforge-runtime not found next to the editor or on PATH.\nsearched: /opt/forge/bevyforge-runtime, "));
    assert!(msg.ends_with("(Windows Defender may also have quarantined it)."));
}

#[test]
fn port_line_is_recognised() {
    assert_eq!(parse_port_line("FORGE_PORT=48470"), Some(48470));
    assert_eq!(parse_port_line("FORGE_PORT=  51234 \r"), Some(51234));
    assert_eq!(parse_port_line("FORGE_PORT=+7"), Some(7));
    assert_eq!(parse_port_line("FORGE_PORT=70000"), None);
    assert_eq!(parse_port_line("FORGE_PORT="), None);
    assert_eq!(parse_port_line("FORGE_PORT=12a"), None);
    assert_eq!(parse_port_line("port 48470"), None);
}

#[test]
fn handshake_reports_port() {
    let mut h = Handshake::new();
    assert!(h.observe(HandshakeEvent::Signal(RuntimeSignal::Stdout("booting".into()))));
    assert!(h.observe(HandshakeEvent::Idle));
    assert!(!h.observe(HandshakeEvent::Signal(RuntimeSignal::Port(5000))));
    assert_eq!(h.outcome(20), Ok(5000));
}

#[test]
fn handshake_crash_report_keeps_last_lines() {
    let mut h = Handshake::new();
    for i in 0..16 {
        assert!(h.observe(HandshakeEvent::Signal(RuntimeSignal::Stdout(format!("line {i}")))));
    }
    assert!(!h.observe(HandshakeEvent::Signal(RuntimeSignal::Exited(Some(-3)))));
    let msg = h.outcome(20).unwrap_err();
    let expected_tail: Vec<String> = (2..16).map(|i| format!("line {i}")).collect();
    assert_eq!(
        msg,
        format!(
            "engine crashed during startup (exit code Some(-3))\nengine output:\n  {}",
            expected_tail.join("\n  ")
        )
    );
}

#[test]
fn handshake_timeout_report() {
    let mut h = Handshake::new();
    assert!(!h.observe(HandshakeEvent::Disconnected));
    assert_eq!(h.outcome(20), Err("engine did not signal startup within 20s".to_string()));
    let mut h2 = Handshake::new();
    assert!(!h2.observe(HandshakeEvent::Signal(RuntimeSignal::Exited(None))));
    assert_eq!(h2.outcome(5), Err("engine crashed during startup (exit code None)".to_string()));
}

#[test]
fn every_backend_failed_report() {
    let backends = vec!["".to_string(), "vulkan".to_string()];
    let errors = vec!["no adapter".to_string(), "driver crashed".to_string()];
    assert_eq!(
        spawn_failure_report(&backends, &errors),
        "the render engine failed to start on every GPU backend tried.\n--backend auto: no adapter\n--backend vulkan: driver crashed"
    );
}

#[test]
fn windows_candidates_use_backslashes() {
    assert_eq!(
        candidate_paths_with(TargetOs::Windows, r"C:\Games\BevyForge", ".exe"),
        vec![
            r"C:\Games\BevyForge\bevyforge-runtime.exe",
            r"C:\Games\BevyForge\../bevyforge-runtime.exe",
            r"C:\Games\BevyForge\../../bevyforge-runtime.exe",
            "bevyforge-runtime.exe",
        ]
    );
}
