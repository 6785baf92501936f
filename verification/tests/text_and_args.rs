use bevyforge::args::{parse_args, ArgsOutcome};
use bevyforge::clock::{chronoish, clock_hms, hms, log_line, stamp, stamp_of};
use bevyforge::ipc::DEFAULT_PORT;
use bevyforge::text::{
    char_range, format_decimal, format_i32, format_padded, join, parse_u16, starts_with, str_eq,
    trim,
};

fn strings(xs: &[&str]) -> Vec<String> {
    xs.iter().map(|s| s.to_string()).collect()
}

#[test]
fn trim_drops_surrounding_whitespace() {
    assert_eq!(trim("  hi there \t\n"), "hi there");
    assert_eq!(trim("   "), "");
    assert_eq!(trim(""), "");
    assert_eq!(trim("x"), "x");
}

#[test]
fn parse_u16_follows_from_str() {
    assert_eq!(parse_u16("8080"), Some(8080));
    assert_eq!(parse_u16("+7"), Some(7));
    assert_eq!(parse_u16("65535"), Some(65535));
    assert_eq!(parse_u16("65536"), None);
    assert_eq!(parse_u16(""), None);
    assert_eq!(parse_u16("+"), None);
    assert_eq!(parse_u16("12a"), None);
    assert_eq!(parse_u16("-1"), None);
    assert_eq!(parse_u16("007"), Some(7));
    for s in ["0", "1", "443", "48470", "99999", "+65535", " 1"] {
        assert_eq!(parse_u16(s), s.parse::<u16>().ok(), "input {s:?}");
    }
}

#[test]
fn number_formatting() {
    assert_eq!(format_decimal(0), "0");
    assert_eq!(format_decimal(1234567), "1234567");
    assert_eq!(format_padded(7, 3), "007");
    assert_eq!(format_padded(1234, 2), "1234");
    assert_eq!(format_i32(-42), "-42");
    assert_eq!(format_i32(i32::MIN), "-2147483648");
    assert_eq!(format_i32(0), "0");
}

#[test]
fn join_and_slices() {
    assert_eq!(join(&strings(&["a", "b", "c"]), ", "), "a, b, c");
    assert_eq!(join(&Vec::new(), ", "), "");
    assert_eq!(join(&strings(&["solo"]), "--"), "solo");
    assert_eq!(char_range("hello", 1, 3), "el");
    assert!(starts_with("assets/scenes", "assets/"));
    assert!(!starts_with("asset", "assets/"));
    assert!(str_eq("abc", "abc"));
    assert!(!str_eq("abc", "abd"));
}

#[test]
fn args_read_every_option() {
    let args = strings(&[
        "--project", "/p", "--connect", "7001", "--port", "abc", "--exit-after", "2.5", "--doctor",
    ]);
    match parse_args(&args) {
        ArgsOutcome::Run(a) => {
            assert_eq!(a.project_dir.as_deref(), Some("/p"));
            assert_eq!(a.connect_port, Some(7001));
            assert_eq!(a.port, DEFAULT_PORT);
            assert_eq!(a.exit_after.as_deref(), Some("2.5"));
            assert!(a.doctor);
        }
        other => panic!("unexpected {other:?}"),
    }
}

#[test]
fn args_defaults_and_port() {
    match parse_args(&Vec::new()) {
        ArgsOutcome::Run(a) => {
            assert_eq!(a.project_dir, None);
            assert_eq!(a.connect_port, None);
            assert_eq!(a.port, DEFAULT_PORT);
            assert_eq!(a.exit_after, None);
            assert!(!a.doctor);
        }
        other => panic!("unexpected {other:?}"),
    }
    match parse_args(&strings(&["--port", "9000", "--selftest", "--connect", "99999"])) {
        ArgsOutcome::Run(a) => {
            assert_eq!(a.port, 9000);
            assert!(a.doctor);
            assert_eq!(a.connect_port, None);
        }
        other => panic!("unexpected {other:?}"),
    }
    match parse_args(&strings(&["--connect"])) {
        ArgsOutcome::Run(a) => assert_eq!(a.connect_port, None),
        other => panic!("unexpected {other:?}"),
    }
}

#[test]
fn args_version_and_unknown_stop_reading() {
    assert!(matches!(parse_args(&strings(&["--version", "--bogus"])), ArgsOutcome::ShowVersion));
    match parse_args(&strings(&["--doctor", "--bogus", "--version"])) {
        ArgsOutcome::Unknown(a) => assert_eq!(a, "--bogus"),
        other => panic!("unexpected {other:?}"),
    }
}

#[test]
fn clock_stamps() {
    assert_eq!(hms(0), "00:00:00");
    assert_eq!(hms(25 * 3600 + 61), "01:01:01");
    assert_eq!(hms(86399), "23:59:59");
    assert_eq!(stamp_of(3661, 7), "01:01:01.007");
    assert_eq!(stamp_of(86400 + 59, 999), "00:00:59.999");
    assert_eq!(log_line("12:00:00.000", 3, "INFO", "hi"), "[12:00:00.000 #00003] INFO: hi");
    assert_eq!(log_line("s", 123456, "WARN", ""), "[s #123456] WARN: ");
}

#[test]
fn clock_reads_the_system_time() {
    let c = clock_hms();
    assert_eq!(c.len(), 8);
    assert_eq!(&c[2..3], ":");
    assert_eq!(&c[5..6], ":");
    let s = stamp();
    assert_eq!(s.len(), 12);
    assert_eq!(&s[8..9], ".");
    let u = chronoish();
    assert!(u.starts_with("unix time "));
    let secs: u64 = u["unix time ".len()..].parse().unwrap();
    assert!(secs > 1_600_000_000);
}
