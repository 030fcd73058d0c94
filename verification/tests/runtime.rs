use reeve::runtime::audit::timestamp_at;
use reeve::runtime::fs::ancestor_from_answers;
use reeve::pact::engine::validate_call_with_answers;
use reeve::runtime::errors::FieldValue;
use reeve::runtime::executor::{launch_failed, watch_child, WatchAction};
use reeve::security::EnvLookup;
use reeve::pact::engine::{first_existing_path, validate_resolved, HostOs, PactError};
use reeve::pact::presets::{linux_readonly, test_fixtures, unix_readonly};
use reeve::pact::schema::Defaults;
use reeve::runtime::audit::AuditEvent;
use reeve::runtime::errors::{pact_error_to_host, HostError};
use reeve::runtime::executor::{
    decide_exec, plan_exec, timeout_ms, ChildOutcome, ExecAudit, ExecPlan,
};
use reeve::runtime::fs::{
    nearest_existing_ancestor,
    check_script_path, components, decide_append, decide_exists, decide_read, decide_write,
    is_lexically_denied, join_path, path_starts_with, split_lines, split_segments, validate_path,
    PathProbe,
};
use reeve::runtime::report::{
    classify_fields, exit_code_for, format_fields, format_map_error, is_pact_violation, map_str,
    sort_strings,
};
use reeve::security::{AuditConfig, RawSecurityConfig, SecurityConfig};

fn s(v: &[&str]) -> Vec<String> {
    v.iter().map(|x| x.to_string()).collect()
}

fn probe_inside(exists: bool) -> PathProbe {
    PathProbe {
        canonical_parent: Ok("/home/u/.reeve/workspace".to_owned()),
        canonical_workspace: Ok("/home/u/.reeve/workspace".to_owned()),
        exists,
        is_symlink: false,
        canonical_candidate: if exists {
            Ok("/home/u/.reeve/workspace/out.txt".to_owned())
        } else {
            Err("No such file or directory".to_owned())
        },
    }
}

// ---------------------------------------------------------------------------
// File path rules
// ---------------------------------------------------------------------------

#[test]
fn b1_read_file_absolute_path_denied() {
    let err = decide_read("/etc/passwd", &probe_inside(true)).unwrap_err();
    assert_eq!(err.kind(), "PathDenied");
}

#[test]
fn b2_read_file_traversal_path_denied() {
    let err = decide_read("../../etc/passwd", &probe_inside(true)).unwrap_err();
    assert_eq!(err.kind(), "PathDenied");
}

#[test]
fn b3_write_file_already_exists() {
    assert!(decide_write("out.json", &probe_inside(false)).is_ok(), "first write should succeed");
    let err = decide_write("out.json", &probe_inside(true)).unwrap_err();
    assert_eq!(err.kind(), "FileAlreadyExists");
}

#[test]
fn b4_append_file_absolute_path_denied() {
    let err = decide_append("/etc/hosts", &probe_inside(true)).unwrap_err();
    assert_eq!(err.kind(), "PathDenied");
}

#[test]
fn b5_read_file_traversal_adjacent_denied() {
    let err = decide_read("../runs/anything/audit.jsonl", &probe_inside(true)).unwrap_err();
    assert_eq!(err.kind(), "PathDenied");
}

#[test]
fn h4_exists_false_for_missing() {
    assert!(!decide_exists("missing.txt", &probe_inside(false)));
}

#[test]
fn h3_exists_true_after_write() {
    assert!(decide_exists("x.txt", &probe_inside(true)));
}

#[test]
fn h5_read_lines_two_lines() {
    let lines = split_lines("line1\nline2");
    assert_eq!(lines.len(), 2, "expected 2 lines, got: {:?}", lines);
    assert_eq!(lines[0], "line1");
    assert_eq!(lines[1], "line2");
}

#[test]
fn read_lines_strips_trailing_newline_artifact() {
    let lines = split_lines("line1\nline2\n");
    assert_eq!(lines.len(), 2, "trailing newline should not produce extra empty element, got: {:?}", lines);
    assert_eq!(lines[0], "line1");
    assert_eq!(lines[1], "line2");
}

#[test]
fn split_lines_matches_str_lines() {
    for text in ["", "\n", "a", "a\r\nb\r\n", "a\n\nb", "\r", "x\ry\n", "a\r\n\r\n"] {
        let want: Vec<String> = text.lines().map(|l| l.to_owned()).collect();
        assert_eq!(split_lines(text), want, "text {text:?}");
    }
}

#[test]
fn symlink_inside_workspace_pointing_outside_is_denied() {
    let probe = PathProbe {
        canonical_parent: Ok("/w".to_owned()),
        canonical_workspace: Ok("/w".to_owned()),
        exists: true,
        is_symlink: true,
        canonical_candidate: Ok("/etc/passwd".to_owned()),
    };
    assert_eq!(decide_read("evil-link", &probe).unwrap_err().kind(), "PathDenied");
    assert_eq!(decide_append("evil-link", &probe).unwrap_err().kind(), "PathDenied");
}

#[test]
fn exists_symlink_pointing_outside_returns_false() {
    let probe = PathProbe {
        canonical_parent: Ok("/w".to_owned()),
        canonical_workspace: Ok("/w".to_owned()),
        exists: true,
        is_symlink: true,
        canonical_candidate: Ok("/etc/passwd".to_owned()),
    };
    assert!(!decide_exists("outside-link", &probe), "exists() must not return true for a symlink pointing outside workspace");
}

#[test]
fn write_file_on_dead_symlink_denied() {
    let probe = PathProbe {
        canonical_parent: Ok("/w".to_owned()),
        canonical_workspace: Ok("/w".to_owned()),
        exists: false,
        is_symlink: true,
        canonical_candidate: Err("No such file or directory".to_owned()),
    };
    assert_eq!(decide_write("dead-link", &probe).unwrap_err().kind(), "PathDenied");
}

#[test]
fn parent_outside_workspace_is_denied_and_probe_errors_are_io_errors() {
    let outside = PathProbe {
        canonical_parent: Ok("/tmp".to_owned()),
        canonical_workspace: Ok("/w".to_owned()),
        exists: false,
        is_symlink: false,
        canonical_candidate: Err("missing".to_owned()),
    };
    assert_eq!(validate_path("sub/x", &outside).unwrap_err().kind(), "PathDenied");
    let broken = PathProbe {
        canonical_parent: Err("permission denied".to_owned()),
        canonical_workspace: Ok("/w".to_owned()),
        exists: false,
        is_symlink: false,
        canonical_candidate: Err("missing".to_owned()),
    };
    match validate_path("x", &broken).unwrap_err() {
        HostError::IoError { path, msg } => {
            assert_eq!(path, "x");
            assert_eq!(msg, "permission denied");
        }
        other => panic!("expected IoError, got {other:?}"),
    }
}

#[test]
fn read_returns_canonical_path_and_missing_file_is_not_found() {
    assert_eq!(decide_read("out.txt", &probe_inside(true)).unwrap(), "/home/u/.reeve/workspace/out.txt");
    assert_eq!(decide_read("out.txt", &probe_inside(false)).unwrap_err().kind(), "FileNotFound");
    assert!(decide_append("new.txt", &probe_inside(false)).is_ok());
}

#[test]
fn lexical_rules_and_components() {
    assert!(is_lexically_denied("/abs"));
    assert!(is_lexically_denied("a/../b"));
    assert!(is_lexically_denied(".."));
    assert!(!is_lexically_denied("a/..b/c"));
    assert!(!is_lexically_denied("./a/b"));
    assert!(check_script_path("notes/today.txt").is_ok());
    assert_eq!(split_segments("a//b/./c/"), s(&["a", "b", "c"]));
    assert_eq!(components("/a/./b//c"), s(&["/", "a", "b", "c"]));
    assert_eq!(components("./a"), s(&[".", "a"]));
    assert!(path_starts_with("/w/x/y", "/w/x"));
    assert!(path_starts_with("/w/x/", "/w/x"));
    assert!(!path_starts_with("/w/xy", "/w/x"));
    assert!(!path_starts_with("/w", "/w/x"));
}

#[test]
fn join_path_puts_one_separator() {
    assert_eq!(join_path("/w", "a.txt"), "/w/a.txt");
    assert_eq!(join_path("/w/", "a.txt"), "/w/a.txt");
    assert_eq!(join_path("", "a.txt"), "a.txt");
    assert_eq!(
        std::path::Path::new("/w").join("sub/a.txt").to_str().unwrap(),
        join_path("/w", "sub/a.txt")
    );
}

// ---------------------------------------------------------------------------
// Report
// ---------------------------------------------------------------------------

#[test]
fn exit_codes_by_kind() {
    for k in ["BinaryNotAllowed", "BinaryNotFound", "SubcommandNotAllowed", "FlagNotAllowed", "FlagValueRejected", "PositionalRejected"] {
        assert!(is_pact_violation(k));
        assert_eq!(exit_code_for(k), 2);
    }
    for k in ["Timeout", "PathDenied", "ExecFailed", "", "binarynotallowed"] {
        assert!(!is_pact_violation(k));
        assert_eq!(exit_code_for(k), 1);
    }
}

#[test]
fn error_message_sorts_fields_and_skips_kind() {
    let fields = vec![
        ("kind".to_owned(), "BinaryNotAllowed".to_owned()),
        ("binary".to_owned(), "rm".to_owned()),
    ];
    assert_eq!(format_map_error("BinaryNotAllowed", &fields), "BinaryNotAllowed: binary=rm");
    let fields2 = vec![
        ("reason".to_owned(), "bad".to_owned()),
        ("kind".to_owned(), "FlagValueRejected".to_owned()),
        ("binary".to_owned(), "x".to_owned()),
        ("flag".to_owned(), "-o".to_owned()),
    ];
    assert_eq!(format_fields(&fields2), s(&["reason=bad", "binary=x", "flag=-o"]));
    let (code, msg) = classify_fields(&fields2);
    assert_eq!(code, 2);
    assert_eq!(msg, "FlagValueRejected: binary=x flag=-o reason=bad");
    let (code, msg) = classify_fields(&vec![("kind".to_owned(), "EnvUnset".to_owned())]);
    assert_eq!(code, 1);
    assert_eq!(msg, "EnvUnset");
    assert_eq!(map_str(&fields2, "flag"), "-o");
    assert_eq!(map_str(&fields2, "absent"), "");
}

#[test]
fn sort_strings_is_a_sorted_permutation() {
    let v = s(&["b", "a", "ab", "", "a"]);
    assert_eq!(sort_strings(&v), s(&["", "a", "a", "ab", "b"]));
}

// ---------------------------------------------------------------------------
// Exec decisions
// ---------------------------------------------------------------------------

fn plan() -> ExecPlan {
    ExecPlan { abs_path: "/bin/echo".to_owned(), argv: vec![], timeout_ms: 1000, max_output_bytes: 10 }
}

fn exited(code: Option<i32>, out: &str, err: &str) -> ChildOutcome {
    ChildOutcome::Exited {
        exit_code: code,
        elapsed_ms: 5,
        stdout: out.to_owned(),
        stderr: err.to_owned(),
        stdout_bytes: out.len(),
        stderr_bytes: err.len(),
    }
}

#[test]
fn unknown_binary_throws_binary_not_allowed() {
    let err = plan_exec(&unix_readonly(), "rm", &[], HostOs::Linux).unwrap_err();
    assert_eq!(err.kind(), "BinaryNotAllowed");
    match err {
        HostError::BinaryNotAllowed { binary } => assert_eq!(binary, "rm"),
        _ => unreachable!(),
    }
}

/// The error a script sees for `(binary, argv)` once the binary's path is
/// taken as resolved, so that no disk probe is involved.
fn resolved_error(binary: &str, argv: &[String]) -> HostError {
    let pact = unix_readonly();
    let spec = pact.binaries.get(binary).expect("binary in pact");
    let err = validate_resolved(spec, binary, argv, format!("/usr/bin/{binary}")).unwrap_err();
    pact_error_to_host(err)
}

#[test]
fn unknown_flag_throws_flag_not_allowed() {
    let err = resolved_error("uname", &s(&["-X"]));
    assert_eq!(err.kind(), "FlagNotAllowed");
    match err {
        HostError::FlagNotAllowed { flag, .. } => assert_eq!(flag, "-X"),
        _ => unreachable!(),
    }
}

#[test]
fn metachar_in_positional_throws_positional_rejected() {
    let err = resolved_error("echo", &s(&["hi;rm"]));
    assert_eq!(err.kind(), "PositionalRejected");
}

#[test]
fn plan_carries_limits_from_defaults() {
    match plan_exec(&test_fixtures(), "sleep", &s(&["1"]), HostOs::Linux) {
        Ok(p) => {
            assert_eq!(p.timeout_ms, 1000);
            assert_eq!(p.max_output_bytes, 4096);
            assert_eq!(p.argv, s(&["1"]));
            assert!(p.abs_path.starts_with('/'));
        }
        Err(HostError::BinaryNotFound { .. }) => {}
        Err(e) => panic!("unexpected error: {e:?}"),
    }
    assert_eq!(timeout_ms(&Defaults { timeout_seconds: 7, max_output_bytes: 0 }), 7000);
}

#[test]
fn sleep_exceeding_timeout_throws_timeout() {
    let d = decide_exec("sleep", &plan(), false, ChildOutcome::TimedOut { elapsed_ms: 1001 });
    match d.result.unwrap_err() {
        HostError::Timeout { binary, elapsed_ms, limit_ms } => {
            assert_eq!(binary, "sleep");
            assert_eq!(elapsed_ms, 1001);
            assert_eq!(limit_ms, 1000);
        }
        other => panic!("expected Timeout, got {other:?}"),
    }
    assert_eq!(d.audit, ExecAudit::Error { kind: "Timeout".to_owned(), limit_ms: Some(1000) });
    assert!(!d.counted);
}

#[test]
fn yes_exceeds_output_cap() {
    let d = decide_exec("yes", &plan(), true, exited(Some(0), "yyyyyyyy", "eee"));
    match d.result.unwrap_err() {
        HostError::OutputLimitExceeded { bytes_seen, limit, .. } => {
            assert_eq!(bytes_seen, 11);
            assert_eq!(limit, 10);
        }
        other => panic!("expected OutputLimitExceeded, got {other:?}"),
    }
    assert_eq!(d.audit, ExecAudit::Error { kind: "OutputLimitExceeded".to_owned(), limit_ms: None });
    assert!(!d.counted);
}

#[test]
fn nonzero_exit_fails_unless_allowed() {
    let d = decide_exec("false", &plan(), false, exited(Some(3), "o", "e"));
    match d.result.unwrap_err() {
        HostError::ExecFailed { exit_code, stdout, stderr, .. } => {
            assert_eq!(exit_code, 3);
            assert_eq!(stdout, "o");
            assert_eq!(stderr, "e");
        }
        other => panic!("expected ExecFailed, got {other:?}"),
    }
    assert!(d.counted);
    assert_eq!(d.audit, ExecAudit::End { exit_code: 3, duration_ms: 5, stdout_bytes: 1, stderr_bytes: 1 });

    let d = decide_exec("false", &plan(), true, exited(None, "", ""));
    let out = d.result.unwrap();
    assert_eq!(out.exit_code, -1);
    assert_eq!(out.duration_ms, 5);
    assert!(d.counted);
}

#[test]
fn whoami_succeeds() {
    let d = decide_exec("whoami", &plan(), false, exited(Some(0), "root\n", ""));
    let out = d.result.expect("whoami should succeed");
    assert_eq!(out.exit_code, 0);
    assert!(!out.stdout.is_empty(), "stdout should be non-empty");
}

// ---------------------------------------------------------------------------
// Errors, security, audit
// ---------------------------------------------------------------------------

#[test]
fn pact_errors_map_to_host_errors() {
    let h = pact_error_to_host(PactError::BinaryNotResolvable { binary: "x".to_owned() });
    assert_eq!(h.kind(), "BinaryNotFound");
    let h = pact_error_to_host(PactError::PositionalRejected {
        binary: "echo".to_owned(),
        index: 2,
        value: "a;b".to_owned(),
        reason: "r".to_owned(),
    });
    match h {
        HostError::PositionalRejected { index, .. } => assert_eq!(index, 2),
        other => panic!("unexpected {other:?}"),
    }
}

fn raw_config() -> RawSecurityConfig {
    RawSecurityConfig {
        reeve_home: "$HOME/.reeve".to_owned(),
        allowed_roots: vec!["$REEVE_HOME/workspace".to_owned()],
        deny_traversal: true,
        env_passthrough: s(&["PATH", "HOME", "LANG"]),
        audit: AuditConfig { capture_command: true, capture_stdout: false, capture_stderr: false },
    }
}

#[test]
fn load_parses_embedded_yaml() {
    let c = SecurityConfig::from_raw(raw_config(), "/home/u");
    assert!(c.deny_traversal);
    assert!(c.env_passthrough.contains(&"PATH".to_owned()));
    assert!(c.audit.capture_command);
    assert!(!c.audit.capture_stdout);
    assert!(!c.audit.capture_stderr);
}

#[test]
fn reeve_home_has_home_expanded() {
    let c = SecurityConfig::from_raw(raw_config(), "/home/u");
    assert!(!c.reeve_home.contains("$HOME"));
    assert_eq!(c.reeve_home, "/home/u/.reeve");
    assert_eq!(c.allowed_roots, s(&["$REEVE_HOME/workspace"]));
}

#[test]
fn env_access_is_limited_to_passthrough() {
    let c = SecurityConfig::from_raw(raw_config(), "/home/u");
    assert!(c.allows_env("HOME"));
    assert!(c.check_env_access("LANG").is_ok());
    match c.check_env_access("AWS_SECRET").unwrap_err() {
        HostError::EnvDenied { key } => assert_eq!(key, "AWS_SECRET"),
        other => panic!("unexpected {other:?}"),
    }
}

#[test]
fn audit_events_carry_their_fields() {
    match AuditEvent::exec_end("run-1", "whoami".to_owned(), 0, 12, 5, 0) {
        AuditEvent::ExecEnd { run_id, binary, exit_code, duration_ms, stdout_bytes, stderr_bytes, ts } => {
            assert_eq!(run_id, "run-1");
            assert_eq!(binary, "whoami");
            assert_eq!((exit_code, duration_ms, stdout_bytes, stderr_bytes), (0, 12, 5, 0));
            assert!(ts.ends_with('Z'));
        }
        other => panic!("unexpected {other:?}"),
    }
    match AuditEvent::script_end("r", "ok".to_owned(), 100, 2) {
        AuditEvent::ScriptEnd { exit_status, duration_ms, exec_count, .. } => {
            assert_eq!(exit_status, "ok");
            assert_eq!((duration_ms, exec_count), (100, 2));
        }
        other => panic!("unexpected {other:?}"),
    }
}

// ---------------------------------------------------------------------------
// Error maps, env, launch failures
// ---------------------------------------------------------------------------


#[test]
fn error_fields_put_kind_first() {
    let e = HostError::PositionalRejected {
        binary: "echo".to_owned(),
        index: 1,
        value: "a;b".to_owned(),
        reason: "r".to_owned(),
    };
    assert_eq!(
        e.fields(),
        vec![
            ("kind".to_owned(), FieldValue::Str("PositionalRejected".to_owned())),
            ("binary".to_owned(), FieldValue::Str("echo".to_owned())),
            ("index".to_owned(), FieldValue::Int(1)),
            ("value".to_owned(), FieldValue::Str("a;b".to_owned())),
            ("reason".to_owned(), FieldValue::Str("r".to_owned())),
        ]
    );
    let t = HostError::Timeout { binary: "sleep".to_owned(), elapsed_ms: 1002, limit_ms: 1000 };
    let f = t.fields();
    assert_eq!(f.len(), 4);
    assert_eq!(f[3], ("limit_ms".to_owned(), FieldValue::Int(1000)));
    assert_eq!(HostError::EnvUnset { key: "X".to_owned() }.fields().len(), 2);
}

#[test]
fn error_map_of_a_pact_violation_classifies_to_exit_2() {
    let e = pact_error_to_host(PactError::BinaryNotAllowed { binary: "rm".to_owned() });
    let as_text: Vec<(String, String)> = e
        .fields()
        .into_iter()
        .map(|(k, v)| match v {
            FieldValue::Str(s) => (k, s),
            FieldValue::Int(i) => (k, i.to_string()),
        })
        .collect();
    let (code, msg) = classify_fields(&as_text);
    assert_eq!(code, 2);
    assert_eq!(msg, "BinaryNotAllowed: binary=rm");
}

#[test]
fn env_reads_follow_the_passthrough_list() {
    let c = SecurityConfig::from_raw(raw_config(), "/home/u");
    assert_eq!(c.read_env("HOME", EnvLookup::Present("/home/u".to_owned())).unwrap(), "/home/u");
    assert_eq!(c.read_env("SECRET", EnvLookup::Present("x".to_owned())).unwrap_err().kind(), "EnvDenied");
    assert_eq!(c.read_env("LANG", EnvLookup::NotPresent).unwrap_err().kind(), "EnvUnset");
    match c.read_env("PATH", EnvLookup::NotUnicode).unwrap_err() {
        HostError::IoError { path, msg } => {
            assert_eq!(path, "");
            assert_eq!(msg, "env var not valid unicode");
        }
        other => panic!("unexpected {other:?}"),
    }
}

#[test]
fn launch_failure_is_exec_failed_with_code_1() {
    match launch_failed("ls", "No such file".to_owned()) {
        HostError::ExecFailed { binary, exit_code, stdout, stderr } => {
            assert_eq!(binary, "ls");
            assert_eq!(exit_code, 1);
            assert_eq!(stdout, "");
            assert_eq!(stderr, "No such file");
        }
        other => panic!("unexpected {other:?}"),
    }
}

#[test]
fn env_denied_for_key_not_in_passthrough() {
    let c = SecurityConfig::from_raw(raw_config(), "/home/u");
    match c.read_env("AWS_SECRET_ACCESS_KEY", EnvLookup::Present("x".to_owned())).unwrap_err() {
        HostError::EnvDenied { key } => assert_eq!(key, "AWS_SECRET_ACCESS_KEY"),
        other => panic!("expected EnvDenied, got: {:?}", other),
    }
}

#[test]
fn env_unset_for_key_in_passthrough_but_not_set() {
    let mut raw = raw_config();
    raw.env_passthrough.push("REEVE_TEST_UNSET_VAR".to_owned());
    let c = SecurityConfig::from_raw(raw, "/home/u");
    match c.read_env("REEVE_TEST_UNSET_VAR", EnvLookup::NotPresent).unwrap_err() {
        HostError::EnvUnset { key } => assert_eq!(key, "REEVE_TEST_UNSET_VAR"),
        other => panic!("expected EnvUnset, got: {:?}", other),
    }
}

#[test]
fn env_path_returns_value() {
    let c = SecurityConfig::from_raw(raw_config(), "/home/u");
    let result = c.read_env("PATH", EnvLookup::Present("/usr/bin:/bin".to_owned())).expect("env(PATH) should work");
    assert!(!result.is_empty(), "PATH should be non-empty");
}

#[test]
fn env_home_returns_value() {
    let c = SecurityConfig::from_raw(raw_config(), "/home/u");
    let result = c.read_env("HOME", EnvLookup::Present("/home/u".to_owned())).expect("env(HOME) should succeed");
    assert!(!result.is_empty(), "HOME should be non-empty");
}

#[test]
fn nearest_existing_ancestor_walks_up_to_an_existing_directory() {
    assert_eq!(nearest_existing_ancestor("/"), "/");
    assert_eq!(nearest_existing_ancestor("/no-such-dir-reeve-xyz/a/b"), "/");
    assert_eq!(nearest_existing_ancestor("/tmp/reeve-missing-q/r"), "/tmp");
    assert_eq!(nearest_existing_ancestor("relative-missing-reeve"), "");
}

#[test]
fn message_does_not_depend_on_field_order() {
    let a = vec![
        ("kind".to_owned(), "Timeout".to_owned()),
        ("binary".to_owned(), "sleep".to_owned()),
        ("elapsed_ms".to_owned(), "1001".to_owned()),
        ("limit_ms".to_owned(), "1000".to_owned()),
    ];
    let mut b = a.clone();
    b.reverse();
    assert_eq!(format_map_error("Timeout", &a), format_map_error("Timeout", &b));
    assert_eq!(format_map_error("Timeout", &a), "Timeout: binary=sleep elapsed_ms=1001 limit_ms=1000");
}

#[test]
fn now_ts_is_a_utc_millisecond_timestamp() {
    let ts = AuditEvent::now_ts();
    let b = ts.as_bytes();
    assert_eq!(b.len(), 24, "{ts:?}");
    for (i, c) in b.iter().enumerate() {
        match i {
            4 | 7 => assert_eq!(*c, b'-'),
            10 => assert_eq!(*c, b'T'),
            13 | 16 => assert_eq!(*c, b':'),
            19 => assert_eq!(*c, b'.'),
            23 => assert_eq!(*c, b'Z'),
            _ => assert!(c.is_ascii_digit(), "{ts:?}"),
        }
    }
}

#[test]
fn output_past_the_cap_kills_the_child_whatever_allow_fail_says() {
    let p = plan();
    assert_eq!(watch_child(&p, 0, 11, false), WatchAction::KillForOutput);
    assert_eq!(watch_child(&p, 5000, 11, true), WatchAction::KillForOutput);
    assert_eq!(watch_child(&p, 5000, 10, false), WatchAction::KillForTimeout);
    assert_eq!(watch_child(&p, 5000, 10, true), WatchAction::Collect);
    assert_eq!(watch_child(&p, 999, 10, false), WatchAction::Wait);
    for allow_fail in [false, true] {
        let d = decide_exec("yes", &p, allow_fail, ChildOutcome::OutputCapExceeded { elapsed_ms: 3, bytes_seen: 4097 });
        match d.result.unwrap_err() {
            HostError::OutputLimitExceeded { binary, bytes_seen, limit } => {
                assert_eq!(binary, "yes");
                assert_eq!(bytes_seen, 4097);
                assert_eq!(limit, 10);
            }
            other => panic!("expected OutputLimitExceeded, got {other:?}"),
        }
        assert_eq!(d.audit, ExecAudit::Error { kind: "OutputLimitExceeded".to_owned(), limit_ms: None });
        assert!(!d.counted);
    }
}

#[test]
fn first_existing_candidate_is_chosen() {
    let probed = vec![("/a".to_owned(), false), ("/b".to_owned(), true), ("/c".to_owned(), true)];
    assert_eq!(first_existing_path(&probed, "x").unwrap(), "/b");
    let none = vec![("/a".to_owned(), false), ("/b".to_owned(), false)];
    match first_existing_path(&none, "x").unwrap_err() {
        PactError::BinaryNotResolvable { binary } => assert_eq!(binary, "x"),
        other => panic!("unexpected {other:?}"),
    }
    assert!(first_existing_path(&vec![], "x").is_err());
}

#[test]
fn child_environment_passes_exactly_the_set_listed_keys() {
    let c = SecurityConfig::from_raw(raw_config(), "/home/u");
    let found = vec![
        EnvLookup::Present("/usr/bin".to_owned()),
        EnvLookup::NotPresent,
        EnvLookup::NotUnicode,
    ];
    assert_eq!(c.child_environment(&found), vec![("PATH".to_owned(), "/usr/bin".to_owned())]);
    let all = vec![
        EnvLookup::Present("p".to_owned()),
        EnvLookup::Present("h".to_owned()),
        EnvLookup::Present("l".to_owned()),
    ];
    assert_eq!(
        c.child_environment(&all),
        vec![("PATH".to_owned(), "p".to_owned()), ("HOME".to_owned(), "h".to_owned()), ("LANG".to_owned(), "l".to_owned())]
    );
}

#[test]
fn audit_events_are_stamped_with_a_utc_timestamp() {
    match AuditEvent::script_start("test-run-emit", "/tmp/test.rhai".to_owned(), vec![]) {
        AuditEvent::ScriptStart { ts, run_id, script_path, args } => {
            assert_eq!(ts.len(), 24);
            assert!(ts.ends_with('Z') && ts.as_bytes()[10] == b'T' && ts.as_bytes()[19] == b'.');
            assert_eq!(run_id, "test-run-emit");
            assert_eq!(script_path, "/tmp/test.rhai");
            assert!(args.is_empty());
        }
        other => panic!("unexpected {other:?}"),
    }
}

#[test]
fn timestamp_of_a_clock_reading() {
    assert_eq!(timestamp_at(Ok((0, 0))), "1970-01-01T00:00:00.000Z");
    assert_eq!(timestamp_at(Ok((1714566896, 789_000_000))), "2024-05-01T12:34:56.789Z");
    assert_eq!(timestamp_at(Err((1, 500_000_000))), "1969-12-31T23:59:58.500Z");
    assert_eq!(timestamp_at(Err((86_400, 0))), "1969-12-31T00:00:00.000Z");
    // Beyond what chrono can represent: the epoch.
    assert_eq!(timestamp_at(Ok((u64::MAX, 0))), "1970-01-01T00:00:00.000Z");
}

#[test]
fn ancestor_is_chosen_from_the_disk_answers() {
    assert_eq!(ancestor_from_answers("/a/b/c", &vec![true]), "/a/b/c");
    assert_eq!(ancestor_from_answers("/a/b/c", &vec![false, false, true]), "/a");
    assert_eq!(ancestor_from_answers("/a/b/c", &vec![false, false, false, false]), "/");
    assert_eq!(ancestor_from_answers("/a/b/c", &vec![false]), "/a/b");
    assert_eq!(ancestor_from_answers("x", &vec![false, false]), "");
}

#[test]
fn resolution_comes_before_the_argument_checks() {
    let pact = unix_readonly();
    // No candidate of uname exists: refused as unresolvable whatever the flags.
    match validate_call_with_answers(&pact, "uname", &s(&["-X"]), HostOs::Linux, &vec![false]) {
        Err(PactError::BinaryNotResolvable { binary }) => assert_eq!(binary, "uname"),
        other => panic!("unexpected {other:?}"),
    }
    match validate_call_with_answers(&pact, "uname", &s(&["-X"]), HostOs::Linux, &vec![true]) {
        Err(PactError::FlagNotAllowed { flag, .. }) => assert_eq!(flag, "-X"),
        other => panic!("unexpected {other:?}"),
    }
    let ok = validate_call_with_answers(&pact, "echo", &s(&["hello", "world"]), HostOs::Linux, &vec![true])
        .expect("echo accepted");
    assert_eq!(ok.argv, s(&["hello", "world"]));
    assert!(ok.abs_path.starts_with('/'));
    match validate_call_with_answers(&pact, "rm", &[], HostOs::Linux, &vec![true]) {
        Err(PactError::BinaryNotAllowed { .. }) => {}
        other => panic!("unexpected {other:?}"),
    }
}
