use reeve::pact::parse::{check_pact, path_is_absolute, ParseError};
use reeve::pact::presets::{test_fixtures, unix_readonly};
use reeve::pact::schema::{
    ActionSpec, BinaryBody, BinaryBodyRaw, BinarySpec, Defaults, KindSpec, Pact, PathSpec,
    PositionalSpec, SubcommandsConflict,
};
use reeve::pact::table::StrMap;

fn empty_action() -> ActionSpec {
    ActionSpec { allowed_flags: vec![], flag_values: StrMap::new(), positional: vec![] }
}

fn default_path(paths: &[&str]) -> PathSpec {
    PathSpec {
        default: Some(paths.iter().map(|s| s.to_string()).collect()),
        linux: None,
        macos: None,
    }
}

fn one_binary_pact(version: u32, name: &str, spec: BinarySpec) -> Pact {
    let mut binaries = StrMap::new();
    binaries.insert(name.to_owned(), spec);
    Pact {
        version,
        name: "bad".to_owned(),
        description: "bad".to_owned(),
        defaults: Defaults { timeout_seconds: 10, max_output_bytes: 1048576 },
        binaries,
    }
}

fn positional(kind: KindSpec, optional: bool, repeated: bool) -> PositionalSpec {
    PositionalSpec { kind, optional, repeated }
}

#[test]
fn parses_unix_readonly_preset() {
    let pact = check_pact(unix_readonly()).expect("should parse cleanly");
    assert_eq!(pact.binaries.len(), 5);

    let hostname = pact.binaries.get("hostname").unwrap();
    assert!(hostname.path.linux.is_some());
    assert!(hostname.path.macos.is_some());
    assert!(hostname.path.default.is_none());

    let whoami = pact.binaries.get("whoami").unwrap();
    match &whoami.body {
        BinaryBody::Direct(action) => {
            assert!(action.allowed_flags.is_empty());
            assert!(action.positional.is_empty());
        }
        _ => panic!("expected Direct body for whoami"),
    }

    let echo = pact.binaries.get("echo").unwrap();
    match &echo.body {
        BinaryBody::Direct(action) => {
            assert_eq!(action.positional.len(), 1);
            assert!(action.positional[0].repeated);
        }
        _ => panic!("expected Direct body for echo"),
    }
}

#[test]
fn parses_test_fixtures_preset() {
    let pact = check_pact(test_fixtures()).expect("should parse cleanly");
    assert_eq!(pact.binaries.len(), 2);
    let yes = pact.binaries.get("yes").unwrap();
    match &yes.body {
        BinaryBody::Direct(action) => {
            assert_eq!(action.positional.len(), 1);
            assert!(action.positional[0].optional);
            assert!(action.positional[0].repeated);
        }
        _ => panic!("expected Direct body for yes"),
    }
}

#[test]
fn rejects_unsupported_version() {
    let spec = BinarySpec { path: default_path(&["/bin/echo"]), body: BinaryBody::Direct(empty_action()) };
    let err = check_pact(one_binary_pact(2, "echo", spec)).unwrap_err();
    assert!(matches!(err, ParseError::UnsupportedVersion), "expected UnsupportedVersion, got: {err:?}");
}

#[test]
fn rejects_empty_path_spec() {
    let spec = BinarySpec {
        path: PathSpec { default: None, linux: None, macos: None },
        body: BinaryBody::Direct(empty_action()),
    };
    let err = check_pact(one_binary_pact(1, "echo", spec)).unwrap_err();
    assert!(matches!(err, ParseError::PathSpecEmpty { .. }), "expected PathSpecEmpty, got: {err:?}");
}

#[test]
fn rejects_relative_path() {
    let spec = BinarySpec { path: default_path(&["echo"]), body: BinaryBody::Direct(empty_action()) };
    let err = check_pact(one_binary_pact(1, "echo", spec)).unwrap_err();
    assert!(matches!(err, ParseError::PathNotAbsolute { .. }), "expected PathNotAbsolute, got: {err:?}");
    match err {
        ParseError::PathNotAbsolute { binary, path } => {
            assert_eq!(binary, "echo");
            assert_eq!(path, "echo");
        }
        _ => unreachable!(),
    }
}

#[test]
fn rejects_subcommands_with_direct() {
    let mut subs = StrMap::new();
    subs.insert(
        "log".to_owned(),
        ActionSpec { allowed_flags: vec!["--oneline".to_owned()], flag_values: StrMap::new(), positional: vec![] },
    );
    let raw = BinaryBodyRaw {
        subcommands: Some(subs),
        allowed_flags: vec!["--version".to_owned()],
        flag_values: StrMap::new(),
        positional: vec![],
    };
    let err = BinaryBody::from_raw(raw).unwrap_err();
    assert_eq!(err, SubcommandsConflict);
}

#[test]
fn rejects_repeated_not_last() {
    let action = ActionSpec {
        allowed_flags: vec![],
        flag_values: StrMap::new(),
        positional: vec![positional(KindSpec::String_, false, true), positional(KindSpec::Number, false, false)],
    };
    let spec = BinarySpec { path: default_path(&["/usr/bin/cmd"]), body: BinaryBody::Direct(action) };
    let err = check_pact(one_binary_pact(1, "cmd", spec)).unwrap_err();
    assert!(matches!(err, ParseError::RepeatedNotLast { .. }), "expected RepeatedNotLast, got: {err:?}");
}

#[test]
fn repeated_not_last_in_subcommand_names_it() {
    let mut subs = StrMap::new();
    subs.insert(
        "run".to_owned(),
        ActionSpec {
            allowed_flags: vec![],
            flag_values: StrMap::new(),
            positional: vec![positional(KindSpec::String_, true, true), positional(KindSpec::String_, false, false)],
        },
    );
    let spec = BinarySpec { path: default_path(&["/usr/bin/tool"]), body: BinaryBody::WithSubcommands(subs) };
    match check_pact(one_binary_pact(1, "tool", spec)).unwrap_err() {
        ParseError::RepeatedNotLast { binary, subcommand } => {
            assert_eq!(binary, "tool");
            assert_eq!(subcommand.as_deref(), Some("run"));
        }
        other => panic!("expected RepeatedNotLast, got: {other:?}"),
    }
}

#[test]
fn from_raw_chooses_subcommands_or_direct() {
    let mut subs = StrMap::new();
    subs.insert("log".to_owned(), empty_action());
    let raw = BinaryBodyRaw { subcommands: Some(subs), allowed_flags: vec![], flag_values: StrMap::new(), positional: vec![] };
    assert!(matches!(BinaryBody::from_raw(raw), Ok(BinaryBody::WithSubcommands(_))));
    let raw = BinaryBodyRaw {
        subcommands: None,
        allowed_flags: vec!["-a".to_owned()],
        flag_values: StrMap::new(),
        positional: vec![],
    };
    match BinaryBody::from_raw(raw) {
        Ok(BinaryBody::Direct(a)) => assert_eq!(a.allowed_flags, vec!["-a".to_owned()]),
        other => panic!("expected Direct, got: {other:?}"),
    }
}

#[test]
fn first_problem_in_key_order_is_reported() {
    let mut binaries = StrMap::new();
    binaries.insert(
        "zzz".to_owned(),
        BinarySpec { path: default_path(&["relative"]), body: BinaryBody::Direct(empty_action()) },
    );
    binaries.insert(
        "aaa".to_owned(),
        BinarySpec { path: PathSpec { default: None, linux: None, macos: None }, body: BinaryBody::Direct(empty_action()) },
    );
    let pact = Pact {
        version: 1,
        name: "p".to_owned(),
        description: "d".to_owned(),
        defaults: Defaults { timeout_seconds: 1, max_output_bytes: 1 },
        binaries,
    };
    match check_pact(pact).unwrap_err() {
        ParseError::PathSpecEmpty { binary } => assert_eq!(binary, "aaa"),
        other => panic!("expected PathSpecEmpty for aaa, got: {other:?}"),
    }
}

#[test]
fn path_is_absolute_means_leading_slash() {
    assert!(path_is_absolute("/bin/echo"));
    assert!(!path_is_absolute("bin/echo"));
    assert!(!path_is_absolute(""));
}
