use std::path::Path;

use reeve::pact::engine::{resolve_path, validate_action, validate_call, HostOs, PactError};
use reeve::pact::presets::linux_readonly;
use reeve::pact::schema::{ActionSpec, BinaryBody, BinarySpec, KindSpec, Pact, PathSpec, PositionalSpec, Defaults};
use reeve::pact::table::StrMap;

fn direct_action(pact: &Pact, name: &str) -> ActionSpec {
    match &pact.binaries.get(name).expect("binary in pact").body {
        BinaryBody::Direct(a) => a.clone(),
        _ => panic!("expected Direct"),
    }
}

// -----------------------------------------------------------------------
// Happy paths
// -----------------------------------------------------------------------

#[test]
fn accepts_whoami_no_args() {
    let pact = linux_readonly();
    let result = validate_call(&pact, "whoami", &[], HostOs::Linux);
    // whoami may not exist on all CI images; skip gracefully.
    match result {
        Ok(re) => {
            assert!(Path::new(&re.abs_path).is_absolute());
        }
        Err(PactError::BinaryNotResolvable { .. }) => {
            // binary not on this box — acceptable in CI
        }
        Err(e) => panic!("unexpected error: {e:?}"),
    }
}

#[test]
fn accepts_uname_a() {
    let pact = linux_readonly();
    let argv = vec!["-a".to_owned()];
    match validate_call(&pact, "uname", &argv, HostOs::Linux) {
        Ok(_) => {}
        Err(PactError::BinaryNotResolvable { .. }) => {}
        Err(e) => panic!("unexpected error: {e:?}"),
    }
}

#[test]
fn accepts_echo_repeated() {
    let pact = linux_readonly();
    let argv = ["hello", "world"].map(str::to_owned).to_vec();
    match validate_call(&pact, "echo", &argv, HostOs::Linux) {
        Ok(re) => {
            assert_eq!(re.argv, argv);
        }
        Err(PactError::BinaryNotResolvable { .. }) => {}
        Err(e) => panic!("unexpected error: {e:?}"),
    }
}

// -----------------------------------------------------------------------
// Policy-violation paths
// -----------------------------------------------------------------------

#[test]
fn rejects_unknown_binary() {
    let pact = linux_readonly();
    let err = validate_call(&pact, "rm", &["-rf".to_owned(), "/".to_owned()], HostOs::Linux)
        .unwrap_err();
    assert!(
        matches!(err, PactError::BinaryNotAllowed { .. }),
        "expected BinaryNotAllowed, got: {err:?}"
    );
}

#[test]
fn rejects_unknown_flag() {
    let pact = linux_readonly();
    let argv = vec!["-X".to_owned()];
    match validate_call(&pact, "uname", &argv, HostOs::Linux) {
        Err(PactError::FlagNotAllowed { flag, .. }) => {
            assert_eq!(flag, "-X");
        }
        Err(PactError::BinaryNotResolvable { .. }) => {
            // uname absent on this box — re-test the logic directly
            let action = direct_action(&pact, "uname");
            let err = validate_action(&action, &argv, "uname", None).unwrap_err();
            assert!(matches!(err, PactError::FlagNotAllowed { .. }));
        }
        Ok(_) => panic!("expected FlagNotAllowed"),
        Err(e) => panic!("unexpected error: {e:?}"),
    }
}

#[test]
fn rejects_string_metachar_positional() {
    let pact = linux_readonly();
    let argv = vec!["hello;rm".to_owned()];
    match validate_call(&pact, "echo", &argv, HostOs::Linux) {
        Err(PactError::PositionalRejected { reason, value, .. }) => {
            assert!(reason.contains(';'), "reason should mention ';': {reason}");
            assert_eq!(value, "hello;rm");
        }
        Err(PactError::BinaryNotResolvable { .. }) => {
            let action = direct_action(&pact, "echo");
            let err = validate_action(&action, &argv, "echo", None).unwrap_err();
            assert!(matches!(err, PactError::PositionalRejected { .. }));
        }
        Ok(_) => panic!("expected PositionalRejected"),
        Err(e) => panic!("unexpected error: {e:?}"),
    }
}

#[test]
fn rejects_dollar_sign_positional() {
    let pact = linux_readonly();
    let argv = vec!["a$b".to_owned()];
    match validate_call(&pact, "echo", &argv, HostOs::Linux) {
        Err(PactError::PositionalRejected { reason, .. }) => {
            assert!(reason.contains('$'), "reason should mention '$': {reason}");
        }
        Err(PactError::BinaryNotResolvable { .. }) => {
            let action = direct_action(&pact, "echo");
            let err = validate_action(&action, &argv, "echo", None).unwrap_err();
            assert!(matches!(err, PactError::PositionalRejected { .. }));
        }
        Ok(_) => panic!("expected PositionalRejected"),
        Err(e) => panic!("unexpected error: {e:?}"),
    }
}

#[test]
fn rejects_newline_positional() {
    let pact = linux_readonly();
    let argv = vec!["a\nb".to_owned()];
    match validate_call(&pact, "echo", &argv, HostOs::Linux) {
        Err(PactError::PositionalRejected { reason, .. }) => {
            assert!(reason.contains("newline"), "reason should mention 'newline': {reason}");
        }
        Err(PactError::BinaryNotResolvable { .. }) => {
            let action = direct_action(&pact, "echo");
            let err = validate_action(&action, &argv, "echo", None).unwrap_err();
            assert!(matches!(err, PactError::PositionalRejected { .. }));
        }
        Ok(_) => panic!("expected PositionalRejected"),
        Err(e) => panic!("unexpected error: {e:?}"),
    }
}

#[test]
fn rejects_extra_positional_on_whoami() {
    let pact = linux_readonly();
    let argv = vec!["root".to_owned()];
    match validate_call(&pact, "whoami", &argv, HostOs::Linux) {
        Err(PactError::PositionalRejected { reason, value, .. }) => {
            assert_eq!(reason, "extra positional");
            assert_eq!(value, "root");
        }
        Err(PactError::BinaryNotResolvable { .. }) => {
            let action = direct_action(&pact, "whoami");
            let err = validate_action(&action, &argv, "whoami", None).unwrap_err();
            assert!(matches!(
                err,
                PactError::PositionalRejected { ref reason, .. } if reason == "extra positional"
            ));
        }
        Ok(_) => panic!("expected PositionalRejected"),
        Err(e) => panic!("unexpected error: {e:?}"),
    }
}

// -----------------------------------------------------------------------
// Path resolution
// -----------------------------------------------------------------------

#[test]
fn path_resolves_to_existing_absolute() {
    let pact = linux_readonly();
    for i in 0..pact.binaries.len() {
        let name = pact.binaries.key_at(i).clone();
        match validate_call(&pact, &name, &[], HostOs::Linux) {
            Ok(re) => {
                assert!(Path::new(&re.abs_path).is_absolute(), "{name}: path not absolute");
                assert!(Path::new(&re.abs_path).exists(), "{name}: path does not exist");
                return;
            }
            Err(PactError::BinaryNotResolvable { .. }) => continue,
            Err(PactError::PositionalRejected { .. }) | Err(PactError::FlagNotAllowed { .. }) => {
                let spec = pact.binaries.get(&name).unwrap();
                let p = resolve_path(spec, &name, HostOs::Linux).expect("resolve should succeed");
                assert!(Path::new(&p).is_absolute());
                assert!(Path::new(&p).exists());
                return;
            }
            Err(_) => continue,
        }
    }
}

// -----------------------------------------------------------------------
// Further cases of the allowlist
// -----------------------------------------------------------------------

fn strings(v: &[&str]) -> Vec<String> {
    v.iter().map(|s| s.to_string()).collect()
}

fn kubectl_like() -> Pact {
    let mut flag_values = StrMap::new();
    flag_values.insert(
        "-o".to_owned(),
        KindSpec::Enum { values: strings(&["json", "yaml"]) },
    );
    flag_values.insert("-n".to_owned(), KindSpec::String_);
    let get = ActionSpec {
        allowed_flags: strings(&["--all-namespaces"]),
        flag_values,
        positional: vec![
            PositionalSpec {
                kind: KindSpec::Enum { values: strings(&["pods", "nodes"]) },
                optional: false,
                repeated: false,
            },
            PositionalSpec { kind: KindSpec::Number, optional: true, repeated: false },
        ],
    };
    let mut subcommands = StrMap::new();
    subcommands.insert("get".to_owned(), get);
    let mut binaries = StrMap::new();
    binaries.insert(
        "kubectl".to_owned(),
        BinarySpec {
            path: PathSpec { default: Some(strings(&["/"])), linux: None, macos: None },
            body: BinaryBody::WithSubcommands(subcommands),
        },
    );
    binaries.insert(
        "ghost".to_owned(),
        BinarySpec {
            path: PathSpec {
                default: Some(strings(&["/nonexistent/ghost-binary"])),
                linux: None,
                macos: None,
            },
            body: BinaryBody::Direct(ActionSpec {
                allowed_flags: vec![],
                flag_values: StrMap::new(),
                positional: vec![],
            }),
        },
    );
    Pact {
        version: 1,
        name: "k".to_owned(),
        description: "d".to_owned(),
        defaults: Defaults { timeout_seconds: 5, max_output_bytes: 100 },
        binaries,
    }
}

#[test]
fn subcommand_flow_accepts_declared_arguments() {
    let pact = kubectl_like();
    let argv = strings(&["get", "-o", "json", "pods", "-n", "default", "3", "--all-namespaces"]);
    let re = validate_call(&pact, "kubectl", &argv, HostOs::Linux).expect("allowed");
    assert_eq!(re.abs_path, "/");
    assert_eq!(re.argv, argv);
}

#[test]
fn subcommand_missing_or_unknown_is_refused() {
    let pact = kubectl_like();
    match validate_call(&pact, "kubectl", &[], HostOs::Linux).unwrap_err() {
        PactError::SubcommandNotAllowed { binary, subcommand } => {
            assert_eq!(binary, "kubectl");
            assert_eq!(subcommand, "");
        }
        e => panic!("unexpected error: {e:?}"),
    }
    match validate_call(&pact, "kubectl", &strings(&["apply", "-f", "x"]), HostOs::Linux)
        .unwrap_err()
    {
        PactError::SubcommandNotAllowed { subcommand, .. } => assert_eq!(subcommand, "apply"),
        e => panic!("unexpected error: {e:?}"),
    }
}

#[test]
fn flag_value_is_checked_and_missing_value_is_empty() {
    let pact = kubectl_like();
    match validate_call(&pact, "kubectl", &strings(&["get", "-o", "xml"]), HostOs::Linux)
        .unwrap_err()
    {
        PactError::FlagValueRejected { flag, value, reason, .. } => {
            assert_eq!(flag, "-o");
            assert_eq!(value, "xml");
            assert_eq!(reason, "not in allowed values [json, yaml]");
        }
        e => panic!("unexpected error: {e:?}"),
    }
    match validate_call(&pact, "kubectl", &strings(&["get", "pods", "-o"]), HostOs::Linux)
        .unwrap_err()
    {
        PactError::FlagValueRejected { value, .. } => assert_eq!(value, ""),
        e => panic!("unexpected error: {e:?}"),
    }
    // A value that looks like a flag is still taken as the value.
    match validate_call(&pact, "kubectl", &strings(&["get", "-n", "-x"]), HostOs::Linux) {
        Ok(_) => {}
        Err(e) => panic!("unexpected error: {e:?}"),
    }
}

#[test]
fn positional_index_counts_positionals_only() {
    let pact = kubectl_like();
    match validate_call(
        &pact,
        "kubectl",
        &strings(&["get", "pods", "--all-namespaces", "seven"]),
        HostOs::Linux,
    )
    .unwrap_err()
    {
        PactError::PositionalRejected { index, value, reason, .. } => {
            assert_eq!(index, 1);
            assert_eq!(value, "seven");
            assert_eq!(reason, "not a non-negative integer");
        }
        e => panic!("unexpected error: {e:?}"),
    }
    match validate_call(&pact, "kubectl", &strings(&["get", "pods", "1", "2"]), HostOs::Linux)
        .unwrap_err()
    {
        PactError::PositionalRejected { index, reason, .. } => {
            assert_eq!(index, 2);
            assert_eq!(reason, "extra positional");
        }
        e => panic!("unexpected error: {e:?}"),
    }
}

#[test]
fn unresolvable_binary_is_reported_before_its_arguments() {
    let pact = kubectl_like();
    match validate_call(&pact, "ghost", &strings(&["-X"]), HostOs::Linux).unwrap_err() {
        PactError::BinaryNotResolvable { binary } => assert_eq!(binary, "ghost"),
        e => panic!("unexpected error: {e:?}"),
    }
}

#[test]
fn os_specific_paths_fall_back_to_default() {
    let pact = linux_readonly();
    let hostname = pact.binaries.get("hostname").unwrap();
    // hostname has no default list: on another OS it cannot be resolved.
    assert!(matches!(
        resolve_path(hostname, "hostname", HostOs::Other),
        Err(PactError::BinaryNotResolvable { .. })
    ));
    if let Ok(p) = resolve_path(hostname, "hostname", HostOs::Linux) {
        assert!(p == "/bin/hostname" || p == "/usr/bin/hostname");
    }
}
