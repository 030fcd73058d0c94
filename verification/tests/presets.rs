use reeve::pact::engine::{validate_call, HostOs, PactError};
use reeve::pact::parse::check_pact;
use reeve::pact::presets::{linux_readonly, test_fixtures, unix_readonly};
use reeve::pact::schema::{BinaryBody, KindSpec};

#[test]
fn linux_readonly_yaml_parses() {
    let pact = linux_readonly();
    assert_eq!(pact.binaries.len(), 5);
    assert!(pact.binaries.contains_key("echo"));
    assert!(pact.binaries.contains_key("date"));
    assert!(pact.binaries.contains_key("uname"));
    assert!(pact.binaries.contains_key("whoami"));
    assert!(pact.binaries.contains_key("hostname"));
}

#[test]
fn linux_readonly_validates_whoami_call() {
    let pact = linux_readonly();
    let result = validate_call(&pact, "whoami", &[], HostOs::Linux);
    match result {
        Ok(_) => {}
        // whoami may not exist on all CI images; path resolution failure
        // is acceptable here — the policy validation passed.
        Err(PactError::BinaryNotResolvable { .. }) => {}
        Err(e) => panic!("unexpected error: {e:?}"),
    }
}

#[test]
fn test_fixtures_yaml_parses() {
    let pact = test_fixtures();
    assert_eq!(pact.binaries.len(), 2);
    assert!(pact.binaries.contains_key("sleep"));
    assert!(pact.binaries.contains_key("yes"));
}

#[test]
fn test_fixtures_validates_sleep_call() {
    let pact = test_fixtures();
    let result = validate_call(&pact, "sleep", &["1".to_owned()], HostOs::Linux);
    match result {
        Ok(_) => {}
        Err(PactError::BinaryNotResolvable { .. }) => {}
        Err(e) => panic!("unexpected error: {e:?}"),
    }
}

#[test]
fn presets_pass_the_pact_checks() {
    assert!(check_pact(linux_readonly()).is_ok());
    assert!(check_pact(unix_readonly()).is_ok());
    assert!(check_pact(test_fixtures()).is_ok());
}

#[test]
fn presets_have_their_limits_and_names() {
    let l = linux_readonly();
    assert_eq!(l.version, 1);
    assert_eq!(l.name, "linux-readonly");
    assert_eq!(l.defaults.timeout_seconds, 10);
    assert_eq!(l.defaults.max_output_bytes, 1048576);
    let u = unix_readonly();
    assert_eq!(u.name, "unix-readonly");
    let t = test_fixtures();
    assert_eq!(t.name, "test-fixtures");
    assert_eq!(t.defaults.timeout_seconds, 1);
    assert_eq!(t.defaults.max_output_bytes, 4096);
}

#[test]
fn preset_binaries_iterate_in_key_order() {
    let pact = linux_readonly();
    let keys: Vec<&str> = (0..pact.binaries.len())
        .map(|i| pact.binaries.key_at(i).as_str())
        .collect();
    assert_eq!(keys, vec!["date", "echo", "hostname", "uname", "whoami"]);
}

#[test]
fn preset_hostname_has_per_os_paths_and_echo_a_repeated_string() {
    let pact = linux_readonly();
    let hostname = pact.binaries.get("hostname").unwrap();
    assert!(hostname.path.linux.is_some());
    assert!(hostname.path.macos.is_some());
    assert!(hostname.path.default.is_none());
    let echo = pact.binaries.get("echo").unwrap();
    match &echo.body {
        BinaryBody::Direct(action) => {
            assert_eq!(action.positional.len(), 1);
            assert!(action.positional[0].repeated);
            assert!(matches!(action.positional[0].kind, KindSpec::String_));
        }
        _ => panic!("expected Direct body for echo"),
    }
    let sleep = test_fixtures();
    let sleep = sleep.binaries.get("sleep").unwrap();
    match &sleep.body {
        BinaryBody::Direct(action) => {
            assert!(matches!(action.positional[0].kind, KindSpec::Number));
        }
        _ => panic!("expected Direct body for sleep"),
    }
}
