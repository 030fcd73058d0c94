use reeve::pact::kinds::validate;
use reeve::pact::schema::KindSpec;

// --- Enum ---

#[test]
fn enum_accepts_listed() {
    let kind = KindSpec::Enum {
        values: vec!["a".into(), "b".into()],
    };
    assert!(validate(&kind, "a").is_ok());
    assert!(validate(&kind, "b").is_ok());
}

#[test]
fn enum_rejects_unlisted() {
    let kind = KindSpec::Enum {
        values: vec!["a".into(), "b".into()],
    };
    let err = validate(&kind, "c").unwrap_err();
    assert!(err.reason.contains("not in allowed values"), "{}", err.reason);
}

#[test]
fn enum_rejection_lists_the_values() {
    let kind = KindSpec::Enum {
        values: vec!["json".into(), "yaml".into(), "wide".into()],
    };
    let err = validate(&kind, "xml").unwrap_err();
    assert_eq!(err.reason, "not in allowed values [json, yaml, wide]");
}

#[test]
fn enum_with_no_values_rejects_everything() {
    let kind = KindSpec::Enum { values: vec![] };
    let err = validate(&kind, "").unwrap_err();
    assert_eq!(err.reason, "not in allowed values []");
}

// --- Number ---

#[test]
fn number_accepts_zero_and_positive() {
    let kind = KindSpec::Number;
    assert!(validate(&kind, "0").is_ok());
    assert!(validate(&kind, "42").is_ok());
    assert!(validate(&kind, "18446744073709551615").is_ok()); // u64::MAX
}

#[test]
fn number_rejects_negative() {
    let kind = KindSpec::Number;
    let err = validate(&kind, "-1").unwrap_err();
    assert!(err.reason.contains("non-negative integer"), "{}", err.reason);
}

#[test]
fn number_rejects_alpha() {
    let kind = KindSpec::Number;
    let err = validate(&kind, "abc").unwrap_err();
    assert!(err.reason.contains("non-negative integer"), "{}", err.reason);
}

#[test]
fn number_follows_u64_from_str() {
    let kind = KindSpec::Number;
    for text in ["+7", "007", "18446744073709551615", "+0"] {
        assert!(validate(&kind, text).is_ok(), "{text:?}");
        assert!(text.parse::<u64>().is_ok(), "{text:?}");
    }
    for text in ["", "+", "-0", " 1", "1 ", "18446744073709551616", "99999999999999999999a", "1.5", "٣"] {
        let err = validate(&kind, text).unwrap_err();
        assert_eq!(err.reason, "not a non-negative integer", "{text:?}");
        assert!(text.parse::<u64>().is_err(), "{text:?}");
    }
}

// --- String ---

#[test]
fn string_accepts_plain() {
    let kind = KindSpec::String_;
    assert!(validate(&kind, "hello world").is_ok());
    assert!(validate(&kind, "some-flag-value_123").is_ok());
}

#[test]
fn string_rejects_metacharacters() {
    let kind = KindSpec::String_;
    // One rejection test per forbidden metacharacter (10 total).
    let cases: &[&str] = &[
        "\0", // null byte
        ";",  // command separator
        "&",  // background/chain
        "|",  // pipe
        "$",  // env interpolation
        "`",  // command substitution
        "<",  // redirect
        ">",  // redirect
        "\n", // newline
        "\r", // carriage return
    ];
    for input in cases {
        let err = match validate(&kind, input) {
            Err(e) => e,
            Ok(_) => panic!("expected rejection for {input:?}"),
        };
        assert!(
            err.reason.contains("forbidden character"),
            "reason should mention 'forbidden character' for {input:?}, got: {}",
            err.reason
        );
    }
}

#[test]
fn string_rejection_names_the_first_forbidden_character_in_table_order() {
    let kind = KindSpec::String_;
    // '>' comes before ';' in the value, but ';' comes first in the table.
    let err = validate(&kind, "a>b;c").unwrap_err();
    assert_eq!(err.reason, "contains forbidden character ';'");
    let err = validate(&kind, "x\ny").unwrap_err();
    assert_eq!(err.reason, "contains forbidden character newline");
    let err = validate(&kind, "a\0").unwrap_err();
    assert_eq!(err.reason, "contains forbidden character null byte");
}

#[test]
fn string_accepts_unicode_and_empty() {
    let kind = KindSpec::String_;
    assert!(validate(&kind, "").is_ok());
    assert!(validate(&kind, "héllo — wörld").is_ok());
    assert!(validate(&kind, "--flag=value").is_ok());
}
