use reeve::runtime::logging::{compose_log_line, format_log_line};

/// `YYYY-MM-DDTHH:MM:SS.mmmZ <level> <msg>`, checked character by character.
fn matches_shape(line: &str, level: &str, msg: &str) -> bool {
    let b = line.as_bytes();
    if b.len() < 24 {
        return false;
    }
    let digit_at = |i: usize| b[i].is_ascii_digit();
    let ts_ok = (0..4).all(digit_at)
        && b[4] == b'-'
        && (5..7).all(digit_at)
        && b[7] == b'-'
        && (8..10).all(digit_at)
        && b[10] == b'T'
        && (11..13).all(digit_at)
        && b[13] == b':'
        && (14..16).all(digit_at)
        && b[16] == b':'
        && (17..19).all(digit_at)
        && b[19] == b'.'
        && (20..23).all(digit_at)
        && b[23] == b'Z';
    ts_ok && line[24..] == format!(" {level} {msg}")
}

#[test]
fn log_format_shape() {
    let line = format_log_line("INFO", "hello");
    assert!(matches_shape(&line, "INFO", "hello"), "log line did not match expected format: {line:?}");
}

#[test]
fn log_format_warn_shape() {
    let line = format_log_line("WARN", "something");
    assert!(matches_shape(&line, "WARN", "something"), "WARN line did not match: {line:?}");
}

#[test]
fn log_format_error_shape() {
    let line = format_log_line("ERROR", "oops");
    assert!(matches_shape(&line, "ERROR", "oops"), "ERROR line did not match: {line:?}");
}

#[test]
fn compose_log_line_exact() {
    assert_eq!(
        compose_log_line("2024-01-02T03:04:05.678Z", "INFO", "hi there"),
        "2024-01-02T03:04:05.678Z INFO hi there"
    );
}

#[test]
fn compose_log_line_empty_message_keeps_separator() {
    assert_eq!(compose_log_line("T", "WARN", ""), "T WARN ");
}
