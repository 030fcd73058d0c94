//! The typed errors that host functions raise to scripts.  Each carries a
//! `kind` name and named fields; the engine hands them to the script as a
//! map `#{ kind, <fields> }`.
use vstd::prelude::*;

use crate::pact::engine::{PactError, PactErrorView};

verus! {

/// An error raised to a script by a host function.
#[derive(Debug, Clone)]
pub enum HostError {
    PathDenied { path: String },
    FileNotFound { path: String },
    FileAlreadyExists { path: String },
    IoError { path: String, msg: String },
    ParseError { format: String, message: String },
    BinaryNotAllowed { binary: String },
    BinaryNotFound { binary: String },
    SubcommandNotAllowed { binary: String, subcommand: String },
    FlagNotAllowed { binary: String, flag: String },
    FlagValueRejected { binary: String, flag: String, value: String, reason: String },
    PositionalRejected { binary: String, index: i64, value: String, reason: String },
    ExecFailed { binary: String, exit_code: i64, stdout: String, stderr: String },
    Timeout { binary: String, elapsed_ms: i64, limit_ms: i64 },
    OutputLimitExceeded { binary: String, bytes_seen: i64, limit: i64 },
    EnvDenied { key: String },
    EnvUnset { key: String },
    SerializeError { msg: String },
}

pub enum HostErrorView {
    PathDenied { path: Seq<char> },
    FileNotFound { path: Seq<char> },
    FileAlreadyExists { path: Seq<char> },
    IoError { path: Seq<char>, msg: Seq<char> },
    ParseError { format: Seq<char>, message: Seq<char> },
    BinaryNotAllowed { binary: Seq<char> },
    BinaryNotFound { binary: Seq<char> },
    SubcommandNotAllowed { binary: Seq<char>, subcommand: Seq<char> },
    FlagNotAllowed { binary: Seq<char>, flag: Seq<char> },
    FlagValueRejected { binary: Seq<char>, flag: Seq<char>, value: Seq<char>, reason: Seq<char> },
    PositionalRejected { binary: Seq<char>, index: int, value: Seq<char>, reason: Seq<char> },
    ExecFailed { binary: Seq<char>, exit_code: int, stdout: Seq<char>, stderr: Seq<char> },
    Timeout { binary: Seq<char>, elapsed_ms: int, limit_ms: int },
    OutputLimitExceeded { binary: Seq<char>, bytes_seen: int, limit: int },
    EnvDenied { key: Seq<char> },
    EnvUnset { key: Seq<char> },
    SerializeError { msg: Seq<char> },
}

impl View for HostError {
    type V = HostErrorView;

    open spec fn view(&self) -> HostErrorView {
        match self {
            HostError::PathDenied { path } => HostErrorView::PathDenied { path: path@ },
            HostError::FileNotFound { path } => HostErrorView::FileNotFound { path: path@ },
            HostError::FileAlreadyExists { path } => HostErrorView::FileAlreadyExists {
                path: path@,
            },
            HostError::IoError { path, msg } => HostErrorView::IoError { path: path@, msg: msg@ },
            HostError::ParseError { format, message } => HostErrorView::ParseError {
                format: format@,
                message: message@,
            },
            HostError::BinaryNotAllowed { binary } => HostErrorView::BinaryNotAllowed {
                binary: binary@,
            },
            HostError::BinaryNotFound { binary } => HostErrorView::BinaryNotFound {
                binary: binary@,
            },
            HostError::SubcommandNotAllowed { binary, subcommand } =>
                HostErrorView::SubcommandNotAllowed { binary: binary@, subcommand: subcommand@ },
            HostError::FlagNotAllowed { binary, flag } => HostErrorView::FlagNotAllowed {
                binary: binary@,
                flag: flag@,
            },
            HostError::FlagValueRejected { binary, flag, value, reason } =>
                HostErrorView::FlagValueRejected {
                binary: binary@,
                flag: flag@,
                value: value@,
                reason: reason@,
            },
            HostError::PositionalRejected { binary, index, value, reason } =>
                HostErrorView::PositionalRejected {
                binary: binary@,
                index: *index as int,
                value: value@,
                reason: reason@,
            },
            HostError::ExecFailed { binary, exit_code, stdout, stderr } =>
                HostErrorView::ExecFailed {
                binary: binary@,
                exit_code: *exit_code as int,
                stdout: stdout@,
                stderr: stderr@,
            },
            HostError::Timeout { binary, elapsed_ms, limit_ms } => HostErrorView::Timeout {
                binary: binary@,
                elapsed_ms: *elapsed_ms as int,
                limit_ms: *limit_ms as int,
            },
            HostError::OutputLimitExceeded { binary, bytes_seen, limit } =>
                HostErrorView::OutputLimitExceeded {
                binary: binary@,
                bytes_seen: *bytes_seen as int,
                limit: *limit as int,
            },
            HostError::EnvDenied { key } => HostErrorView::EnvDenied { key: key@ },
            HostError::EnvUnset { key } => HostErrorView::EnvUnset { key: key@ },
            HostError::SerializeError { msg } => HostErrorView::SerializeError { msg: msg@ },
        }
    }
}

/// The script-visible name of each kind of error.
pub open spec fn spec_kind_name(e: HostErrorView) -> Seq<char> {
    match e {
        HostErrorView::PathDenied { .. } => "PathDenied"@,
        HostErrorView::FileNotFound { .. } => "FileNotFound"@,
        HostErrorView::FileAlreadyExists { .. } => "FileAlreadyExists"@,
        HostErrorView::IoError { .. } => "IoError"@,
        HostErrorView::ParseError { .. } => "ParseError"@,
        HostErrorView::BinaryNotAllowed { .. } => "BinaryNotAllowed"@,
        HostErrorView::BinaryNotFound { .. } => "BinaryNotFound"@,
        HostErrorView::SubcommandNotAllowed { .. } => "SubcommandNotAllowed"@,
        HostErrorView::FlagNotAllowed { .. } => "FlagNotAllowed"@,
        HostErrorView::FlagValueRejected { .. } => "FlagValueRejected"@,
        HostErrorView::PositionalRejected { .. } => "PositionalRejected"@,
        HostErrorView::ExecFailed { .. } => "ExecFailed"@,
        HostErrorView::Timeout { .. } => "Timeout"@,
        HostErrorView::OutputLimitExceeded { .. } => "OutputLimitExceeded"@,
        HostErrorView::EnvDenied { .. } => "EnvDenied"@,
        HostErrorView::EnvUnset { .. } => "EnvUnset"@,
        HostErrorView::SerializeError { .. } => "SerializeError"@,
    }
}

impl HostError {
    /// The `kind` field of the error map.
    pub fn kind(&self) -> (k: &'static str)
        ensures
            k@ == spec_kind_name(self@),
    {
        match self {
            HostError::PathDenied { .. } => "PathDenied",
            HostError::FileNotFound { .. } => "FileNotFound",
            HostError::FileAlreadyExists { .. } => "FileAlreadyExists",
            HostError::IoError { .. } => "IoError",
            HostError::ParseError { .. } => "ParseError",
            HostError::BinaryNotAllowed { .. } => "BinaryNotAllowed",
            HostError::BinaryNotFound { .. } => "BinaryNotFound",
            HostError::SubcommandNotAllowed { .. } => "SubcommandNotAllowed",
            HostError::FlagNotAllowed { .. } => "FlagNotAllowed",
            HostError::FlagValueRejected { .. } => "FlagValueRejected",
            HostError::PositionalRejected { .. } => "PositionalRejected",
            HostError::ExecFailed { .. } => "ExecFailed",
            HostError::Timeout { .. } => "Timeout",
            HostError::OutputLimitExceeded { .. } => "OutputLimitExceeded",
            HostError::EnvDenied { .. } => "EnvDenied",
            HostError::EnvUnset { .. } => "EnvUnset",
            HostError::SerializeError { .. } => "SerializeError",
        }
    }
}

/// A value in a script-visible error map.
#[derive(Debug, Clone, PartialEq, Eq)]
pub enum FieldValue {
    Str(String),
    Int(i64),
}

pub enum FieldValueView {
    Str(Seq<char>),
    Int(int),
}

impl View for FieldValue {
    type V = FieldValueView;

    open spec fn view(&self) -> FieldValueView {
        match self {
            FieldValue::Str(s) => FieldValueView::Str(s@),
            FieldValue::Int(i) => FieldValueView::Int(*i as int),
        }
    }
}

/// The views of a list of error-map fields.
pub open spec fn fields_of(f: Seq<(String, FieldValue)>) -> Seq<(Seq<char>, FieldValueView)> {
    f.map_values(|e: (String, FieldValue)| (e.0@, e.1@))
}

/// The fields of the map a script receives for an error, in insertion
/// order: `kind` first, then the error's own fields.
pub open spec fn spec_error_fields(e: HostErrorView) -> Seq<(Seq<char>, FieldValueView)> {
    let own: Seq<(Seq<char>, FieldValueView)> = match e {
        HostErrorView::PathDenied { path } => seq![("path"@, FieldValueView::Str(path))],
        HostErrorView::FileNotFound { path } => seq![("path"@, FieldValueView::Str(path))],
        HostErrorView::FileAlreadyExists { path } => seq![("path"@, FieldValueView::Str(path))],
        HostErrorView::IoError { path, msg } => seq![
            ("path"@, FieldValueView::Str(path)),
            ("msg"@, FieldValueView::Str(msg)),
        ],
        HostErrorView::ParseError { format, message } => seq![
            ("format"@, FieldValueView::Str(format)),
            ("message"@, FieldValueView::Str(message)),
        ],
        HostErrorView::BinaryNotAllowed { binary } => seq![("binary"@, FieldValueView::Str(binary))],
        HostErrorView::BinaryNotFound { binary } => seq![("binary"@, FieldValueView::Str(binary))],
        HostErrorView::SubcommandNotAllowed { binary, subcommand } => seq![
            ("binary"@, FieldValueView::Str(binary)),
            ("subcommand"@, FieldValueView::Str(subcommand)),
        ],
        HostErrorView::FlagNotAllowed { binary, flag } => seq![
            ("binary"@, FieldValueView::Str(binary)),
            ("flag"@, FieldValueView::Str(flag)),
        ],
        HostErrorView::FlagValueRejected { binary, flag, value, reason } => seq![
            ("binary"@, FieldValueView::Str(binary)),
            ("flag"@, FieldValueView::Str(flag)),
            ("value"@, FieldValueView::Str(value)),
            ("reason"@, FieldValueView::Str(reason)),
        ],
        HostErrorView::PositionalRejected { binary, index, value, reason } => seq![
            ("binary"@, FieldValueView::Str(binary)),
            ("index"@, FieldValueView::Int(index)),
            ("value"@, FieldValueView::Str(value)),
            ("reason"@, FieldValueView::Str(reason)),
        ],
        HostErrorView::ExecFailed { binary, exit_code, stdout, stderr } => seq![
            ("binary"@, FieldValueView::Str(binary)),
            ("exit_code"@, FieldValueView::Int(exit_code)),
            ("stdout"@, FieldValueView::Str(stdout)),
            ("stderr"@, FieldValueView::Str(stderr)),
        ],
        HostErrorView::Timeout { binary, elapsed_ms, limit_ms } => seq![
            ("binary"@, FieldValueView::Str(binary)),
            ("elapsed_ms"@, FieldValueView::Int(elapsed_ms)),
            ("limit_ms"@, FieldValueView::Int(limit_ms)),
        ],
        HostErrorView::OutputLimitExceeded { binary, bytes_seen, limit } => seq![
            ("binary"@, FieldValueView::Str(binary)),
            ("bytes_seen"@, FieldValueView::Int(bytes_seen)),
            ("limit"@, FieldValueView::Int(limit)),
        ],
        HostErrorView::EnvDenied { key } => seq![("key"@, FieldValueView::Str(key))],
        HostErrorView::EnvUnset { key } => seq![("key"@, FieldValueView::Str(key))],
        HostErrorView::SerializeError { msg } => seq![("msg"@, FieldValueView::Str(msg))],
    };
    seq![("kind"@, FieldValueView::Str(spec_kind_name(e)))] + own
}

fn push_str(out: &mut Vec<(String, FieldValue)>, name: &str, v: &String)
    ensures
        fields_of(final(out)@) == fields_of(old(out)@).push((name@, FieldValueView::Str(v@))),
{
    out.push((String::from_str(name), FieldValue::Str(v.clone())));
    assert(fields_of(out@) =~= fields_of(old(out)@).push((name@, FieldValueView::Str(v@))));
}

fn push_int(out: &mut Vec<(String, FieldValue)>, name: &str, v: i64)
    ensures
        fields_of(final(out)@) == fields_of(old(out)@).push((name@, FieldValueView::Int(v as int))),
{
    out.push((String::from_str(name), FieldValue::Int(v)));
    assert(fields_of(out@) =~= fields_of(old(out)@).push((name@, FieldValueView::Int(v as int))));
}

impl HostError {
    /// The fields of the map a script receives for this error, `kind` first.
    pub fn fields(&self) -> (r: Vec<(String, FieldValue)>)
        ensures
            fields_of(r@) == spec_error_fields(self@),
    {
        let mut out: Vec<(String, FieldValue)> = Vec::new();
        let kind = String::from_str(self.kind());
        push_str(&mut out, "kind", &kind);
        match self {
            HostError::PathDenied { path } => push_str(&mut out, "path", path),
            HostError::FileNotFound { path } => push_str(&mut out, "path", path),
            HostError::FileAlreadyExists { path } => push_str(&mut out, "path", path),
            HostError::IoError { path, msg } => {
                push_str(&mut out, "path", path);
                push_str(&mut out, "msg", msg);
            },
            HostError::ParseError { format, message } => {
                push_str(&mut out, "format", format);
                push_str(&mut out, "message", message);
            },
            HostError::BinaryNotAllowed { binary } => push_str(&mut out, "binary", binary),
            HostError::BinaryNotFound { binary } => push_str(&mut out, "binary", binary),
            HostError::SubcommandNotAllowed { binary, subcommand } => {
                push_str(&mut out, "binary", binary);
                push_str(&mut out, "subcommand", subcommand);
            },
            HostError::FlagNotAllowed { binary, flag } => {
                push_str(&mut out, "binary", binary);
                push_str(&mut out, "flag", flag);
            },
            HostError::FlagValueRejected { binary, flag, value, reason } => {
                push_str(&mut out, "binary", binary);
                push_str(&mut out, "flag", flag);
                push_str(&mut out, "value", value);
                push_str(&mut out, "reason", reason);
            },
            HostError::PositionalRejected { binary, index, value, reason } => {
                push_str(&mut out, "binary", binary);
                push_int(&mut out, "index", *index);
                push_str(&mut out, "value", value);
                push_str(&mut out, "reason", reason);
            },
            HostError::ExecFailed { binary, exit_code, stdout, stderr } => {
                push_str(&mut out, "binary", binary);
                push_int(&mut out, "exit_code", *exit_code);
                push_str(&mut out, "stdout", stdout);
                push_str(&mut out, "stderr", stderr);
            },
            HostError::Timeout { binary, elapsed_ms, limit_ms } => {
                push_str(&mut out, "binary", binary);
                push_int(&mut out, "elapsed_ms", *elapsed_ms);
                push_int(&mut out, "limit_ms", *limit_ms);
            },
            HostError::OutputLimitExceeded { binary, bytes_seen, limit } => {
                push_str(&mut out, "binary", binary);
                push_int(&mut out, "bytes_seen", *bytes_seen);
                push_int(&mut out, "limit", *limit);
            },
            HostError::EnvDenied { key } => push_str(&mut out, "key", key),
            HostError::EnvUnset { key } => push_str(&mut out, "key", key),
            HostError::SerializeError { msg } => push_str(&mut out, "msg", msg),
        }
        assert(fields_of(out@) =~= spec_error_fields(self@));
        out
    }
}

/// The script-visible error for a pact violation.  A binary that cannot be
/// found on disk is reported as `BinaryNotFound`.
pub open spec fn spec_pact_error_to_host(e: PactErrorView) -> HostErrorView {
    match e {
        PactErrorView::BinaryNotAllowed { binary } => HostErrorView::BinaryNotAllowed { binary },
        PactErrorView::BinaryNotResolvable { binary } => HostErrorView::BinaryNotFound { binary },
        PactErrorView::SubcommandNotAllowed { binary, subcommand } =>
            HostErrorView::SubcommandNotAllowed { binary, subcommand },
        PactErrorView::FlagNotAllowed { binary, flag } => HostErrorView::FlagNotAllowed {
            binary,
            flag,
        },
        PactErrorView::FlagValueRejected { binary, flag, value, reason } =>
            HostErrorView::FlagValueRejected { binary, flag, value, reason },
        PactErrorView::PositionalRejected { binary, index, value, reason } =>
            HostErrorView::PositionalRejected {
                binary,
                index: (index as i64) as int,
                value,
                reason,
            },
    }
}

/// Convert a `PactError` into the typed error a script sees.
pub fn pact_error_to_host(err: PactError) -> (h: HostError)
    ensures
        h@ == spec_pact_error_to_host(err@),
{
    match err {
        PactError::BinaryNotAllowed { binary } => HostError::BinaryNotAllowed { binary },
        PactError::BinaryNotResolvable { binary } => HostError::BinaryNotFound { binary },
        PactError::SubcommandNotAllowed { binary, subcommand } => HostError::SubcommandNotAllowed {
            binary,
            subcommand,
        },
        PactError::FlagNotAllowed { binary, flag } => HostError::FlagNotAllowed { binary, flag },
        PactError::FlagValueRejected { binary, flag, value, reason } =>
            HostError::FlagValueRejected { binary, flag, value, reason },
        PactError::PositionalRejected { binary, index, value, reason } =>
            HostError::PositionalRejected {
                binary,
                index: #[verifier::truncate] (index as i64),
                value,
                reason,
            },
    }
}

} // verus!
