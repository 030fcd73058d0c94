//! The decisions of `exec`: what to run, and what to report once the child
//! has finished.  Spawning, waiting, timing and reading the child's output are
//! the runner's part; it hands the observations back here.
use vstd::prelude::*;

use crate::pact::engine::{
    body_verdict, spec_os_paths, validate_call, HostOs, PactErrorView,
};
use crate::pact::schema::{Defaults, Pact};
use crate::pact::table::lookup;
use crate::runtime::errors::{pact_error_to_host, spec_pact_error_to_host, HostError, HostErrorView};
use crate::strs::strs;

verus! {

/// What to spawn: the resolved binary, its arguments and its limits.
#[derive(Debug, Clone)]
pub struct ExecPlan {
    pub abs_path: String,
    pub argv: Vec<String>,
    pub timeout_ms: u64,
    pub max_output_bytes: u64,
}

/// How the child process ended, as the runner observed it.
#[derive(Debug, Clone)]
pub enum ChildOutcome {
    /// The child was still running when the timeout expired and was killed.
    TimedOut { elapsed_ms: i64 },
    /// The child had written more than the output cap (`bytes_seen` bytes
    /// on stdout and stderr together) while running, and was killed.
    OutputCapExceeded { elapsed_ms: i64, bytes_seen: usize },
    /// The child exited (`exit_code` is `None` when it was ended by a signal).
    /// `stdout`/`stderr` are the captured bytes decoded lossily;
    /// `stdout_bytes`/`stderr_bytes` are the numbers of bytes captured.
    Exited {
        exit_code: Option<i32>,
        elapsed_ms: i64,
        stdout: String,
        stderr: String,
        stdout_bytes: usize,
        stderr_bytes: usize,
    },
}

/// The audit record of a finished exec.
#[derive(Debug, Clone, PartialEq, Eq)]
pub enum ExecAudit {
    /// An `exec_error` event.
    Error { kind: String, limit_ms: Option<u64> },
    /// An `exec_end` event.
    End { exit_code: i32, duration_ms: u64, stdout_bytes: usize, stderr_bytes: usize },
}

/// The map an exec returns to the script.
#[derive(Debug, Clone)]
pub struct ExecOutput {
    pub stdout: String,
    pub stderr: String,
    pub exit_code: i64,
    pub duration_ms: i64,
}

/// Everything the runner must do once the child has finished.
#[derive(Debug)]
pub struct ExecDecision {
    /// What the script gets back.
    pub result: Result<ExecOutput, HostError>,
    /// The audit event to emit.
    pub audit: ExecAudit,
    /// Whether the exec counts toward the run's exec count.
    pub counted: bool,
}

/// The per-exec timeout in milliseconds.
pub open spec fn spec_timeout_ms(d: Defaults) -> int {
    d.timeout_seconds * 1000
}

/// The per-exec timeout of a pact's defaults, in milliseconds.
pub fn timeout_ms(defaults: &Defaults) -> (ms: u64)
    ensures
        ms == spec_timeout_ms(*defaults),
{
    (defaults.timeout_seconds as u64) * 1000
}

/// Check `(binary, argv)` against `pact` and, when it is allowed, say what to
/// spawn.  A violation comes back as the error the script sees.
pub fn plan_exec(pact: &Pact, binary: &str, argv: &[String], os: HostOs) -> (r: Result<
    ExecPlan,
    HostError,
>)
    ensures
        match lookup(pact.binaries@, binary@) {
            None => r matches Err(e) && e@ == (HostErrorView::BinaryNotAllowed { binary: binary@ }),
            Some(spec) => match r {
                Ok(plan) => {
                    &&& body_verdict(spec.body, binary@, strs(argv@)) is Ok
                    &&& strs(plan.argv@) == strs(argv@)
                    &&& (spec_os_paths(spec.path, os) matches Some(c) && c.contains(
                        plan.abs_path@,
                    ))
                    &&& plan.timeout_ms == spec_timeout_ms(pact.defaults)
                    &&& plan.max_output_bytes == pact.defaults.max_output_bytes
                },
                Err(e) => {
                    ||| e@ == (HostErrorView::BinaryNotFound { binary: binary@ })
                    ||| (body_verdict(spec.body, binary@, strs(argv@)) matches Err(v) && e@
                        == spec_pact_error_to_host(v))
                },
            },
        },
{
    match validate_call(pact, binary, argv, os) {
        Ok(resolved) => Ok(
            ExecPlan {
                abs_path: resolved.abs_path,
                argv: resolved.argv,
                timeout_ms: timeout_ms(&pact.defaults),
                max_output_bytes: pact.defaults.max_output_bytes,
            },
        ),
        Err(e) => Err(pact_error_to_host(e)),
    }
}

/// The exit code a script sees: the process's code, or -1 when it was ended
/// by a signal.
pub open spec fn spec_exit_code(code: Option<i32>) -> int {
    match code {
        Some(c) => c as int,
        None => -1,
    }
}

/// What the runner does next while it watches a running child.
#[derive(Debug, Clone, Copy, PartialEq, Eq, Structural)]
pub enum WatchAction {
    /// Keep waiting.
    Wait,
    /// The output passed the cap: kill the child and report
    /// `OutputLimitExceeded`.
    KillForOutput,
    /// The timeout expired: kill the child and report `Timeout`.
    KillForTimeout,
    /// The child exited: collect its output and report it.
    Collect,
}

/// The next step of watching a child that has written `bytes_seen` bytes
/// after `elapsed_ms` milliseconds: output past the cap ends the run at
/// once, whatever else holds; then an exited child is collected; then an
/// expired timeout ends the run.
pub open spec fn spec_watch_child(
    plan: ExecPlan,
    elapsed_ms: u64,
    bytes_seen: usize,
    exited: bool,
) -> WatchAction {
    if bytes_seen > plan.max_output_bytes {
        WatchAction::KillForOutput
    } else if exited {
        WatchAction::Collect
    } else if elapsed_ms >= plan.timeout_ms {
        WatchAction::KillForTimeout
    } else {
        WatchAction::Wait
    }
}

/// Decide the next step of watching a running child.
pub fn watch_child(plan: &ExecPlan, elapsed_ms: u64, bytes_seen: usize, exited: bool) -> (a:
    WatchAction)
    ensures
        a == spec_watch_child(*plan, elapsed_ms, bytes_seen, exited),
{
    if (bytes_seen as u128) > (plan.max_output_bytes as u128) {
        WatchAction::KillForOutput
    } else if exited {
        WatchAction::Collect
    } else if elapsed_ms >= plan.timeout_ms {
        WatchAction::KillForTimeout
    } else {
        WatchAction::Wait
    }
}

/// Decide what a finished exec reports.  A child killed for its output is
/// refused with `OutputLimitExceeded`, whatever `allow_fail` says; a child
/// killed at the timeout gets `Timeout`; for a child that exited, more
/// captured output than `max_output_bytes` is refused; then a non-zero exit is an
/// `ExecFailed` error unless `allow_fail` is set; otherwise the script gets
/// `#{ stdout, stderr, exit_code, duration_ms }`.  Only an exec that ran to
/// completion within the output cap is counted and recorded as `exec_end`.
pub fn decide_exec(binary: &str, plan: &ExecPlan, allow_fail: bool, outcome: ChildOutcome) -> (d:
    ExecDecision)
    ensures
        match outcome {
            ChildOutcome::TimedOut { elapsed_ms } => {
                &&& d.result matches Err(e) && e@ == (HostErrorView::Timeout {
                    binary: binary@,
                    elapsed_ms: elapsed_ms as int,
                    limit_ms: (plan.timeout_ms as i64) as int,
                })
                &&& d.audit matches ExecAudit::Error { kind, limit_ms } && kind@ == "Timeout"@
                    && limit_ms == Some(plan.timeout_ms)
                &&& !d.counted
            },
            ChildOutcome::OutputCapExceeded { elapsed_ms, bytes_seen } => {
                &&& d.result matches Err(e) && e@ == (HostErrorView::OutputLimitExceeded {
                    binary: binary@,
                    bytes_seen: (bytes_seen as i64) as int,
                    limit: (plan.max_output_bytes as i64) as int,
                })
                &&& d.audit matches ExecAudit::Error { kind, limit_ms } && kind@
                    == "OutputLimitExceeded"@ && limit_ms is None
                &&& !d.counted
            },
            ChildOutcome::Exited {
                exit_code,
                elapsed_ms,
                stdout,
                stderr,
                stdout_bytes,
                stderr_bytes,
            } => if stdout_bytes + stderr_bytes > plan.max_output_bytes {
                &&& d.result matches Err(e) && e@ == (HostErrorView::OutputLimitExceeded {
                    binary: binary@,
                    bytes_seen: ((stdout_bytes + stderr_bytes) as i64) as int,
                    limit: (plan.max_output_bytes as i64) as int,
                })
                &&& d.audit matches ExecAudit::Error { kind, limit_ms } && kind@
                    == "OutputLimitExceeded"@ && limit_ms is None
                &&& !d.counted
            } else {
                &&& d.audit == (ExecAudit::End {
                    exit_code: spec_exit_code(exit_code) as i32,
                    duration_ms: elapsed_ms as u64,
                    stdout_bytes,
                    stderr_bytes,
                })
                &&& d.counted
                &&& if spec_exit_code(exit_code) != 0 && !allow_fail {
                    d.result matches Err(e) && e@ == (HostErrorView::ExecFailed {
                        binary: binary@,
                        exit_code: spec_exit_code(exit_code),
                        stdout: stdout@,
                        stderr: stderr@,
                    })
                } else {
                    d.result matches Ok(out) && out.stdout == stdout && out.stderr == stderr
                        && out.exit_code == spec_exit_code(exit_code) && out.duration_ms
                        == elapsed_ms
                }
            },
        },
{
    match outcome {
        ChildOutcome::TimedOut { elapsed_ms } => ExecDecision {
            result: Err(
                HostError::Timeout {
                    binary: String::from_str(binary),
                    elapsed_ms,
                    limit_ms: #[verifier::truncate] (plan.timeout_ms as i64),
                },
            ),
            audit: ExecAudit::Error {
                kind: String::from_str("Timeout"),
                limit_ms: Some(plan.timeout_ms),
            },
            counted: false,
        },
        ChildOutcome::OutputCapExceeded { elapsed_ms, bytes_seen } => ExecDecision {
            result: Err(
                HostError::OutputLimitExceeded {
                    binary: String::from_str(binary),
                    bytes_seen: #[verifier::truncate] (bytes_seen as i64),
                    limit: #[verifier::truncate] (plan.max_output_bytes as i64),
                },
            ),
            audit: ExecAudit::Error { kind: String::from_str("OutputLimitExceeded"), limit_ms: None },
            counted: false,
        },
        ChildOutcome::Exited { exit_code, elapsed_ms, stdout, stderr, stdout_bytes, stderr_bytes } => {
            let total: u128 = (stdout_bytes as u128) + (stderr_bytes as u128);
            if total > (plan.max_output_bytes as u128) {
                return ExecDecision {
                    result: Err(
                        HostError::OutputLimitExceeded {
                            binary: String::from_str(binary),
                            bytes_seen: #[verifier::truncate] (total as i64),
                            limit: #[verifier::truncate] (plan.max_output_bytes as i64),
                        },
                    ),
                    audit: ExecAudit::Error {
                        kind: String::from_str("OutputLimitExceeded"),
                        limit_ms: None,
                    },
                    counted: false,
                };
            }
            let code: i64 = match exit_code {
                Some(c) => c as i64,
                None => -1,
            };
            let audit = ExecAudit::End {
                exit_code: #[verifier::truncate] (code as i32),
                duration_ms: #[verifier::truncate] (elapsed_ms as u64),
                stdout_bytes,
                stderr_bytes,
            };
            if code != 0 && !allow_fail {
                ExecDecision {
                    result: Err(
                        HostError::ExecFailed {
                            binary: String::from_str(binary),
                            exit_code: code,
                            stdout,
                            stderr,
                        },
                    ),
                    audit,
                    counted: true,
                }
            } else {
                ExecDecision {
                    result: Ok(
                        ExecOutput { stdout, stderr, exit_code: code, duration_ms: elapsed_ms },
                    ),
                    audit,
                    counted: true,
                }
            }
        },
    }
}

/// The error a script sees when the child could not be spawned or waited
/// for: an `ExecFailed` with exit code 1, no output, and the reason as
/// `stderr`.
pub fn launch_failed(binary: &str, reason: String) -> (e: HostError)
    ensures
        e@ == (HostErrorView::ExecFailed {
            binary: binary@,
            exit_code: 1,
            stdout: Seq::empty(),
            stderr: reason@,
        }),
{
    HostError::ExecFailed {
        binary: String::from_str(binary),
        exit_code: 1,
        stdout: String::new(),
        stderr: reason,
    }
}

} // verus!
