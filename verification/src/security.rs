//! The security boundary compiled into the runtime: where the reeve home
//! lives, which environment variables a script may read and pass on, and
//! what the audit log captures.
use vstd::prelude::*;

use crate::runtime::errors::{HostError, HostErrorView};
use crate::strs::{contains_string, replace_all, replace_str, strs};

verus! {

/// Why the security configuration could not be loaded.
#[derive(Debug)]
pub enum ConfigError {
    /// The embedded `security.yaml` could not be read; the message says why.
    Parse(String),
    /// The `HOME` environment variable is not set.
    HomeMissing,
}

/// What the audit log captures.
#[derive(Debug, Clone, Copy, PartialEq, Eq, Structural)]
pub struct AuditConfig {
    pub capture_command: bool,
    pub capture_stdout: bool,
    pub capture_stderr: bool,
}

/// The configuration as written in `security.yaml`, before `$HOME` is
/// expanded.
#[derive(Debug, Clone)]
pub struct RawSecurityConfig {
    pub reeve_home: String,
    pub allowed_roots: Vec<String>,
    pub deny_traversal: bool,
    pub env_passthrough: Vec<String>,
    pub audit: AuditConfig,
}

/// What the process environment holds for a variable.
#[derive(Debug, Clone)]
pub enum EnvLookup {
    Present(String),
    NotPresent,
    /// Set, but not valid Unicode.
    NotUnicode,
}

/// The security configuration in force.
#[derive(Debug, Clone)]
pub struct SecurityConfig {
    pub reeve_home: String,
    pub allowed_roots: Vec<String>,
    pub deny_traversal: bool,
    pub env_passthrough: Vec<String>,
    pub audit: AuditConfig,
}

/// `$HOME` in a configured path, replaced by the user's home directory.
pub open spec fn expand_home(template: Seq<char>, home: Seq<char>) -> Seq<char> {
    replace_all(template, "$HOME"@, home)
}

/// The views of a list of `(name, value)` pairs.
pub open spec fn pairs_view(v: Seq<(String, String)>) -> Seq<(Seq<char>, Seq<char>)> {
    v.map_values(|p: (String, String)| (p.0@, p.1@))
}

/// The environment of a child process: for each listed key, in list order,
/// the key and its value when the process environment holds one (`found`
/// gives what it holds for each key); a key that is unset, or not Unicode,
/// is left out.
pub open spec fn spec_child_env(keys: Seq<Seq<char>>, found: Seq<EnvLookup>) -> Seq<
    (Seq<char>, Seq<char>),
>
    decreases keys.len(),
{
    if keys.len() == 0 || found.len() == 0 {
        Seq::empty()
    } else {
        let rest = spec_child_env(keys.drop_last(), found.drop_last());
        match found.last() {
            EnvLookup::Present(v) => rest.push((keys.last(), v@)),
            _ => rest,
        }
    }
}

impl SecurityConfig {
    /// The configuration in force for a user whose home directory is `home`:
    /// `$HOME` in `reeve_home` is replaced by `home`; everything else is kept
    /// as written (template variables in `allowed_roots` included).
    pub fn from_raw(raw: RawSecurityConfig, home: &str) -> (c: SecurityConfig)
        ensures
            c.reeve_home@ == expand_home(raw.reeve_home@, home@),
            c.allowed_roots == raw.allowed_roots,
            c.deny_traversal == raw.deny_traversal,
            c.env_passthrough == raw.env_passthrough,
            c.audit == raw.audit,
    {
        proof {
            reveal_strlit("$HOME");
        }
        let reeve_home = replace_str(raw.reeve_home.as_str(), "$HOME", home);
        SecurityConfig {
            reeve_home,
            allowed_roots: raw.allowed_roots,
            deny_traversal: raw.deny_traversal,
            env_passthrough: raw.env_passthrough,
            audit: raw.audit,
        }
    }

    /// Whether a script may read the environment variable `key`: it must be
    /// listed in `env_passthrough`.
    pub fn allows_env(&self, key: &str) -> (b: bool)
        ensures
            b == strs(self.env_passthrough@).contains(key@),
    {
        contains_string(&self.env_passthrough, key)
    }

    /// Refuse to read an environment variable not listed in
    /// `env_passthrough`.
    pub fn check_env_access(&self, key: &str) -> (r: Result<(), HostError>)
        ensures
            r is Ok <==> strs(self.env_passthrough@).contains(key@),
            r matches Err(e) ==> e@ == (HostErrorView::EnvDenied { key: key@ }),
    {
        if self.allows_env(key) {
            Ok(())
        } else {
            Err(HostError::EnvDenied { key: String::from_str(key) })
        }
    }

    /// The `env(key)` host function, given what the environment holds for
    /// `key`: a key not listed in `env_passthrough` is refused whatever the
    /// environment holds; an unset key is `EnvUnset`; a value that is not
    /// Unicode is an `IoError` with an empty path.
    pub fn read_env(&self, key: &str, found: EnvLookup) -> (r: Result<String, HostError>)
        ensures
            !strs(self.env_passthrough@).contains(key@) ==> (r matches Err(e) && e@
                == (HostErrorView::EnvDenied { key: key@ })),
            strs(self.env_passthrough@).contains(key@) ==> match found {
                EnvLookup::Present(v) => r == Ok::<String, HostError>(v),
                EnvLookup::NotPresent => r matches Err(e) && e@ == (HostErrorView::EnvUnset {
                    key: key@,
                }),
                EnvLookup::NotUnicode => r matches Err(e) && e@ == (HostErrorView::IoError {
                    path: Seq::empty(),
                    msg: "env var not valid unicode"@,
                }),
            },
    {
        self.check_env_access(key)?;
        match found {
            EnvLookup::Present(v) => Ok(v),
            EnvLookup::NotPresent => Err(HostError::EnvUnset { key: String::from_str(key) }),
            EnvLookup::NotUnicode => Err(
                HostError::IoError {
                    path: String::new(),
                    msg: String::from_str("env var not valid unicode"),
                },
            ),
        }
    }

    /// The environment a child process runs with: exactly the keys of
    /// `env_passthrough` that the process environment holds, with their
    /// values; nothing else is passed on.  `found[i]` is what the process
    /// environment holds for `env_passthrough[i]`.
    pub fn child_environment(&self, found: &Vec<EnvLookup>) -> (r: Vec<(String, String)>)
        requires
            found@.len() == self.env_passthrough@.len(),
        ensures
            pairs_view(r@) == spec_child_env(strs(self.env_passthrough@), found@),
    {
        let ghost keys = strs(self.env_passthrough@);
        let mut out: Vec<(String, String)> = Vec::new();
        let mut i: usize = 0;
        while i < found.len()
            invariant
                found@.len() == self.env_passthrough@.len(),
                keys == strs(self.env_passthrough@),
                i <= found@.len(),
                pairs_view(out@) == spec_child_env(keys.take(i as int), found@.take(i as int)),
            decreases found.len() - i,
        {
            proof {
                assert(keys.take(i + 1).drop_last() =~= keys.take(i as int));
                assert(found@.take(i + 1).drop_last() =~= found@.take(i as int));
                assert(keys.take(i + 1).last() == self.env_passthrough@[i as int]@);
            }
            match &found[i] {
                EnvLookup::Present(v) => {
                    let ghost before = out@;
                    out.push((self.env_passthrough[i].clone(), v.clone()));
                    assert(pairs_view(out@) =~= pairs_view(before).push(
                        (self.env_passthrough@[i as int]@, v@),
                    ));
                },
                _ => {},
            }
            i = i + 1;
        }
        assert(keys.take(found@.len() as int) =~= keys);
        assert(found@.take(found@.len() as int) =~= found@);
        out
    }
}

} // verus!
