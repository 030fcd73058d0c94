//! The allowlist engine: checks a requested `(binary, argv)` against a pact.
use vstd::prelude::*;

use crate::pact::kinds::{
    free_of_metacharacters, kind_check, lemma_string_kind_accepts_iff_free, validate,
};
use crate::pact::schema::{
    ActionSpec, ActionSpecView, BinaryBody, KindSpecView, BinaryBodyView, BinarySpec, BinarySpecView,
    Pact, PathSpecView,
};
use crate::pact::table::lookup;
use crate::strs::{
    contains_string, copy_strings, copy_strings_tail, starts_with_char, str_starts_with_char, strs,
};

verus! {

/// The operating system whose path list is used to find a binary.
#[derive(Debug, Clone, Copy, PartialEq, Eq, Structural)]
pub enum HostOs {
    Linux,
    Macos,
    Other,
}

/// A policy violation, or a binary that cannot be found on disk.
#[derive(Debug)]
pub enum PactError {
    BinaryNotAllowed { binary: String },
    BinaryNotResolvable { binary: String },
    SubcommandNotAllowed { binary: String, subcommand: String },
    FlagNotAllowed { binary: String, flag: String },
    FlagValueRejected { binary: String, flag: String, value: String, reason: String },
    PositionalRejected { binary: String, index: usize, value: String, reason: String },
}

pub enum PactErrorView {
    BinaryNotAllowed { binary: Seq<char> },
    BinaryNotResolvable { binary: Seq<char> },
    SubcommandNotAllowed { binary: Seq<char>, subcommand: Seq<char> },
    FlagNotAllowed { binary: Seq<char>, flag: Seq<char> },
    FlagValueRejected { binary: Seq<char>, flag: Seq<char>, value: Seq<char>, reason: Seq<char> },
    PositionalRejected { binary: Seq<char>, index: nat, value: Seq<char>, reason: Seq<char> },
}

impl View for PactError {
    type V = PactErrorView;

    open spec fn view(&self) -> PactErrorView {
        match self {
            PactError::BinaryNotAllowed { binary } => PactErrorView::BinaryNotAllowed {
                binary: binary@,
            },
            PactError::BinaryNotResolvable { binary } => PactErrorView::BinaryNotResolvable {
                binary: binary@,
            },
            PactError::SubcommandNotAllowed { binary, subcommand } =>
                PactErrorView::SubcommandNotAllowed { binary: binary@, subcommand: subcommand@ },
            PactError::FlagNotAllowed { binary, flag } => PactErrorView::FlagNotAllowed {
                binary: binary@,
                flag: flag@,
            },
            PactError::FlagValueRejected { binary, flag, value, reason } =>
                PactErrorView::FlagValueRejected {
                binary: binary@,
                flag: flag@,
                value: value@,
                reason: reason@,
            },
            PactError::PositionalRejected { binary, index, value, reason } =>
                PactErrorView::PositionalRejected {
                binary: binary@,
                index: *index as nat,
                value: value@,
                reason: reason@,
            },
        }
    }
}

/// The resolved binary path and validated argument list returned on success.
#[derive(Debug, Clone)]
pub struct ResolvedExec {
    /// Absolute path to the binary on disk.
    pub abs_path: String,
    /// The validated argv, without the binary name itself.
    pub argv: Vec<String>,
}

// ---------------------------------------------------------------------------
// Specification
// ---------------------------------------------------------------------------

/// A token that begins with `-` is a flag; every other token is positional.
pub open spec fn is_flag(tok: Seq<char>) -> bool {
    starts_with_char(tok, '-')
}

/// The verdict on `args[i..]` after `count` positionals have been consumed
/// and the positional cursor stands at `pos`.
pub open spec fn action_scan(
    action: ActionSpecView,
    binary: Seq<char>,
    args: Seq<Seq<char>>,
    i: int,
    pos: int,
    count: nat,
) -> Result<(), PactErrorView>
    decreases args.len() + 1 - i,
{
    if i < 0 || i >= args.len() {
        Ok(())
    } else {
        let tok = args[i];
        if is_flag(tok) {
            match lookup(action.flag_values, tok) {
                Some(kind) => {
                    let value = if i + 1 < args.len() {
                        args[i + 1]
                    } else {
                        Seq::<char>::empty()
                    };
                    match kind_check(kind, value) {
                        Some(reason) => Err(
                            PactErrorView::FlagValueRejected { binary, flag: tok, value, reason },
                        ),
                        None => action_scan(action, binary, args, i + 2, pos, count),
                    }
                },
                None => if action.allowed_flags.contains(tok) {
                    action_scan(action, binary, args, i + 1, pos, count)
                } else {
                    Err(PactErrorView::FlagNotAllowed { binary, flag: tok })
                },
            }
        } else if pos < 0 || pos >= action.positional.len() {
            Err(
                PactErrorView::PositionalRejected {
                    binary,
                    index: count,
                    value: tok,
                    reason: "extra positional"@,
                },
            )
        } else {
            let slot = action.positional[pos];
            match kind_check(slot.kind, tok) {
                Some(reason) => Err(
                    PactErrorView::PositionalRejected { binary, index: count, value: tok, reason },
                ),
                None => action_scan(
                    action,
                    binary,
                    args,
                    i + 1,
                    if slot.repeated {
                        pos
                    } else {
                        pos + 1
                    },
                    count + 1,
                ),
            }
        }
    }
}

/// The verdict of an action on a whole argument list.
pub open spec fn action_verdict(action: ActionSpecView, binary: Seq<char>, args: Seq<Seq<char>>) -> Result<(), PactErrorView> {
    action_scan(action, binary, args, 0, 0, 0)
}

/// The verdict of a binary body on an argument list.
pub open spec fn body_verdict(body: BinaryBodyView, binary: Seq<char>, argv: Seq<Seq<char>>) -> Result<(), PactErrorView> {
    match body {
        BinaryBodyView::Direct(action) => action_verdict(action, binary, argv),
        BinaryBodyView::WithSubcommands(table) => if argv.len() == 0 {
            Err(PactErrorView::SubcommandNotAllowed { binary, subcommand: Seq::empty() })
        } else {
            match lookup(table, argv[0]) {
                None => Err(PactErrorView::SubcommandNotAllowed { binary, subcommand: argv[0] }),
                Some(action) => action_verdict(action, binary, argv.drop_first()),
            }
        },
    }
}

/// The candidate paths of a binary on `os`: the list for `os` when the pact
/// has one, else the `default` list.
pub open spec fn spec_os_paths(path: PathSpecView, os: HostOs) -> Option<Seq<Seq<char>>> {
    match os {
        HostOs::Linux => if path.linux is Some {
            path.linux
        } else {
            path.default
        },
        HostOs::Macos => if path.macos is Some {
            path.macos
        } else {
            path.default
        },
        HostOs::Other => path.default,
    }
}

/// The candidate list on an operating system is that system's own list
/// whenever the pact gives one; the `default` list is used only when the
/// system has no list of its own, and on any other system.
pub proof fn law_os_list_preferred_over_default(path: PathSpecView, l: Seq<Seq<char>>)
    ensures
        path.linux == Some(l) ==> spec_os_paths(path, HostOs::Linux) == Some(l),
        path.macos == Some(l) ==> spec_os_paths(path, HostOs::Macos) == Some(l),
        path.linux is None ==> spec_os_paths(path, HostOs::Linux) == path.default,
        path.macos is None ==> spec_os_paths(path, HostOs::Macos) == path.default,
        spec_os_paths(path, HostOs::Other) == path.default,
{
}

// ---------------------------------------------------------------------------
// Laws of the allowlist
// ---------------------------------------------------------------------------

/// Position `i` holds a token in its own right: it is not the value taken by
/// a value-taking flag just before it.
pub open spec fn stands_alone(action: ActionSpecView, args: Seq<Seq<char>>, i: int) -> bool {
    i == 0 || !(is_flag(args[i - 1]) && lookup(action.flag_values, args[i - 1]) is Some)
}

proof fn lemma_undeclared_flag_from(
    action: ActionSpecView,
    binary: Seq<char>,
    args: Seq<Seq<char>>,
    i: int,
    j: int,
    pos: int,
    count: nat,
)
    requires
        0 <= j <= i < args.len(),
        is_flag(args[i]),
        lookup(action.flag_values, args[i]) is None,
        !action.allowed_flags.contains(args[i]),
        stands_alone(action, args, i),
    ensures
        action_scan(action, binary, args, j, pos, count) is Err,
    decreases i - j,
{
    if j < i {
        let tok = args[j];
        if is_flag(tok) {
            match lookup(action.flag_values, tok) {
                Some(kind) => {
                    let value = if j + 1 < args.len() {
                        args[j + 1]
                    } else {
                        Seq::<char>::empty()
                    };
                    if kind_check(kind, value) is None {
                        lemma_undeclared_flag_from(action, binary, args, i, j + 2, pos, count);
                    }
                },
                None => {
                    if action.allowed_flags.contains(tok) {
                        lemma_undeclared_flag_from(action, binary, args, i, j + 1, pos, count);
                    }
                },
            }
        } else if 0 <= pos < action.positional.len() {
            let slot = action.positional[pos];
            if kind_check(slot.kind, tok) is None {
                lemma_undeclared_flag_from(
                    action,
                    binary,
                    args,
                    i,
                    j + 1,
                    if slot.repeated {
                        pos
                    } else {
                        pos + 1
                    },
                    count + 1,
                );
            }
        }
    }
}

/// A flag that the action neither allows nor gives a value kind is refused,
/// wherever it stands as a token of its own.
pub proof fn law_undeclared_flag_rejected(
    action: ActionSpecView,
    binary: Seq<char>,
    args: Seq<Seq<char>>,
    i: int,
)
    requires
        0 <= i < args.len(),
        is_flag(args[i]),
        lookup(action.flag_values, args[i]) is None,
        !action.allowed_flags.contains(args[i]),
        stands_alone(action, args, i),
    ensures
        action_verdict(action, binary, args) is Err,
{
    lemma_undeclared_flag_from(action, binary, args, i, 0, 0, 0);
}

proof fn lemma_accepted_positional_from(
    action: ActionSpecView,
    binary: Seq<char>,
    args: Seq<Seq<char>>,
    i: int,
    j: int,
    pos: int,
    count: nat,
)
    requires
        0 <= j <= i < args.len(),
        !is_flag(args[i]),
        stands_alone(action, args, i),
        action_scan(action, binary, args, j, pos, count) is Ok,
    ensures
        exists|k: int|
            0 <= k < action.positional.len() && kind_check(
                (#[trigger] action.positional[k]).kind,
                args[i],
            ) is None,
    decreases i - j,
{
    let tok = args[j];
    if j == i {
        assert(kind_check(action.positional[pos].kind, args[i]) is None);
    } else if is_flag(tok) {
        match lookup(action.flag_values, tok) {
            Some(kind) => {
                lemma_accepted_positional_from(action, binary, args, i, j + 2, pos, count);
            },
            None => {
                lemma_accepted_positional_from(action, binary, args, i, j + 1, pos, count);
            },
        }
    } else {
        let slot = action.positional[pos];
        lemma_accepted_positional_from(
            action,
            binary,
            args,
            i,
            j + 1,
            if slot.repeated {
                pos
            } else {
                pos + 1
            },
            count + 1,
        );
    }
}

/// When an action accepts an argument list, every positional argument that
/// stands as a token of its own passes the kind check of some declared
/// positional slot.
pub proof fn law_accepted_positional_passes_a_slot(
    action: ActionSpecView,
    binary: Seq<char>,
    args: Seq<Seq<char>>,
    i: int,
)
    requires
        0 <= i < args.len(),
        !is_flag(args[i]),
        stands_alone(action, args, i),
        action_verdict(action, binary, args) is Ok,
    ensures
        exists|k: int|
            0 <= k < action.positional.len() && kind_check(
                (#[trigger] action.positional[k]).kind,
                args[i],
            ) is None,
{
    lemma_accepted_positional_from(action, binary, args, i, 0, 0, 0);
}

/// When every positional slot of an action has the `string` kind, no
/// positional argument of an accepted argument list contains a shell
/// metacharacter.
pub proof fn law_accepted_string_positional_has_no_metacharacter(
    action: ActionSpecView,
    binary: Seq<char>,
    args: Seq<Seq<char>>,
    i: int,
)
    requires
        0 <= i < args.len(),
        !is_flag(args[i]),
        stands_alone(action, args, i),
        forall|k: int|
            0 <= k < action.positional.len() ==> (#[trigger] action.positional[k]).kind
                == KindSpecView::String_,
        action_verdict(action, binary, args) is Ok,
    ensures
        free_of_metacharacters(args[i]),
{
    law_accepted_positional_passes_a_slot(action, binary, args, i);
    let k = choose|k: int|
        0 <= k < action.positional.len() && kind_check(
            (#[trigger] action.positional[k]).kind,
            args[i],
        ) is None;
    lemma_string_kind_accepts_iff_free(args[i]);
}

// ---------------------------------------------------------------------------
// Action validation
// ---------------------------------------------------------------------------

/// Check `args` against one action: every flag must be allowed (a flag with a
/// declared value kind takes the next token as its value), and every
/// positional must fill the next positional slot and pass its kind.
pub fn validate_action(
    action: &ActionSpec,
    args: &[String],
    binary: &str,
    subcommand: Option<&str>,
) -> (r: Result<(), PactError>)
    ensures
        match r {
            Ok(()) => action_verdict(action@, binary@, strs(args@)) is Ok,
            Err(e) => action_verdict(action@, binary@, strs(args@)) == Err::<(), PactErrorView>(e@),
        },
{
    let ghost a = action@;
    let ghost argv = strs(args@);
    let n = args.len();
    let mut pos_index: usize = 0;
    let mut count: usize = 0;
    let mut i: usize = 0;
    while i < n
        invariant
            a == action@,
            argv == strs(args@),
            n == args@.len(),
            i <= n,
            count <= i,
            action_verdict(a, binary@, argv) == action_scan(a, binary@, argv, i as int, pos_index as int, count as nat),
        decreases n - i,
    {
        let token = &args[i];
        assert(token@ == argv[i as int]);
        if str_starts_with_char(token.as_str(), '-') {
            match action.flag_values.get(token.as_str()) {
                Some(kind) => {
                    let value: String = if i + 1 < n {
                        args[i + 1].clone()
                    } else {
                        String::new()
                    };
                    assert(i + 1 < n ==> value@ == argv[i + 1]);
                    match validate(kind, value.as_str()) {
                        Err(rej) => {
                            return Err(
                                PactError::FlagValueRejected {
                                    binary: String::from_str(binary),
                                    flag: token.clone(),
                                    value,
                                    reason: rej.reason,
                                },
                            );
                        },
                        Ok(()) => {},
                    }
                    assert(action_scan(a, binary@, argv, i as int, pos_index as int, count as nat)
                        == action_scan(a, binary@, argv, i + 2, pos_index as int, count as nat));
                    if i + 1 < n {
                        i = i + 2;
                    } else {
                        i = n;
                    }
                },
                None => {
                    if contains_string(&action.allowed_flags, token.as_str()) {
                        assert(action_scan(a, binary@, argv, i as int, pos_index as int, count as nat)
                            == action_scan(a, binary@, argv, i + 1, pos_index as int, count as nat));
                        i = i + 1;
                    } else {
                        return Err(
                            PactError::FlagNotAllowed {
                                binary: String::from_str(binary),
                                flag: token.clone(),
                            },
                        );
                    }
                },
            }
        } else {
            if pos_index >= action.positional.len() {
                return Err(
                    PactError::PositionalRejected {
                        binary: String::from_str(binary),
                        index: count,
                        value: token.clone(),
                        reason: String::from_str("extra positional"),
                    },
                );
            }
            let slot = &action.positional[pos_index];
            assert(slot@ == a.positional[pos_index as int]);
            match validate(&slot.kind, token.as_str()) {
                Err(rej) => {
                    return Err(
                        PactError::PositionalRejected {
                            binary: String::from_str(binary),
                            index: count,
                            value: token.clone(),
                            reason: rej.reason,
                        },
                    );
                },
                Ok(()) => {},
            }
            assert(action_scan(a, binary@, argv, i as int, pos_index as int, count as nat)
                == action_scan(a, binary@, argv, i + 1, if slot.repeated { pos_index as int } else { pos_index + 1 }, (count + 1) as nat));
            count = count + 1;
            if !slot.repeated {
                pos_index = pos_index + 1;
            }
            i = i + 1;
        }
    }
    Ok(())
}

// ---------------------------------------------------------------------------
// Path resolution
// ---------------------------------------------------------------------------

/// Whether a file exists at `path` (`std::path::Path::exists`).  The answer
/// depends on the disk at the moment of the call, so nothing is stated of it.
#[verifier::external_body]
pub(crate) fn path_exists(path: &str) -> bool {
    std::path::Path::new(path).exists()
}

/// The path list for `os`, falling back to `default`.
pub fn os_paths(spec: &BinarySpec, os: HostOs) -> (r: Option<&Vec<String>>)
    ensures
        match r {
            Some(v) => spec_os_paths(spec.path@, os) == Some(strs(v@)),
            None => spec_os_paths(spec.path@, os) is None,
        },
{
    match os {
        HostOs::Linux => {
            if let Some(paths) = &spec.path.linux {
                return Some(paths);
            }
        },
        HostOs::Macos => {
            if let Some(paths) = &spec.path.macos {
                return Some(paths);
            }
        },
        HostOs::Other => {},
    }
    match &spec.path.default {
        Some(paths) => Some(paths),
        None => None,
    }
}

/// The views of candidate paths paired with whether each exists on disk.
pub open spec fn probes_view(v: Seq<(String, bool)>) -> Seq<(Seq<char>, bool)> {
    v.map_values(|p: (String, bool)| (p.0@, p.1))
}

/// The first candidate, in list order, that exists on disk.
pub open spec fn first_existing(probed: Seq<(Seq<char>, bool)>) -> Option<Seq<char>>
    decreases probed.len(),
{
    if probed.len() == 0 {
        None
    } else if probed[0].1 {
        Some(probed[0].0)
    } else {
        first_existing(probed.drop_first())
    }
}

/// A binary resolves to the first candidate that exists, and to none when
/// no candidate exists: the answer is a candidate that exists on disk and
/// every candidate before it does not.
pub proof fn law_first_existing_candidate(probed: Seq<(Seq<char>, bool)>)
    ensures
        (forall|j: int| 0 <= j < probed.len() ==> !(#[trigger] probed[j]).1) ==> first_existing(
            probed,
        ) is None,
        first_existing(probed) matches Some(p) ==> exists|j: int|
            0 <= j < probed.len() && #[trigger] probed[j] == (p, true) && forall|k: int|
                0 <= k < j ==> !(#[trigger] probed[k]).1,
    decreases probed.len(),
{
    if probed.len() > 0 {
        let rest = probed.drop_first();
        law_first_existing_candidate(rest);
        if !probed[0].1 {
            assert forall|j: int| 0 <= j < rest.len() && (forall|j2: int| 0 <= j2 < probed.len() ==> !(#[trigger] probed[j2]).1) implies !(#[trigger] rest[j]).1 by {
                assert(rest[j] == probed[j + 1]);
            }
            if let Some(p) = first_existing(rest) {
                let j = choose|j: int|
                    0 <= j < rest.len() && #[trigger] rest[j] == (p, true) && forall|k: int|
                        0 <= k < j ==> !(#[trigger] rest[k]).1;
                assert(probed[j + 1] == (p, true));
                assert forall|k: int| 0 <= k < j + 1 implies !(#[trigger] probed[k]).1 by {
                    if k > 0 {
                        assert(probed[k] == rest[k - 1]);
                    }
                }
            }
        } else {
            assert(probed[0] == (probed[0].0, true));
        }
    }
}

/// Given the candidate paths of a binary in list order, each with whether
/// it exists on disk, the first that exists; `BinaryNotResolvable` when
/// none does.
pub fn first_existing_path(probed: &Vec<(String, bool)>, binary: &str) -> (r: Result<
    String,
    PactError,
>)
    ensures
        match first_existing(probes_view(probed@)) {
            Some(p) => r matches Ok(q) && q@ == p,
            None => r matches Err(e) && e@ == (PactErrorView::BinaryNotResolvable {
                binary: binary@,
            }),
        },
        r matches Ok(q) ==> probes_view(probed@).contains((q@, true)),
{
    let ghost pv = probes_view(probed@);
    let mut i: usize = 0;
    assert(pv.skip(0) =~= pv);
    while i < probed.len()
        invariant
            pv == probes_view(probed@),
            i <= probed@.len(),
            first_existing(pv) == first_existing(pv.skip(i as int)),
        decreases probed.len() - i,
    {
        assert(pv.skip(i as int).drop_first() =~= pv.skip(i + 1));
        assert(pv.skip(i as int)[0] == pv[i as int]);
        assert(pv[i as int] == (probed@[i as int].0@, probed@[i as int].1));
        if probed[i].1 {
            assert(pv.contains(pv[i as int]));
            return Ok(probed[i].0.clone());
        }
        i = i + 1;
    }
    assert(pv.skip(i as int).len() == 0);
    Err(PactError::BinaryNotResolvable { binary: String::from_str(binary) })
}

/// Pick the host-OS path list and return the first candidate that exists.
/// Which candidates exist depends on the disk: the candidates are probed in
/// list order until one exists, and `first_existing_path` decides from the
/// answers.
pub fn resolve_path(spec: &BinarySpec, binary: &str, os: HostOs) -> (r: Result<String, PactError>)
    ensures
        match r {
            Ok(p) => (spec_os_paths(spec.path@, os) matches Some(c) && c.contains(p@)),
            Err(e) => e@ == (PactErrorView::BinaryNotResolvable { binary: binary@ }),
        },
        spec_os_paths(spec.path@, os) is None ==> r is Err,
{
    if let Some(paths) = os_paths(spec, os) {
        let ghost c = strs(paths@);
        let mut probed: Vec<(String, bool)> = Vec::new();
        let mut found = false;
        let mut i: usize = 0;
        while i < paths.len() && !found
            invariant
                spec_os_paths(spec.path@, os) == Some(c),
                c == strs(paths@),
                i <= paths@.len(),
                probed@.len() == i,
                forall|j: int| 0 <= j < i ==> #[trigger] probes_view(probed@)[j].0 == c[j],
            decreases paths.len() - i,
        {
            let exists = path_exists(paths[i].as_str());
            let ghost before = probed@;
            probed.push((paths[i].clone(), exists));
            proof {
                assert forall|j: int| 0 <= j < i + 1 implies #[trigger] probes_view(probed@)[j].0
                    == c[j] by {
                    assert(probes_view(probed@)[j] == (probed@[j].0@, probed@[j].1));
                    if j < i {
                        assert(probed@[j] == before[j]);
                        assert(probes_view(before)[j] == (before[j].0@, before[j].1));
                    } else {
                        assert(c[j] == paths@[j]@);
                    }
                }
            }
            found = exists;
            i = i + 1;
        }
        let r = first_existing_path(&probed, binary);
        proof {
            if r is Ok {
                let q = r->Ok_0;
                let pv = probes_view(probed@);
                let j = choose|j: int| 0 <= j < pv.len() && pv[j] == (q@, true);
                assert(pv[j].0 == c[j]);
                assert(c.contains(q@));
            }
        }
        return r;
    }
    Err(PactError::BinaryNotResolvable { binary: String::from_str(binary) })
}

// ---------------------------------------------------------------------------
// Public entry point
// ---------------------------------------------------------------------------

/// Check `argv` against the body of a binary whose path was resolved to
/// `abs_path`.
pub fn validate_resolved(spec: &BinarySpec, binary: &str, argv: &[String], abs_path: String) -> (r:
    Result<ResolvedExec, PactError>)
    ensures
        match r {
            Ok(res) => {
                &&& body_verdict(spec.body@, binary@, strs(argv@)) is Ok
                &&& res.abs_path == abs_path
                &&& strs(res.argv@) == strs(argv@)
            },
            Err(e) => body_verdict(spec.body@, binary@, strs(argv@)) == Err::<(), PactErrorView>(e@),
        },
{
    match &spec.body {
        BinaryBody::Direct(action) => {
            validate_action(action, argv, binary, None)?;
        },
        BinaryBody::WithSubcommands(table) => {
            if argv.len() == 0 {
                return Err(
                    PactError::SubcommandNotAllowed {
                        binary: String::from_str(binary),
                        subcommand: String::new(),
                    },
                );
            }
            let subcmd = &argv[0];
            assert(subcmd@ == strs(argv@)[0]);
            match table.get(subcmd.as_str()) {
                None => {
                    return Err(
                        PactError::SubcommandNotAllowed {
                            binary: String::from_str(binary),
                            subcommand: subcmd.clone(),
                        },
                    );
                },
                Some(action) => {
                    let rest = copy_strings_tail(argv);
                    validate_action(action, rest.as_slice(), binary, Some(subcmd.as_str()))?;
                },
            }
        },
    }
    Ok(ResolvedExec { abs_path, argv: copy_strings(argv) })
}

/// The candidates of a path list paired with the disk's answers, in list
/// order; a candidate without an answer counts as absent.
pub open spec fn zip_answers(c: Seq<Seq<char>>, answers: Seq<bool>) -> Seq<(Seq<char>, bool)> {
    Seq::new(c.len(), |i: int| (c[i], if i < answers.len() { answers[i] } else { false }))
}

/// The outcome of `validate_call` when the disk answers `answers` for the
/// binary's candidate paths, in list order: an unlisted binary is refused;
/// then the path is resolved, and a binary none of whose candidates exists
/// is `BinaryNotResolvable` whatever `args` holds; only then is `args`
/// checked against the binary's body.
pub open spec fn validated_with_answers(
    bins: Seq<(Seq<char>, BinarySpecView)>,
    binary: Seq<char>,
    args: Seq<Seq<char>>,
    os: HostOs,
    answers: Seq<bool>,
    r: Result<ResolvedExec, PactError>,
) -> bool {
    match lookup(bins, binary) {
        None => r matches Err(e) && e@ == (PactErrorView::BinaryNotAllowed { binary }),
        Some(spec) => match spec_os_paths(spec.path, os) {
            None => r matches Err(e) && e@ == (PactErrorView::BinaryNotResolvable { binary }),
            Some(c) => match first_existing(zip_answers(c, answers)) {
                None => r matches Err(e) && e@ == (PactErrorView::BinaryNotResolvable { binary }),
                Some(p) => match body_verdict(spec.body, binary, args) {
                    Ok(()) => r matches Ok(res) && res.abs_path@ == p && strs(res.argv@) == args,
                    Err(v) => r matches Err(e) && e@ == v,
                },
            },
        },
    }
}

/// `validate_call` given the disk's answers for the binary's candidate
/// paths, in list order (see `validated_with_answers`).
pub fn validate_call_with_answers(
    pact: &Pact,
    binary: &str,
    argv: &[String],
    os: HostOs,
    answers: &Vec<bool>,
) -> (r: Result<ResolvedExec, PactError>)
    ensures
        validated_with_answers(pact.binaries@, binary@, strs(argv@), os, answers@, r),
{
    let spec = match pact.binaries.get(binary) {
        Some(s) => s,
        None => {
            return Err(PactError::BinaryNotAllowed { binary: String::from_str(binary) });
        },
    };
    let paths = match os_paths(spec, os) {
        Some(p) => p,
        None => {
            return Err(PactError::BinaryNotResolvable { binary: String::from_str(binary) });
        },
    };
    let ghost c = strs(paths@);
    let mut probed: Vec<(String, bool)> = Vec::new();
    let mut i: usize = 0;
    while i < paths.len()
        invariant
            c == strs(paths@),
            i <= paths@.len(),
            probed@.len() == i,
            forall|j: int| 0 <= j < i ==> #[trigger] probes_view(probed@)[j] == zip_answers(
                c,
                answers@,
            )[j],
        decreases paths.len() - i,
    {
        let a = if i < answers.len() {
            answers[i]
        } else {
            false
        };
        let ghost before = probed@;
        probed.push((paths[i].clone(), a));
        proof {
            assert forall|j: int| 0 <= j < i + 1 implies #[trigger] probes_view(probed@)[j]
                == zip_answers(c, answers@)[j] by {
                assert(probes_view(probed@)[j] == (probed@[j].0@, probed@[j].1));
                if j < i {
                    assert(probed@[j] == before[j]);
                    assert(probes_view(before)[j] == (before[j].0@, before[j].1));
                } else {
                    assert(c[j] == paths@[j]@);
                }
            }
        }
        i = i + 1;
    }
    assert(probes_view(probed@) =~= zip_answers(c, answers@));
    let abs_path = first_existing_path(&probed, binary)?;
    validate_resolved(spec, binary, argv, abs_path)
}

/// Validate `(binary, argv)` against `pact`.
///
/// A binary the pact does not list is refused.  A listed binary's path is
/// resolved first (on `os`): its candidates are asked of the disk in list
/// order until one exists.  Then `argv` is checked against its body, and the
/// first policy violation is reported.  The outcome is
/// `validate_call_with_answers` for the answers the disk gave.
pub fn validate_call(pact: &Pact, binary: &str, argv: &[String], os: HostOs) -> (r: Result<
    ResolvedExec,
    PactError,
>)
    ensures
        match lookup(pact.binaries@, binary@) {
            None => (r matches Err(e) && e@ == (PactErrorView::BinaryNotAllowed {
                binary: binary@,
            })),
            Some(spec) => match r {
                Ok(res) => {
                    &&& body_verdict(spec.body, binary@, strs(argv@)) is Ok
                    &&& strs(res.argv@) == strs(argv@)
                    &&& (spec_os_paths(spec.path, os) matches Some(c) && c.contains(
                        res.abs_path@,
                    ))
                },
                Err(e) => {
                    ||| e@ == (PactErrorView::BinaryNotResolvable { binary: binary@ })
                    ||| body_verdict(spec.body, binary@, strs(argv@)) == Err::<(), PactErrorView>(
                        e@,
                    )
                },
            },
        },
        (lookup(pact.binaries@, binary@) matches Some(spec) && spec_os_paths(spec.path, os) is None)
            ==> (r matches Err(e) && e@ == (PactErrorView::BinaryNotResolvable { binary: binary@ })),
        exists|answers: Seq<bool>|
            #[trigger] validated_with_answers(
                pact.binaries@,
                binary@,
                strs(argv@),
                os,
                answers,
                r,
            ),

{
    let mut answers: Vec<bool> = Vec::new();
    if let Some(spec) = pact.binaries.get(binary) {
        if let Some(paths) = os_paths(spec, os) {
            let mut found = false;
            let mut i: usize = 0;
            while i < paths.len() && !found
                invariant
                    i <= paths@.len(),
                decreases paths.len() - i,
            {
                let e = path_exists(paths[i].as_str());
                answers.push(e);
                found = e;
                i = i + 1;
            }
        }
    }
    let r = validate_call_with_answers(pact, binary, argv, os, &answers);
    proof {
        let ghost a = answers@;
        if let Some(spec) = lookup(pact.binaries@, binary@) {
            if let Some(c) = spec_os_paths(spec.path, os) {
                let z = zip_answers(c, a);
                law_first_existing_candidate(z);
                if let Some(p) = first_existing(z) {
                    let j = choose|j: int| 0 <= j < z.len() && #[trigger] z[j] == (p, true) && forall|
                        k: int,
                    | 0 <= k < j ==> !(#[trigger] z[k]).1;
                    assert(z[j].0 == c[j]);
                    assert(c.contains(p));
                }
            }
        }
        assert(validated_with_answers(pact.binaries@, binary@, strs(argv@), os, a, r));
    }
    r
}

} // verus!
