//! Post-parse validation of pacts: the rules a pact must meet beyond its
//! schema.
use vstd::prelude::*;

use crate::pact::schema::{
    BinaryBody, BinaryBodyView, BinarySpecView, Pact, PactView, PathSpec, PathSpecView,
    PositionalSpec, PositionalSpecView, positionals_view,
};
use crate::pact::engine::{spec_os_paths, HostOs};
use crate::pact::table::lookup;
use crate::strs::{starts_with_char, str_starts_with_char, strs};

verus! {

/// Why a pact was refused.
#[derive(Debug)]
pub enum ParseError {
    /// The pact's `version` is not 1.
    UnsupportedVersion,
    /// A binary's path spec has none of `default`, `linux` or `macos`.
    PathSpecEmpty { binary: String },
    /// A candidate path does not start with `/`.
    PathNotAbsolute { binary: String, path: String },
    /// A binary body has both `subcommands` and direct action fields.
    SubcommandsConflictWithDirect { binary: String },
    /// A `repeated: true` positional is not the last one.
    RepeatedNotLast { binary: String, subcommand: Option<String> },
    /// The YAML text could not be read as a pact; the message says why.
    Yaml(String),
}

pub enum ParseErrorView {
    UnsupportedVersion,
    PathSpecEmpty { binary: Seq<char> },
    PathNotAbsolute { binary: Seq<char>, path: Seq<char> },
    SubcommandsConflictWithDirect { binary: Seq<char> },
    RepeatedNotLast { binary: Seq<char>, subcommand: Option<Seq<char>> },
    Yaml(Seq<char>),
}

impl View for ParseError {
    type V = ParseErrorView;

    open spec fn view(&self) -> ParseErrorView {
        match self {
            ParseError::UnsupportedVersion => ParseErrorView::UnsupportedVersion,
            ParseError::PathSpecEmpty { binary } => ParseErrorView::PathSpecEmpty {
                binary: binary@,
            },
            ParseError::PathNotAbsolute { binary, path } => ParseErrorView::PathNotAbsolute {
                binary: binary@,
                path: path@,
            },
            ParseError::SubcommandsConflictWithDirect { binary } =>
                ParseErrorView::SubcommandsConflictWithDirect { binary: binary@ },
            ParseError::RepeatedNotLast { binary, subcommand } => ParseErrorView::RepeatedNotLast {
                binary: binary@,
                subcommand: match subcommand {
                    Some(s) => Some(s@),
                    None => None,
                },
            },
            ParseError::Yaml(m) => ParseErrorView::Yaml(m@),
        }
    }
}

// ---------------------------------------------------------------------------
// Specification
// ---------------------------------------------------------------------------

/// A path is absolute when it starts with `/`, whatever the host OS.
pub open spec fn spec_path_is_absolute(p: Seq<char>) -> bool {
    starts_with_char(p, '/')
}

pub open spec fn opt_list(o: Option<Seq<Seq<char>>>) -> Seq<Seq<char>> {
    match o {
        Some(v) => v,
        None => Seq::empty(),
    }
}

/// Every candidate path of a path spec, `default` first, then `linux`, then
/// `macos`.
pub open spec fn all_paths(p: PathSpecView) -> Seq<Seq<char>> {
    opt_list(p.default) + opt_list(p.linux) + opt_list(p.macos)
}

/// The first path from index `i` on that is not absolute.
pub open spec fn first_relative(paths: Seq<Seq<char>>, i: int) -> Option<Seq<char>>
    decreases paths.len() - i,
{
    if i < 0 || i >= paths.len() {
        None
    } else if !spec_path_is_absolute(paths[i]) {
        Some(paths[i])
    } else {
        first_relative(paths, i + 1)
    }
}

/// Only the last positional slot may be `repeated`.
pub open spec fn repeated_is_last(pos: Seq<PositionalSpecView>) -> bool {
    forall|i: int| 0 <= i < pos.len() && (#[trigger] pos[i]).repeated ==> i + 1 == pos.len()
}

/// The first subcommand, in table order from index `i` on, whose positional
/// slots break the `repeated`-last rule.
pub open spec fn first_bad_subcommand(
    table: Seq<(Seq<char>, crate::pact::schema::ActionSpecView)>,
    i: int,
) -> Option<Seq<char>>
    decreases table.len() - i,
{
    if i < 0 || i >= table.len() {
        None
    } else if !repeated_is_last(table[i].1.positional) {
        Some(table[i].0)
    } else {
        first_bad_subcommand(table, i + 1)
    }
}

/// The first problem with one binary entry, if any.
pub open spec fn binary_problem(name: Seq<char>, spec: BinarySpecView) -> Option<ParseErrorView> {
    let ps = spec.path;
    if ps.default is None && ps.linux is None && ps.macos is None {
        Some(ParseErrorView::PathSpecEmpty { binary: name })
    } else {
        match first_relative(all_paths(ps), 0) {
            Some(path) => Some(ParseErrorView::PathNotAbsolute { binary: name, path }),
            None => match spec.body {
                BinaryBodyView::WithSubcommands(table) => match first_bad_subcommand(table, 0) {
                    Some(sub) => Some(
                        ParseErrorView::RepeatedNotLast { binary: name, subcommand: Some(sub) },
                    ),
                    None => None,
                },
                BinaryBodyView::Direct(action) => if repeated_is_last(action.positional) {
                    None
                } else {
                    Some(ParseErrorView::RepeatedNotLast { binary: name, subcommand: None })
                },
            },
        }
    }
}

/// The first problem among the binaries from index `i` on, in key order.
pub open spec fn first_binary_problem(bins: Seq<(Seq<char>, BinarySpecView)>, i: int) -> Option<
    ParseErrorView,
>
    decreases bins.len() - i,
{
    if i < 0 || i >= bins.len() {
        None
    } else {
        match binary_problem(bins[i].0, bins[i].1) {
            Some(e) => Some(e),
            None => first_binary_problem(bins, i + 1),
        }
    }
}

/// The first problem with a pact, if any.
pub open spec fn pact_problem(p: PactView) -> Option<ParseErrorView> {
    if p.version != 1 {
        Some(ParseErrorView::UnsupportedVersion)
    } else {
        first_binary_problem(p.binaries, 0)
    }
}

// ---------------------------------------------------------------------------
// Checks
// ---------------------------------------------------------------------------

/// Whether `path` starts with `/`.
pub fn path_is_absolute(path: &str) -> (b: bool)
    ensures
        b == spec_path_is_absolute(path@),
{
    str_starts_with_char(path, '/')
}

/// Check that only the last positional slot is `repeated`.
pub fn validate_repeated_last(
    binary: &str,
    subcommand: Option<&str>,
    positional: &[PositionalSpec],
) -> (r: Result<(), ParseError>)
    ensures
        r is Ok <==> repeated_is_last(positionals_view(positional@)),
        r matches Err(e) ==> e@ == (ParseErrorView::RepeatedNotLast {
            binary: binary@,
            subcommand: match subcommand {
                Some(s) => Some(s@),
                None => None,
            },
        }),
{
    let ghost pv = positionals_view(positional@);
    let len = positional.len();
    let mut i: usize = 0;
    while i < len
        invariant
            len == positional@.len(),
            pv == positionals_view(positional@),
            i <= len,
            forall|j: int| 0 <= j < i && (#[trigger] pv[j]).repeated ==> j + 1 == len,
        decreases len - i,
    {
        assert(pv[i as int] == positional@[i as int]@);
        if positional[i].repeated && i + 1 != len {
            return Err(
                ParseError::RepeatedNotLast {
                    binary: String::from_str(binary),
                    subcommand: match subcommand {
                        Some(s) => Some(String::from_str(s)),
                        None => None,
                    },
                },
            );
        }
        i = i + 1;
    }
    Ok(())
}

/// The first candidate path of `list` that does not start with `/`.
fn check_path_list(binary: &str, list: &Option<Vec<String>>) -> (r: Result<(), ParseError>)
    ensures
        match r {
            Ok(()) => first_relative(opt_list(crate::pact::schema::opt_strs(*list)), 0) is None,
            Err(e) => first_relative(opt_list(crate::pact::schema::opt_strs(*list)), 0) matches Some(p)
                && e@ == (ParseErrorView::PathNotAbsolute { binary: binary@, path: p }),
        },
{
    let ghost paths = opt_list(crate::pact::schema::opt_strs(*list));
    if let Some(v) = list {
        let mut i: usize = 0;
        while i < v.len()
            invariant
                paths == strs(v@),
                paths == opt_list(crate::pact::schema::opt_strs(*list)),
                i <= v@.len(),
                first_relative(paths, 0) == first_relative(paths, i as int),
            decreases v.len() - i,
        {
            assert(paths[i as int] == v@[i as int]@);
            if !path_is_absolute(v[i].as_str()) {
                return Err(
                    ParseError::PathNotAbsolute {
                        binary: String::from_str(binary),
                        path: v[i].clone(),
                    },
                );
            }
            i = i + 1;
        }
    }
    Ok(())
}

proof fn lemma_first_relative_concat(a: Seq<Seq<char>>, b: Seq<Seq<char>>)
    requires
        first_relative(a, 0) is None,
    ensures
        first_relative(a + b, 0) == first_relative(b, 0),
{
    lemma_first_relative_shift(a, b, 0);
}

proof fn lemma_first_relative_shift(a: Seq<Seq<char>>, b: Seq<Seq<char>>, i: int)
    requires
        0 <= i <= a.len(),
        first_relative(a, i) is None,
    ensures
        first_relative(a + b, i) == first_relative(b, 0),
    decreases a.len() - i,
{
    if i < a.len() {
        lemma_first_relative_shift(a, b, i + 1);
    } else {
        lemma_first_relative_offset(a, b, 0);
    }
}

proof fn lemma_first_relative_offset(a: Seq<Seq<char>>, b: Seq<Seq<char>>, j: int)
    requires
        0 <= j <= b.len(),
    ensures
        first_relative(a + b, a.len() + j) == first_relative(b, j),
    decreases b.len() - j,
{
    if j < b.len() {
        assert((a + b)[a.len() + j] == b[j]);
        lemma_first_relative_offset(a, b, j + 1);
    }
}

proof fn lemma_first_relative_some(a: Seq<Seq<char>>, b: Seq<Seq<char>>, i: int)
    requires
        0 <= i <= a.len(),
        first_relative(a, i) is Some,
    ensures
        first_relative(a + b, i) == first_relative(a, i),
    decreases a.len() - i,
{
    if i < a.len() {
        assert((a + b)[i] == a[i]);
        if spec_path_is_absolute(a[i]) {
            lemma_first_relative_some(a, b, i + 1);
        }
    }
}

/// The path spec rules: some list is present, and every candidate is absolute.
fn check_path_spec(binary: &str, ps: &PathSpec) -> (r: Result<(), ParseError>)
    ensures
        match r {
            Ok(()) => {
                &&& !(ps@.default is None && ps@.linux is None && ps@.macos is None)
                &&& first_relative(all_paths(ps@), 0) is None
            },
            Err(e) => {
                ||| (ps@.default is None && ps@.linux is None && ps@.macos is None && e@
                    == (ParseErrorView::PathSpecEmpty { binary: binary@ }))
                ||| (!(ps@.default is None && ps@.linux is None && ps@.macos is None) && (
                first_relative(all_paths(ps@), 0) matches Some(p) && e@
                    == (ParseErrorView::PathNotAbsolute { binary: binary@, path: p })))
            },
        },
{
    if ps.default.is_none() && ps.linux.is_none() && ps.macos.is_none() {
        return Err(ParseError::PathSpecEmpty { binary: String::from_str(binary) });
    }
    let ghost d = opt_list(ps@.default);
    let ghost l = opt_list(ps@.linux);
    let ghost m = opt_list(ps@.macos);
    let r1 = check_path_list(binary, &ps.default);
    proof {
        if r1 is Err {
            lemma_first_relative_some(d, l, 0);
            lemma_first_relative_some(d + l, m, 0);
        }
    }
    r1?;
    let r2 = check_path_list(binary, &ps.linux);
    proof {
        lemma_first_relative_concat(d, l);
        if r2 is Err {
            lemma_first_relative_some(d + l, m, 0);
        }
    }
    r2?;
    let r3 = check_path_list(binary, &ps.macos);
    proof {
        lemma_first_relative_concat(d, l);
        lemma_first_relative_concat(d + l, m);
    }
    r3?;
    Ok(())
}

/// The body rule: only the last positional slot of an action may be
/// `repeated`; for a subcommand table, the first offending subcommand in key
/// order is reported.
fn check_body(binary: &str, body: &BinaryBody) -> (r: Result<(), ParseError>)
    ensures
        match body@ {
            BinaryBodyView::WithSubcommands(table) => match first_bad_subcommand(table, 0) {
                Some(sub) => r matches Err(e) && e@ == (ParseErrorView::RepeatedNotLast {
                    binary: binary@,
                    subcommand: Some(sub),
                }),
                None => r is Ok,
            },
            BinaryBodyView::Direct(action) => if repeated_is_last(action.positional) {
                r is Ok
            } else {
                r matches Err(e) && e@ == (ParseErrorView::RepeatedNotLast {
                    binary: binary@,
                    subcommand: None,
                })
            },
        },
{
    match body {
        BinaryBody::WithSubcommands(table) => {
            let ghost t = table@;
            let n = table.len();
            let mut i: usize = 0;
            while i < n
                invariant
                    t == table@,
                    body@ == BinaryBodyView::WithSubcommands(t),
                    n == t.len(),
                    i <= n,
                    first_bad_subcommand(t, 0) == first_bad_subcommand(t, i as int),
                decreases n - i,
            {
                let name = table.key_at(i);
                let action = table.value_at(i);
                assert(name@ == t[i as int].0);
                assert(action@ == t[i as int].1);
                validate_repeated_last(binary, Some(name.as_str()), action.positional.as_slice())?;
                i = i + 1;
            }
            Ok(())
        },
        BinaryBody::Direct(action) => validate_repeated_last(
            binary,
            None,
            action.positional.as_slice(),
        ),
    }
}

/// Check the rules a parsed pact must meet: `version` is 1, and for each
/// binary in key order, its path spec is non-empty, every candidate path is
/// absolute, and only the last positional slot of an action is `repeated`.
/// The first problem found is reported.
pub fn check_pact(pact: Pact) -> (r: Result<Pact, ParseError>)
    ensures
        match r {
            Ok(p) => p@ == pact@ && pact_problem(pact@) is None,
            Err(e) => pact_problem(pact@) == Some(e@),
        },
{
    if pact.version != 1 {
        return Err(ParseError::UnsupportedVersion);
    }
    let ghost bins = pact.binaries@;
    let n = pact.binaries.len();
    let mut i: usize = 0;
    while i < n
        invariant
            bins == pact.binaries@,
            pact.version == 1,
            n == bins.len(),
            i <= n,
            first_binary_problem(bins, 0) == first_binary_problem(bins, i as int),
        decreases n - i,
    {
        let name = pact.binaries.key_at(i);
        let spec = pact.binaries.value_at(i);
        assert(spec@ == bins[i as int].1);
        assert(name@ == bins[i as int].0);
        check_path_spec(name.as_str(), &spec.path)?;
        check_body(name.as_str(), &spec.body)?;
        i = i + 1;
    }
    Ok(pact)
}

// ---------------------------------------------------------------------------
// Laws
// ---------------------------------------------------------------------------

proof fn lemma_lookup_found<T>(s: Seq<(Seq<char>, T)>, k: Seq<char>)
    requires
        lookup(s, k) is Some,
    ensures
        exists|i: int| 0 <= i < s.len() && s[i].0 == k && Some(s[i].1) == lookup(s, k),
    decreases s.len(),
{
    if s[0].0 != k {
        lemma_lookup_found(s.drop_first(), k);
        let i = choose|i: int|
            0 <= i < s.drop_first().len() && s.drop_first()[i].0 == k && Some(
                s.drop_first()[i].1,
            ) == lookup(s.drop_first(), k);
        assert(s[i + 1] == s.drop_first()[i]);
    } else {
        assert(Some(s[0].1) == lookup(s, k));
    }
}

proof fn lemma_no_binary_problem(bins: Seq<(Seq<char>, BinarySpecView)>, i: int, j: int)
    requires
        0 <= i <= j < bins.len(),
        first_binary_problem(bins, i) is None,
    ensures
        binary_problem(bins[j].0, bins[j].1) is None,
    decreases j - i,
{
    if i < j {
        lemma_no_binary_problem(bins, i + 1, j);
    }
}

proof fn lemma_no_relative(paths: Seq<Seq<char>>, i: int, j: int)
    requires
        0 <= i <= j < paths.len(),
        first_relative(paths, i) is None,
    ensures
        spec_path_is_absolute(paths[j]),
    decreases j - i,
{
    if i < j {
        lemma_no_relative(paths, i + 1, j);
    }
}

/// Every path a binary of a checked pact can resolve to is absolute: each
/// candidate in the path list chosen for any operating system starts with
/// `/`.
pub proof fn law_checked_pact_resolves_absolute(
    p: PactView,
    binary: Seq<char>,
    os: HostOs,
    path: Seq<char>,
)
    requires
        pact_problem(p) is None,
        lookup(p.binaries, binary) matches Some(spec) && spec_os_paths(spec.path, os) matches Some(
            c,
        ) && c.contains(path),
    ensures
        spec_path_is_absolute(path),
{
    let bins = p.binaries;
    lemma_lookup_found(bins, binary);
    let i = choose|i: int|
        0 <= i < bins.len() && bins[i].0 == binary && Some(bins[i].1) == lookup(bins, binary);
    let spec = bins[i].1;
    lemma_no_binary_problem(bins, 0, i);
    let ps = spec.path;
    let all = all_paths(ps);
    assert(first_relative(all, 0) is None);
    let c = spec_os_paths(ps, os)->Some_0;
    let k = choose|k: int| 0 <= k < c.len() && c[k] == path;
    let d = opt_list(ps.default);
    let l = opt_list(ps.linux);
    let m = opt_list(ps.macos);
    assert(all == d + l + m);
    if ps.default == Some(c) {
        assert(all[k] == d[k]);
        lemma_no_relative(all, 0, k);
    } else if ps.linux == Some(c) {
        assert(all[d.len() + k] == l[k]);
        lemma_no_relative(all, 0, d.len() + k);
    } else {
        assert(ps.macos == Some(c));
        assert(all[d.len() + l.len() + k] == m[k]);
        lemma_no_relative(all, 0, d.len() + l.len() + k);
    }
}

proof fn lemma_no_bad_subcommand(
    table: Seq<(Seq<char>, crate::pact::schema::ActionSpecView)>,
    i: int,
    k: int,
)
    requires
        0 <= i <= k < table.len(),
        first_bad_subcommand(table, i) is None,
    ensures
        repeated_is_last(table[k].1.positional),
    decreases k - i,
{
    if i < k {
        lemma_no_bad_subcommand(table, i + 1, k);
    }
}

/// In a pact that passes the checks, every action of every binary (each
/// subcommand of a subcommand table, or the direct action) has `repeated`
/// only on its last positional slot, and every path spec has at least one
/// list.
pub proof fn law_checked_pact_has_repeated_only_last(p: PactView, i: int, k: int)
    requires
        pact_problem(p) is None,
        0 <= i < p.binaries.len(),
    ensures
        p.version == 1,
        p.binaries[i].1.path.default is Some || p.binaries[i].1.path.linux is Some
            || p.binaries[i].1.path.macos is Some,
        p.binaries[i].1.body matches BinaryBodyView::WithSubcommands(t) ==> (0 <= k < t.len()
            ==> forall|j: int|
            0 <= j < t[k].1.positional.len() && (#[trigger] t[k].1.positional[j]).repeated ==> j
                + 1 == t[k].1.positional.len()),
        p.binaries[i].1.body matches BinaryBodyView::Direct(a) ==> forall|j: int|
            0 <= j < a.positional.len() && (#[trigger] a.positional[j]).repeated ==> j + 1
                == a.positional.len(),
{
    lemma_no_binary_problem(p.binaries, 0, i);
    if let BinaryBodyView::WithSubcommands(t) = p.binaries[i].1.body {
        if 0 <= k < t.len() {
            lemma_no_bad_subcommand(t, 0, k);
        }
    }
}

} // verus!
