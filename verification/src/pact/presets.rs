//! The pacts compiled into the runtime.
use vstd::prelude::*;

use crate::pact::schema::{
    ActionSpec, ActionSpecView, BinaryBody, BinaryBodyView, BinarySpec, BinarySpecView, Defaults,
    KindSpec, KindSpecView, Pact, PathSpec, PathSpecView, PositionalSpec, PositionalSpecView,
};
use crate::pact::engine::{action_verdict, body_verdict, is_flag, spec_os_paths, HostOs};
use crate::pact::table::{lookup, StrMap};
use crate::strs::strs;

verus! {

// ---------------------------------------------------------------------------
// Specification of the presets
// ---------------------------------------------------------------------------

pub open spec fn direct(flags: Seq<Seq<char>>, positional: Seq<PositionalSpecView>) -> BinaryBodyView {
    BinaryBodyView::Direct(
        ActionSpecView { allowed_flags: flags, flag_values: Seq::empty(), positional },
    )
}

pub open spec fn default_path(paths: Seq<Seq<char>>) -> PathSpecView {
    PathSpecView { default: Some(paths), linux: None, macos: None }
}

pub open spec fn string_slot(optional: bool, repeated: bool) -> PositionalSpecView {
    PositionalSpecView { kind: KindSpecView::String_, optional, repeated }
}

/// `echo [-n] [-e] <string>...`
pub open spec fn spec_echo() -> BinarySpecView {
    BinarySpecView {
        path: default_path(seq!["/bin/echo"@]),
        body: direct(seq!["-n"@, "-e"@], seq![string_slot(false, true)]),
    }
}

/// `date [-u] [-I] [-R] [<string>...]`
pub open spec fn spec_date() -> BinarySpecView {
    BinarySpecView {
        path: default_path(seq!["/bin/date"@]),
        body: direct(seq!["-u"@, "-I"@, "-R"@], seq![string_slot(true, true)]),
    }
}

/// `uname [-a] [-s] [-r] [-m] [-n] [-p]`
pub open spec fn spec_uname() -> BinarySpecView {
    BinarySpecView {
        path: default_path(seq!["/usr/bin/uname"@]),
        body: direct(seq!["-a"@, "-s"@, "-r"@, "-m"@, "-n"@, "-p"@], Seq::empty()),
    }
}

/// `whoami`
pub open spec fn spec_whoami() -> BinarySpecView {
    BinarySpecView {
        path: default_path(seq!["/usr/bin/whoami"@]),
        body: direct(Seq::empty(), Seq::empty()),
    }
}

/// `hostname [-s] [-f]`, with separate Linux and macOS paths.
pub open spec fn spec_hostname() -> BinarySpecView {
    BinarySpecView {
        path: PathSpecView {
            default: None,
            linux: Some(seq!["/bin/hostname"@, "/usr/bin/hostname"@]),
            macos: Some(seq!["/bin/hostname"@]),
        },
        body: direct(seq!["-s"@, "-f"@], Seq::empty()),
    }
}

/// `sleep <number>`
pub open spec fn spec_sleep() -> BinarySpecView {
    BinarySpecView {
        path: default_path(seq!["/bin/sleep"@]),
        body: direct(
            Seq::empty(),
            seq![PositionalSpecView { kind: KindSpecView::Number, optional: false, repeated: false }],
        ),
    }
}

/// `yes [<string>...]`
pub open spec fn spec_yes() -> BinarySpecView {
    BinarySpecView {
        path: default_path(seq!["/usr/bin/yes"@, "/bin/yes"@]),
        body: direct(Seq::empty(), seq![string_slot(true, true)]),
    }
}

/// The five read-only POSIX info commands of the read-only presets.
pub open spec fn is_readonly_table(t: Seq<(Seq<char>, BinarySpecView)>) -> bool {
    &&& t.len() == 5
    &&& lookup(t, "echo"@) == Some(spec_echo())
    &&& lookup(t, "date"@) == Some(spec_date())
    &&& lookup(t, "uname"@) == Some(spec_uname())
    &&& lookup(t, "whoami"@) == Some(spec_whoami())
    &&& lookup(t, "hostname"@) == Some(spec_hostname())
}

// ---------------------------------------------------------------------------
// Construction
// ---------------------------------------------------------------------------

fn s(text: &str) -> (r: String)
    ensures
        r@ == text@,
{
    String::from_str(text)
}

fn string_slot_exec(optional: bool, repeated: bool) -> (p: PositionalSpec)
    ensures
        p@ == string_slot(optional, repeated),
{
    PositionalSpec { kind: KindSpec::String_, optional, repeated }
}

fn direct_exec(flags: Vec<String>, positional: Vec<PositionalSpec>) -> (b: BinaryBody)
    ensures
        b@ == direct(strs(flags@), crate::pact::schema::positionals_view(positional@)),
{
    let fv: StrMap<KindSpec> = StrMap::new();
    BinaryBody::Direct(ActionSpec { allowed_flags: flags, flag_values: fv, positional })
}

fn default_path_exec(paths: Vec<String>) -> (p: PathSpec)
    ensures
        p@ == default_path(strs(paths@)),
{
    PathSpec { default: Some(paths), linux: None, macos: None }
}

fn echo_spec() -> (b: BinarySpec)
    ensures
        b@ == spec_echo(),
{
    let paths = vec![s("/bin/echo")];
    let flags = vec![s("-n"), s("-e")];
    let pos = vec![string_slot_exec(false, true)];
    assert(strs(paths@) =~= seq!["/bin/echo"@]);
    assert(strs(flags@) =~= seq!["-n"@, "-e"@]);
    assert(crate::pact::schema::positionals_view(pos@) =~= seq![string_slot(false, true)]);
    BinarySpec { path: default_path_exec(paths), body: direct_exec(flags, pos) }
}

fn date_spec() -> (b: BinarySpec)
    ensures
        b@ == spec_date(),
{
    let paths = vec![s("/bin/date")];
    let flags = vec![s("-u"), s("-I"), s("-R")];
    let pos = vec![string_slot_exec(true, true)];
    assert(strs(paths@) =~= seq!["/bin/date"@]);
    assert(strs(flags@) =~= seq!["-u"@, "-I"@, "-R"@]);
    assert(crate::pact::schema::positionals_view(pos@) =~= seq![string_slot(true, true)]);
    BinarySpec { path: default_path_exec(paths), body: direct_exec(flags, pos) }
}

fn uname_spec() -> (b: BinarySpec)
    ensures
        b@ == spec_uname(),
{
    let paths = vec![s("/usr/bin/uname")];
    let flags = vec![s("-a"), s("-s"), s("-r"), s("-m"), s("-n"), s("-p")];
    let pos: Vec<PositionalSpec> = Vec::new();
    assert(strs(paths@) =~= seq!["/usr/bin/uname"@]);
    assert(strs(flags@) =~= seq!["-a"@, "-s"@, "-r"@, "-m"@, "-n"@, "-p"@]);
    assert(crate::pact::schema::positionals_view(pos@) =~= Seq::<PositionalSpecView>::empty());
    BinarySpec { path: default_path_exec(paths), body: direct_exec(flags, pos) }
}

fn whoami_spec() -> (b: BinarySpec)
    ensures
        b@ == spec_whoami(),
{
    let paths = vec![s("/usr/bin/whoami")];
    let flags: Vec<String> = Vec::new();
    let pos: Vec<PositionalSpec> = Vec::new();
    assert(strs(paths@) =~= seq!["/usr/bin/whoami"@]);
    assert(strs(flags@) =~= Seq::<Seq<char>>::empty());
    assert(crate::pact::schema::positionals_view(pos@) =~= Seq::<PositionalSpecView>::empty());
    BinarySpec { path: default_path_exec(paths), body: direct_exec(flags, pos) }
}

fn hostname_spec() -> (b: BinarySpec)
    ensures
        b@ == spec_hostname(),
{
    let linux = vec![s("/bin/hostname"), s("/usr/bin/hostname")];
    let macos = vec![s("/bin/hostname")];
    let flags = vec![s("-s"), s("-f")];
    let pos: Vec<PositionalSpec> = Vec::new();
    assert(strs(linux@) =~= seq!["/bin/hostname"@, "/usr/bin/hostname"@]);
    assert(strs(macos@) =~= seq!["/bin/hostname"@]);
    assert(strs(flags@) =~= seq!["-s"@, "-f"@]);
    assert(crate::pact::schema::positionals_view(pos@) =~= Seq::<PositionalSpecView>::empty());
    BinarySpec {
        path: PathSpec { default: None, linux: Some(linux), macos: Some(macos) },
        body: direct_exec(flags, pos),
    }
}

fn sleep_spec() -> (b: BinarySpec)
    ensures
        b@ == spec_sleep(),
{
    let paths = vec![s("/bin/sleep")];
    let flags: Vec<String> = Vec::new();
    let pos = vec![PositionalSpec { kind: KindSpec::Number, optional: false, repeated: false }];
    assert(strs(paths@) =~= seq!["/bin/sleep"@]);
    assert(strs(flags@) =~= Seq::<Seq<char>>::empty());
    assert(crate::pact::schema::positionals_view(pos@) =~= seq![
        PositionalSpecView { kind: KindSpecView::Number, optional: false, repeated: false },
    ]);
    BinarySpec { path: default_path_exec(paths), body: direct_exec(flags, pos) }
}

fn yes_spec() -> (b: BinarySpec)
    ensures
        b@ == spec_yes(),
{
    let paths = vec![s("/usr/bin/yes"), s("/bin/yes")];
    let flags: Vec<String> = Vec::new();
    let pos = vec![string_slot_exec(true, true)];
    assert(strs(paths@) =~= seq!["/usr/bin/yes"@, "/bin/yes"@]);
    assert(strs(flags@) =~= Seq::<Seq<char>>::empty());
    assert(crate::pact::schema::positionals_view(pos@) =~= seq![string_slot(true, true)]);
    BinarySpec { path: default_path_exec(paths), body: direct_exec(flags, pos) }
}

proof fn lemma_readonly_names_distinct()
    ensures
        "echo"@ != "date"@,
        "echo"@ != "uname"@,
        "echo"@ != "whoami"@,
        "echo"@ != "hostname"@,
        "date"@ != "uname"@,
        "date"@ != "whoami"@,
        "date"@ != "hostname"@,
        "uname"@ != "whoami"@,
        "uname"@ != "hostname"@,
        "whoami"@ != "hostname"@,
        "sleep"@ != "yes"@,
{
    reveal_strlit("echo");
    reveal_strlit("date");
    reveal_strlit("uname");
    reveal_strlit("whoami");
    reveal_strlit("hostname");
    reveal_strlit("sleep");
    reveal_strlit("yes");
    assert("echo"@[0] != "date"@[0]);
    assert("echo"@[0] != "uname"@[0]);
    assert("echo"@[0] != "whoami"@[0]);
    assert("echo"@[0] != "hostname"@[0]);
    assert("date"@[0] != "uname"@[0]);
    assert("date"@[0] != "whoami"@[0]);
    assert("date"@[0] != "hostname"@[0]);
    assert("uname"@[0] != "whoami"@[0]);
    assert("uname"@[0] != "hostname"@[0]);
    assert("whoami"@[0] != "hostname"@[0]);
    assert("sleep"@[0] != "yes"@[0]);
}

fn readonly_table() -> (t: StrMap<BinarySpec>)
    ensures
        is_readonly_table(t@),
{
    proof {
        lemma_readonly_names_distinct();
    }
    let mut t: StrMap<BinarySpec> = StrMap::new();
    t.insert(s("echo"), echo_spec());
    t.insert(s("date"), date_spec());
    t.insert(s("uname"), uname_spec());
    t.insert(s("whoami"), whoami_spec());
    t.insert(s("hostname"), hostname_spec());
    t
}

/// The `linux-readonly` preset: `echo`, `date`, `uname`, `whoami` and
/// `hostname` with safe flags only, a 10 s timeout and a 1 MiB output cap.
pub fn linux_readonly() -> (p: Pact)
    ensures
        p@.version == 1,
        p@.name == "linux-readonly"@,
        p@.description == "Basic POSIX info commands — no side effects"@,
        p@.defaults == (Defaults { timeout_seconds: 10, max_output_bytes: 1048576 }),
        is_readonly_table(p@.binaries),
{
    Pact {
        version: 1,
        name: s("linux-readonly"),
        description: s("Basic POSIX info commands — no side effects"),
        defaults: Defaults { timeout_seconds: 10, max_output_bytes: 1048576 },
        binaries: readonly_table(),
    }
}

/// The `unix-readonly` preset, the pact that scripts run under: the same
/// binaries, flags and limits as `linux-readonly`.
pub fn unix_readonly() -> (p: Pact)
    ensures
        p@.version == 1,
        p@.name == "unix-readonly"@,
        p@.description == "Basic POSIX info commands — no side effects"@,
        p@.defaults == (Defaults { timeout_seconds: 10, max_output_bytes: 1048576 }),
        is_readonly_table(p@.binaries),
{
    Pact {
        version: 1,
        name: s("unix-readonly"),
        description: s("Basic POSIX info commands — no side effects"),
        defaults: Defaults { timeout_seconds: 10, max_output_bytes: 1048576 },
        binaries: readonly_table(),
    }
}

/// The `test-fixtures` pact: `sleep` and `yes`, used to exercise the
/// executor's safety rails, with a 1 s timeout and a 4 KiB output cap.
pub fn test_fixtures() -> (p: Pact)
    ensures
        p@.version == 1,
        p@.name == "test-fixtures"@,
        p@.description == "Binaries used only to exercise executor safety rails"@,
        p@.defaults == (Defaults { timeout_seconds: 1, max_output_bytes: 4096 }),
        p@.binaries.len() == 2,
        lookup(p@.binaries, "sleep"@) == Some(spec_sleep()),
        lookup(p@.binaries, "yes"@) == Some(spec_yes()),
{
    proof {
        lemma_readonly_names_distinct();
    }
    let mut t: StrMap<BinarySpec> = StrMap::new();
    t.insert(s("sleep"), sleep_spec());
    t.insert(s("yes"), yes_spec());
    Pact {
        version: 1,
        name: s("test-fixtures"),
        description: s("Binaries used only to exercise executor safety rails"),
        defaults: Defaults { timeout_seconds: 1, max_output_bytes: 4096 },
        binaries: t,
    }
}

// ---------------------------------------------------------------------------
// Laws of the presets
// ---------------------------------------------------------------------------

proof fn lemma_declared_flag_alone_accepted(action: ActionSpecView, binary: Seq<char>, f: Seq<char>)
    requires
        is_flag(f),
        action.flag_values.len() == 0,
        action.allowed_flags.contains(f),
    ensures
        action_verdict(action, binary, seq![f]) is Ok,
{
    let args = seq![f];
    assert(args[0] == f);
    assert(lookup(action.flag_values, f) is None);
    assert(crate::pact::engine::action_scan(action, binary, args, 1, 0, 0) is Ok);
    assert(crate::pact::engine::action_scan(action, binary, args, 0, 0, 0) is Ok);
}

/// A flag on its own.
pub open spec fn flag_alone(binary: Seq<char>, t: Seq<(Seq<char>, BinarySpecView)>, name: Seq<char>, f: Seq<char>) -> bool {
    lookup(t, name) matches Some(spec) && body_verdict(spec.body, binary, seq![f]) is Ok
}

/// The read-only presets accept each documented flag of their commands:
/// `echo -n`/`-e`, `date -u`/`-I`/`-R`, `uname -a`/`-s`/`-r`/`-m`/`-n`/`-p`
/// and `hostname -s`/`-f`; `whoami` takes no flag, and `hostname` is looked
/// up in its Linux list on Linux and in its macOS list on macOS.
pub proof fn law_readonly_presets_accept_documented_flags(t: Seq<(Seq<char>, BinarySpecView)>)
    requires
        is_readonly_table(t),
    ensures
        flag_alone("echo"@, t, "echo"@, "-n"@),
        flag_alone("echo"@, t, "echo"@, "-e"@),
        flag_alone("date"@, t, "date"@, "-u"@),
        flag_alone("date"@, t, "date"@, "-I"@),
        flag_alone("date"@, t, "date"@, "-R"@),
        flag_alone("uname"@, t, "uname"@, "-a"@),
        flag_alone("uname"@, t, "uname"@, "-s"@),
        flag_alone("uname"@, t, "uname"@, "-r"@),
        flag_alone("uname"@, t, "uname"@, "-m"@),
        flag_alone("uname"@, t, "uname"@, "-n"@),
        flag_alone("uname"@, t, "uname"@, "-p"@),
        flag_alone("hostname"@, t, "hostname"@, "-s"@),
        flag_alone("hostname"@, t, "hostname"@, "-f"@),
        lookup(t, "whoami"@) matches Some(spec) && body_verdict(spec.body, "whoami"@, Seq::empty())
            is Ok,
        lookup(t, "hostname"@) matches Some(spec) && spec_os_paths(spec.path, HostOs::Linux) == Some(
            seq!["/bin/hostname"@, "/usr/bin/hostname"@],
        ) && spec_os_paths(spec.path, HostOs::Macos) == Some(seq!["/bin/hostname"@]),
{
    reveal_strlit("-n");
    reveal_strlit("-e");
    reveal_strlit("-u");
    reveal_strlit("-I");
    reveal_strlit("-R");
    reveal_strlit("-a");
    reveal_strlit("-s");
    reveal_strlit("-r");
    reveal_strlit("-m");
    reveal_strlit("-p");
    reveal_strlit("-f");
    let echo = spec_echo().body->Direct_0;
    let date = spec_date().body->Direct_0;
    let uname = spec_uname().body->Direct_0;
    let host = spec_hostname().body->Direct_0;
    assert(echo.allowed_flags[0] == "-n"@ && echo.allowed_flags[1] == "-e"@);
    lemma_declared_flag_alone_accepted(echo, "echo"@, "-n"@);
    lemma_declared_flag_alone_accepted(echo, "echo"@, "-e"@);
    assert(date.allowed_flags[0] == "-u"@ && date.allowed_flags[1] == "-I"@
        && date.allowed_flags[2] == "-R"@);
    lemma_declared_flag_alone_accepted(date, "date"@, "-u"@);
    lemma_declared_flag_alone_accepted(date, "date"@, "-I"@);
    lemma_declared_flag_alone_accepted(date, "date"@, "-R"@);
    assert(uname.allowed_flags[0] == "-a"@ && uname.allowed_flags[1] == "-s"@
        && uname.allowed_flags[2] == "-r"@ && uname.allowed_flags[3] == "-m"@
        && uname.allowed_flags[4] == "-n"@ && uname.allowed_flags[5] == "-p"@);
    lemma_declared_flag_alone_accepted(uname, "uname"@, "-a"@);
    lemma_declared_flag_alone_accepted(uname, "uname"@, "-s"@);
    lemma_declared_flag_alone_accepted(uname, "uname"@, "-r"@);
    lemma_declared_flag_alone_accepted(uname, "uname"@, "-m"@);
    lemma_declared_flag_alone_accepted(uname, "uname"@, "-n"@);
    lemma_declared_flag_alone_accepted(uname, "uname"@, "-p"@);
    assert(host.allowed_flags[0] == "-s"@ && host.allowed_flags[1] == "-f"@);
    lemma_declared_flag_alone_accepted(host, "hostname"@, "-s"@);
    lemma_declared_flag_alone_accepted(host, "hostname"@, "-f"@);
}

/// The test-fixtures preset accepts `sleep 1` and `yes` with or without a
/// string, and refuses a `sleep` argument that is not a number.
pub proof fn law_test_fixtures_accept_documented_calls(t: Seq<(Seq<char>, BinarySpecView)>)
    requires
        lookup(t, "sleep"@) == Some(spec_sleep()),
        lookup(t, "yes"@) == Some(spec_yes()),
    ensures
        lookup(t, "sleep"@) matches Some(spec) && body_verdict(spec.body, "sleep"@, seq!["1"@]) is Ok
            && body_verdict(spec.body, "sleep"@, seq!["x"@]) is Err,
        lookup(t, "yes"@) matches Some(spec) && body_verdict(spec.body, "yes"@, Seq::empty()) is Ok
            && body_verdict(spec.body, "yes"@, seq!["y"@]) is Ok,
{
    reveal_strlit("1");
    reveal_strlit("x");
    reveal_strlit("y");
    let sleep = spec_sleep().body->Direct_0;
    let yes = spec_yes().body->Direct_0;
    assert(crate::strs::unsigned_digits("1"@) == "1"@);
    assert(crate::strs::digits_value("1"@) == 1) by {
        assert("1"@.drop_last() =~= Seq::<char>::empty());
        assert(crate::strs::digits_value(Seq::<char>::empty()) == 0);
        assert("1"@.last() == '1');
    }
    assert(crate::strs::all_digits("1"@));
    assert(crate::strs::parses_as_u64("1"@));
    let one = seq!["1"@];
    assert(one[0] == "1"@);
    assert(!is_flag("1"@));
    assert(crate::pact::engine::action_scan(sleep, "sleep"@, one, 1, 1, 1) is Ok);
    assert(action_verdict(sleep, "sleep"@, one) is Ok);
    assert(crate::strs::unsigned_digits("x"@) == "x"@);
    assert(!crate::strs::is_ascii_digit("x"@[0]));
    assert(action_verdict(sleep, "sleep"@, seq!["x"@]) is Err);
    let y = "y"@;
    assert(crate::pact::kinds::free_of_metacharacters(y)) by {
        assert forall|k: int| 0 <= k < crate::pact::kinds::FORBIDDEN_COUNT implies !y.contains(
            #[trigger] crate::pact::kinds::forbidden_char(k),
        ) by {
            if y.contains(crate::pact::kinds::forbidden_char(k)) {
                let j = choose|j: int|
                    0 <= j < y.len() && y[j] == crate::pact::kinds::forbidden_char(k);
                assert(j == 0);
            }
        }
    }
    crate::pact::kinds::lemma_string_kind_accepts_iff_free(y);
    let ys = seq![y];
    assert(ys[0] == y);
    assert(!is_flag(y));
    assert(crate::pact::engine::action_scan(yes, "yes"@, ys, 1, 0, 1) is Ok);
    assert(action_verdict(yes, "yes"@, ys) is Ok);
}

} // verus!
