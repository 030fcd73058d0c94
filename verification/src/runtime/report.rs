//! How a failed run is reported: the process exit code for an error kind and
//! the one-line message for a typed error map.
use vstd::prelude::*;

use crate::pact::engine::PactErrorView;
use crate::runtime::errors::{
    spec_error_fields, spec_kind_name, spec_pact_error_to_host, FieldValueView, HostErrorView,
};
use crate::strs::{
    join, join_strings, lemma_seq_lt_irreflexive, lemma_seq_lt_transitive, seq_lt, str_eq, str_lt,
    strs,
};

verus! {

broadcast use vstd::seq_lib::group_to_multiset_ensures;

/// The error kinds that are pact violations.
pub open spec fn pact_violation_kinds() -> Seq<Seq<char>> {
    seq![
        "BinaryNotAllowed"@,
        "BinaryNotFound"@,
        "SubcommandNotAllowed"@,
        "FlagNotAllowed"@,
        "FlagValueRejected"@,
        "PositionalRejected"@,
    ]
}

/// Whether `kind` names a pact violation.
pub fn is_pact_violation(kind: &str) -> (b: bool)
    ensures
        b == pact_violation_kinds().contains(kind@),
{
    let names = [
        "BinaryNotAllowed",
        "BinaryNotFound",
        "SubcommandNotAllowed",
        "FlagNotAllowed",
        "FlagValueRejected",
        "PositionalRejected",
    ];
    let ghost kinds = pact_violation_kinds();
    assert(names@.map_values(|s: &str| s@) =~= kinds);
    let mut i: usize = 0;
    while i < 6
        invariant
            names@.map_values(|s: &str| s@) == kinds,
            kinds == pact_violation_kinds(),
            names@.len() == 6,
            i <= 6,
            forall|j: int| 0 <= j < i ==> kinds[j] != kind@,
        decreases 6 - i,
    {
        assert(kinds[i as int] == names@[i as int]@);
        if str_eq(names[i], kind) {
            assert(kinds[i as int] == kind@);
            return true;
        }
        i = i + 1;
    }
    false
}

/// The process exit code of a run that failed with an error of `kind`:
/// 2 for a pact violation, 1 for any other script error.
pub open spec fn spec_exit_code_for(kind: Seq<char>) -> u8 {
    if pact_violation_kinds().contains(kind) {
        2
    } else {
        1
    }
}

pub fn exit_code_for(kind: &str) -> (c: u8)
    ensures
        c == spec_exit_code_for(kind@),
{
    if is_pact_violation(kind) {
        2
    } else {
        1
    }
}

/// The errors that a pact violation raises.
pub open spec fn is_pact_violation_error(e: HostErrorView) -> bool {
    ||| e is BinaryNotAllowed
    ||| e is BinaryNotFound
    ||| e is SubcommandNotAllowed
    ||| e is FlagNotAllowed
    ||| e is FlagValueRejected
    ||| e is PositionalRejected
}

/// A run that ends in a host error exits with 2 exactly when the error is a
/// pact violation, and with 1 otherwise.
pub proof fn law_exit_code_of_host_error(e: HostErrorView)
    ensures
        spec_exit_code_for(spec_kind_name(e)) == (if is_pact_violation_error(e) {
            2u8
        } else {
            1u8
        }),
{
    reveal_strlit("PathDenied");
    reveal_strlit("FileNotFound");
    reveal_strlit("FileAlreadyExists");
    reveal_strlit("IoError");
    reveal_strlit("ParseError");
    reveal_strlit("BinaryNotAllowed");
    reveal_strlit("BinaryNotFound");
    reveal_strlit("SubcommandNotAllowed");
    reveal_strlit("FlagNotAllowed");
    reveal_strlit("FlagValueRejected");
    reveal_strlit("PositionalRejected");
    reveal_strlit("ExecFailed");
    reveal_strlit("Timeout");
    reveal_strlit("OutputLimitExceeded");
    reveal_strlit("EnvDenied");
    reveal_strlit("EnvUnset");
    reveal_strlit("SerializeError");
    let k = spec_kind_name(e);
    let kinds = pact_violation_kinds();
    if is_pact_violation_error(e) {
        assert(kinds.contains(k)) by {
            if e is BinaryNotAllowed {
                assert(kinds[0] == k);
            } else if e is BinaryNotFound {
                assert(kinds[1] == k);
            } else if e is SubcommandNotAllowed {
                assert(kinds[2] == k);
            } else if e is FlagNotAllowed {
                assert(kinds[3] == k);
            } else if e is FlagValueRejected {
                assert(kinds[4] == k);
            } else {
                assert(kinds[5] == k);
            }
        }
    } else {
        assert forall|i: int| 0 <= i < kinds.len() implies kinds[i] != k by {
            if kinds[i].len() == k.len() {
                assert(kinds[i][0] != k[0] || kinds[i][1] != k[1] || kinds[i][2] != k[2]);
            }
        }
    }
}

/// Every pact violation makes the run exit with 2.
pub proof fn law_pact_violation_exits_2(e: PactErrorView)
    ensures
        spec_exit_code_for(spec_kind_name(spec_pact_error_to_host(e))) == 2,
{
    law_exit_code_of_host_error(spec_pact_error_to_host(e));
}

// ---------------------------------------------------------------------------
// Message
// ---------------------------------------------------------------------------

/// Non-decreasing in the lexicographic order.
pub open spec fn sorted_le(s: Seq<Seq<char>>) -> bool {
    forall|i: int, j: int| 0 <= i < j < s.len() ==> !seq_lt(#[trigger] s[j], #[trigger] s[i])
}

/// The views of a list of `(key, value)` fields.
pub open spec fn fields_view(f: Seq<(String, String)>) -> Seq<(Seq<char>, Seq<char>)> {
    f.map_values(|e: (String, String)| (e.0@, e.1@))
}

/// `key=value` for every field but `kind`, in field order.
pub open spec fn field_parts(f: Seq<(Seq<char>, Seq<char>)>) -> Seq<Seq<char>>
    decreases f.len(),
{
    if f.len() == 0 {
        Seq::empty()
    } else {
        let rest = field_parts(f.drop_last());
        let (k, v) = f.last();
        if k == "kind"@ {
            rest
        } else {
            rest.push(k + "="@ + v)
        }
    }
}

/// `<kind>` alone, or `<kind>: <parts joined by spaces>`.
pub open spec fn error_message(kind: Seq<char>, parts: Seq<Seq<char>>) -> Seq<char> {
    if parts.len() == 0 {
        kind
    } else {
        kind + ": "@ + join(parts, " "@)
    }
}

/// The strings of `v` in non-decreasing order (a stable insertion sort).
pub fn sort_strings(v: &Vec<String>) -> (r: Vec<String>)
    ensures
        sorted_le(strs(r@)),
        strs(r@).to_multiset() == strs(v@).to_multiset(),
{
    let mut out: Vec<String> = Vec::new();
    let mut i: usize = 0;
    while i < v.len()
        invariant
            i <= v@.len(),
            sorted_le(strs(out@)),
            strs(out@).to_multiset() == strs(v@.take(i as int)).to_multiset(),
        decreases v.len() - i,
    {
        let x = v[i].clone();
        let ghost xs = x@;
        let ghost o = strs(out@);
        let mut p: usize = 0;
        while p < out.len() && !str_lt(x.as_str(), out[p].as_str())
            invariant
                o == strs(out@),
                x@ == xs,
                p <= out@.len(),
                forall|j: int| 0 <= j < p ==> !seq_lt(xs, #[trigger] o[j]),
            decreases out.len() - p,
        {
            p = p + 1;
        }
        proof {
            if p < o.len() {
                assert(seq_lt(xs, o[p as int]));
            }
        }
        out.insert(p, x);
        proof {
            let n = o.insert(p as int, xs);
            assert(strs(out@) =~= n);
            assert forall|a: int, b: int| 0 <= a < b < n.len() implies !seq_lt(
                #[trigger] n[b],
                #[trigger] n[a],
            ) by {
                if b < p {
                    assert(n[a] == o[a] && n[b] == o[b]);
                } else if b == p {
                    assert(n[a] == o[a]);
                } else if a == p {
                    if seq_lt(o[b - 1], xs) {
                        lemma_seq_lt_transitive(o[b - 1], xs, o[p as int]);
                        if b - 1 == p {
                            lemma_seq_lt_irreflexive(o[p as int]);
                        } else {
                            assert(!seq_lt(o[b - 1], o[p as int]));
                        }
                    }
                } else if a < p {
                    assert(n[a] == o[a] && n[b] == o[b - 1]);
                } else {
                    assert(n[a] == o[a - 1] && n[b] == o[b - 1]);
                }
            }
            assert(strs(v@.take(i + 1)) =~= strs(v@.take(i as int)).push(v@[i as int]@));
        }
        i = i + 1;
    }
    assert(v@.take(v@.len() as int) =~= v@);
    out
}

/// The `key=value` parts of every field but `kind`, in field order.
pub fn format_fields(fields: &Vec<(String, String)>) -> (r: Vec<String>)
    ensures
        strs(r@) == field_parts(fields_view(fields@)),
{
    let ghost f = fields_view(fields@);
    let mut out: Vec<String> = Vec::new();
    let mut i: usize = 0;
    while i < fields.len()
        invariant
            f == fields_view(fields@),
            i <= fields@.len(),
            strs(out@) == field_parts(f.take(i as int)),
        decreases fields.len() - i,
    {
        assert(f.take(i + 1).drop_last() =~= f.take(i as int));
        assert(f.take(i + 1).last() == (fields@[i as int].0@, fields@[i as int].1@));
        let k = &fields[i].0;
        let v = &fields[i].1;
        if !str_eq(k.as_str(), "kind") {
            let mut part = k.clone();
            part.append("=");
            part.append(v.as_str());
            let ghost before = strs(out@);
            out.push(part);
            assert(strs(out@) =~= before.push(k@ + "="@ + v@));
        }
        i = i + 1;
    }
    assert(f.take(fields@.len() as int) =~= f);
    out
}

/// Format a typed error map as `<kind>: key=value key=value ...`, with the
/// parts sorted, or as `<kind>` alone when the map has no other field.
pub fn format_map_error(kind: &str, fields: &Vec<(String, String)>) -> (r: String)
    ensures
        exists|parts: Seq<Seq<char>>|
            #![trigger error_message(kind@, parts)]
            sorted_le(parts) && parts.to_multiset() == field_parts(fields_view(fields@)).to_multiset()
                && r@ == error_message(kind@, parts),
{
    let parts = format_fields(fields);
    let sorted = sort_strings(&parts);
    let ghost sp = strs(sorted@);
    if sorted.len() == 0 {
        let r = String::from_str(kind);
        assert(r@ == error_message(kind@, sp));
        r
    } else {
        let mut r = String::from_str(kind);
        r.append(": ");
        let joined = join_strings(&sorted, " ");
        r.append(joined.as_str());
        assert(r@ == error_message(kind@, sp));
        r
    }
}

/// Two sorted arrangements of the same parts are the same sequence.
pub proof fn lemma_sorted_permutation_unique(a: Seq<Seq<char>>, b: Seq<Seq<char>>)
    requires
        sorted_le(a),
        sorted_le(b),
        a.to_multiset() == b.to_multiset(),
    ensures
        a == b,
    decreases a.len(),
{
    assert(a.len() == a.to_multiset().len());
    assert(b.len() == b.to_multiset().len());
    if a.len() == 0 {
        assert(a =~= b);
    } else {
        let a0 = a[0];
        let b0 = b[0];
        assert(a.contains(a0));
        assert(a.to_multiset().count(a0) > 0);
        assert(b.contains(a0));
        assert(b.contains(b0));
        assert(b.to_multiset().count(b0) > 0);
        assert(a.contains(b0));
        let i = choose|i: int| 0 <= i < a.len() && a[i] == b0;
        let j = choose|j: int| 0 <= j < b.len() && b[j] == a0;
        if i > 0 {
            assert(!seq_lt(a[i], a[0]));
        }
        if j > 0 {
            assert(!seq_lt(b[j], b[0]));
        }
        if a0 != b0 {
            crate::strs::lemma_seq_lt_total(a0, b0);
        }
        assert(a0 == b0);
        assert(a.remove(0) =~= a.drop_first());
        assert(b.remove(0) =~= b.drop_first());
        assert(a.drop_first().to_multiset() == b.drop_first().to_multiset());
        lemma_sorted_permutation_unique(a.drop_first(), b.drop_first());
        assert(a =~= seq![a0] + a.drop_first());
        assert(b =~= seq![b0] + b.drop_first());
    }
}

/// The message of a typed error map does not depend on the order of its
/// fields: any two sorted arrangements of the parts of two field lists with
/// the same parts give the same message.
pub proof fn law_message_independent_of_field_order(
    kind: Seq<char>,
    f1: Seq<(Seq<char>, Seq<char>)>,
    f2: Seq<(Seq<char>, Seq<char>)>,
    p1: Seq<Seq<char>>,
    p2: Seq<Seq<char>>,
)
    requires
        field_parts(f1).to_multiset() == field_parts(f2).to_multiset(),
        sorted_le(p1),
        p1.to_multiset() == field_parts(f1).to_multiset(),
        sorted_le(p2),
        p2.to_multiset() == field_parts(f2).to_multiset(),
    ensures
        error_message(kind, p1) == error_message(kind, p2),
{
    lemma_sorted_permutation_unique(p1, p2);
}

/// The value of the first field named `key`, or the empty string.
pub open spec fn field_value(f: Seq<(Seq<char>, Seq<char>)>, key: Seq<char>) -> Seq<char>
    decreases f.len(),
{
    if f.len() == 0 {
        Seq::empty()
    } else if f[0].0 == key {
        f[0].1
    } else {
        field_value(f.drop_first(), key)
    }
}

/// The value of the first field named `key`, or the empty string.
pub fn map_str(fields: &Vec<(String, String)>, key: &str) -> (r: String)
    ensures
        r@ == field_value(fields_view(fields@), key@),
{
    let ghost f = fields_view(fields@);
    let mut i: usize = 0;
    assert(f.skip(0) =~= f);
    while i < fields.len()
        invariant
            f == fields_view(fields@),
            i <= fields@.len(),
            field_value(f, key@) == field_value(f.skip(i as int), key@),
        decreases fields.len() - i,
    {
        assert(f.skip(i as int).drop_first() =~= f.skip(i + 1));
        assert(f.skip(i as int)[0] == (fields@[i as int].0@, fields@[i as int].1@));
        if str_eq(fields[i].0.as_str(), key) {
            return fields[i].1.clone();
        }
        i = i + 1;
    }
    String::new()
}

/// Classify a typed error map (given as its fields) into the exit code and
/// the message of the run: the `kind` field decides the code.
pub fn classify_fields(fields: &Vec<(String, String)>) -> (r: (u8, String))
    ensures
        r.0 == spec_exit_code_for(field_value(fields_view(fields@), "kind"@)),
        exists|parts: Seq<Seq<char>>|
            #![trigger error_message(field_value(fields_view(fields@), "kind"@), parts)]
            sorted_le(parts) && parts.to_multiset() == field_parts(fields_view(fields@)).to_multiset()
                && r.1@ == error_message(field_value(fields_view(fields@), "kind"@), parts),
{
    let kind = map_str(fields, "kind");
    let code = exit_code_for(kind.as_str());
    let msg = format_map_error(kind.as_str(), fields);
    (code, msg)
}

/// The error-map fields as text, the way the runner reads them back: a
/// string as itself, an integer through `show_int`.
pub open spec fn field_texts(
    f: Seq<(Seq<char>, FieldValueView)>,
    show_int: spec_fn(int) -> Seq<char>,
) -> Seq<(Seq<char>, Seq<char>)> {
    f.map_values(
        |e: (Seq<char>, FieldValueView)|
            (
                e.0,
                match e.1 {
                    FieldValueView::Str(s) => s,
                    FieldValueView::Int(i) => show_int(i),
                },
            ),
    )
}

/// A run that ends in a host error exits with the code its error map
/// classifies to: 2 exactly for a pact violation, 1 otherwise, however the
/// map's integers are printed.
pub proof fn law_error_map_exit_code(e: HostErrorView, show_int: spec_fn(int) -> Seq<char>)
    ensures
        spec_exit_code_for(field_value(field_texts(spec_error_fields(e), show_int), "kind"@)) == (
        if is_pact_violation_error(e) {
            2u8
        } else {
            1u8
        }),
{
    let t = field_texts(spec_error_fields(e), show_int);
    assert(t[0] == ("kind"@, spec_kind_name(e)));
    assert(field_value(t, "kind"@) == spec_kind_name(e));
    law_exit_code_of_host_error(e);
}

} // verus!
