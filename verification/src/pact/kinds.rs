//! Value kinds: the checks that flag values and positional arguments must pass.
use vstd::prelude::*;

use crate::pact::schema::{KindSpec, KindSpecView};
use crate::strs::{join, join_strings, parse_u64, parses_as_u64, str_contains_char, str_eq, strs};

verus! {

/// Reason a kind validation failed.
#[derive(Debug)]
pub struct KindRejection {
    pub reason: String,
}

impl KindRejection {
    fn new(reason: String) -> (r: Self)
        ensures
            r.reason == reason,
    {
        KindRejection { reason }
    }
}

/// The number of shell metacharacters that the `string` kind forbids.
pub const FORBIDDEN_COUNT: usize = 10;

/// The `k`-th forbidden shell metacharacter.
pub open spec fn forbidden_char(k: int) -> char {
    if k == 0 {
        '\0'
    } else if k == 1 {
        ';'
    } else if k == 2 {
        '&'
    } else if k == 3 {
        '|'
    } else if k == 4 {
        '$'
    } else if k == 5 {
        '`'
    } else if k == 6 {
        '<'
    } else if k == 7 {
        '>'
    } else if k == 8 {
        '\n'
    } else {
        '\r'
    }
}

/// The human-readable label of the `k`-th forbidden character.
pub open spec fn forbidden_label(k: int) -> Seq<char> {
    if k == 0 {
        "null byte"@
    } else if k == 1 {
        "';'"@
    } else if k == 2 {
        "'&'"@
    } else if k == 3 {
        "'|'"@
    } else if k == 4 {
        "'$'"@
    } else if k == 5 {
        "'`'"@
    } else if k == 6 {
        "'<'"@
    } else if k == 7 {
        "'>'"@
    } else if k == 8 {
        "newline"@
    } else {
        "carriage return"@
    }
}

/// The first forbidden character, in table order from `k` on, that `v`
/// contains.
pub open spec fn first_forbidden(v: Seq<char>, k: int) -> Option<int>
    decreases FORBIDDEN_COUNT - k,
{
    if k < 0 || k >= FORBIDDEN_COUNT {
        None
    } else if v.contains(forbidden_char(k)) {
        Some(k)
    } else {
        first_forbidden(v, k + 1)
    }
}

/// `v` contains none of the forbidden shell metacharacters.
pub open spec fn free_of_metacharacters(v: Seq<char>) -> bool {
    forall|k: int| 0 <= k < FORBIDDEN_COUNT ==> !v.contains(#[trigger] forbidden_char(k))
}

/// The outcome of checking `v` against `kind`: `None` when it is accepted,
/// otherwise the reason for the rejection.
pub open spec fn kind_check(kind: KindSpecView, v: Seq<char>) -> Option<Seq<char>> {
    match kind {
        KindSpecView::Enum { values } => if values.contains(v) {
            None
        } else {
            Some("not in allowed values ["@ + join(values, ", "@) + "]"@)
        },
        KindSpecView::Number => if parses_as_u64(v) {
            None
        } else {
            Some("not a non-negative integer"@)
        },
        KindSpecView::String_ => match first_forbidden(v, 0) {
            Some(k) => Some("contains forbidden character "@ + forbidden_label(k)),
            None => None,
        },
    }
}

/// The `enum` kind accepts a value exactly when it equals one of the listed
/// values, character for character: a value that merely begins or ends
/// with a listed value, or differs from one in case, is refused, and the
/// refusal names the listed values.
pub proof fn law_enum_accepts_exactly_the_listed_values(values: Seq<Seq<char>>, v: Seq<char>)
    ensures
        kind_check(KindSpecView::Enum { values }, v) is None <==> exists|j: int|
            0 <= j < values.len() && #[trigger] values[j] == v,
        kind_check(KindSpecView::Enum { values }, v) is Some ==> kind_check(
            KindSpecView::Enum { values },
            v,
        ) == Some("not in allowed values ["@ + join(values, ", "@) + "]"@),
{
    if exists|j: int| 0 <= j < values.len() && #[trigger] values[j] == v {
        let j = choose|j: int| 0 <= j < values.len() && #[trigger] values[j] == v;
        assert(values.contains(v));
    }
}

/// The `number` kind accepts only a non-empty run of decimal digits, with at
/// most one leading `+`: an empty value, a sign `-`, or any other character
/// is refused.
pub proof fn law_number_accepts_only_digits(v: Seq<char>)
    ensures
        kind_check(KindSpecView::Number, v) is None ==> {
            &&& v.len() > 0
            &&& v[0] != '-'
            &&& forall|i: int|
                0 <= i < v.len() && !(i == 0 && v[0] == '+') ==> '0' <= #[trigger] v[i] <= '9'
        },
{
    if kind_check(KindSpecView::Number, v) is None {
        let d = crate::strs::unsigned_digits(v);
        assert(d.len() > 0);
        assert forall|i: int| 0 <= i < v.len() && !(i == 0 && v[0] == '+') implies '0' <= #[trigger] v[i]
            <= '9' by {
            if v.len() > 0 && v[0] == '+' {
                assert(d[i - 1] == v[i]);
            } else {
                assert(d[i] == v[i]);
            }
        }
        if v[0] == '+' {
            assert(d[0] == v[1]);
        }
    }
}

/// A value is accepted by the `string` kind exactly when it contains no
/// forbidden shell metacharacter.
pub proof fn lemma_string_kind_accepts_iff_free(v: Seq<char>)
    ensures
        kind_check(KindSpecView::String_, v) is None <==> free_of_metacharacters(v),
{
    lemma_first_forbidden(v, 0);
}

proof fn lemma_first_forbidden(v: Seq<char>, k: int)
    requires
        0 <= k <= FORBIDDEN_COUNT,
    ensures
        first_forbidden(v, k) is None <==> forall|j: int|
            k <= j < FORBIDDEN_COUNT ==> !v.contains(#[trigger] forbidden_char(j)),
        first_forbidden(v, k) matches Some(j) ==> k <= j < FORBIDDEN_COUNT && v.contains(
            forbidden_char(j),
        ),
    decreases FORBIDDEN_COUNT - k,
{
    if k < FORBIDDEN_COUNT {
        lemma_first_forbidden(v, k + 1);
    }
}

/// The `k`-th forbidden character and its label.
fn forbidden_entry(k: usize) -> (r: (char, &'static str))
    requires
        k < FORBIDDEN_COUNT,
    ensures
        r.0 == forbidden_char(k as int),
        r.1@ == forbidden_label(k as int),
{
    match k {
        0 => ('\0', "null byte"),
        1 => (';', "';'"),
        2 => ('&', "'&'"),
        3 => ('|', "'|'"),
        4 => ('$', "'$'"),
        5 => ('`', "'`'"),
        6 => ('<', "'<'"),
        7 => ('>', "'>'"),
        8 => ('\n', "newline"),
        _ => ('\r', "carriage return"),
    }
}

/// Validate `value` against `kind`.
pub fn validate(kind: &KindSpec, value: &str) -> (r: Result<(), KindRejection>)
    ensures
        r is Ok <==> kind_check(kind@, value@) is None,
        r matches Err(rej) ==> kind_check(kind@, value@) == Some(rej.reason@),
{
    match kind {
        KindSpec::Enum { values } => {
            let mut i: usize = 0;
            while i < values.len()
                invariant
                    kind@ == (KindSpecView::Enum { values: strs(values@) }),
                    i <= values@.len(),
                    forall|j: int| 0 <= j < i ==> values@[j]@ != value@,
                decreases values.len() - i,
            {
                if str_eq(values[i].as_str(), value) {
                    assert(strs(values@)[i as int] == value@);
                    return Ok(());
                }
                i = i + 1;
            }
            assert(!strs(values@).contains(value@)) by {
                if strs(values@).contains(value@) {
                    let j = choose|j: int| 0 <= j < strs(values@).len() && strs(values@)[j] == value@;
                    assert(values@[j]@ == value@);
                }
            }
            let mut reason = String::from_str("not in allowed values [");
            let joined = join_strings(values, ", ");
            reason.append(joined.as_str());
            reason.append("]");
            Err(KindRejection::new(reason))
        },
        KindSpec::Number => {
            match parse_u64(value) {
                Some(_) => Ok(()),
                None => Err(KindRejection::new(String::from_str("not a non-negative integer"))),
            }
        },
        KindSpec::String_ => {
            let mut k: usize = 0;
            while k < FORBIDDEN_COUNT
                invariant
                    kind@ == KindSpecView::String_,
                    k <= FORBIDDEN_COUNT,
                    first_forbidden(value@, 0) == first_forbidden(value@, k as int),
                decreases FORBIDDEN_COUNT - k,
            {
                let (ch, label) = forbidden_entry(k);
                if str_contains_char(value, ch) {
                    let mut reason = String::from_str("contains forbidden character ");
                    reason.append(label);
                    return Err(KindRejection::new(reason));
                }
                k = k + 1;
            }
            Ok(())
        },
    }
}

} // verus!
