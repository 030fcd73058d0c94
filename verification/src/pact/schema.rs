//! The pact schema.  A pact names the binaries a script may run and, for each,
//! the flags, flag values and positional arguments it accepts.
use vstd::prelude::*;

use crate::pact::table::StrMap;
use crate::strs::strs;

verus! {

/// A pact: the whole allowlist.
#[derive(Debug, Clone)]
pub struct Pact {
    pub version: u32,
    pub name: String,
    pub description: String,
    pub defaults: Defaults,
    pub binaries: StrMap<BinarySpec>,
}

/// Per-exec limits.
#[derive(Debug, Clone, Copy, PartialEq, Eq, Structural)]
pub struct Defaults {
    pub timeout_seconds: u32,
    pub max_output_bytes: u64,
}

/// One allowed binary: where it may live and what arguments it takes.
#[derive(Debug, Clone)]
pub struct BinarySpec {
    pub path: PathSpec,
    pub body: BinaryBody,
}

/// The binary body as written: a `subcommands` table and the direct action
/// fields side by side, before the rule that they exclude each other is
/// applied.
#[derive(Debug, Clone)]
pub struct BinaryBodyRaw {
    pub subcommands: Option<StrMap<ActionSpec>>,
    pub allowed_flags: Vec<String>,
    pub flag_values: StrMap<KindSpec>,
    pub positional: Vec<PositionalSpec>,
}

/// The validated binary body: either a table of subcommands or one action.
#[derive(Debug, Clone)]
pub enum BinaryBody {
    WithSubcommands(StrMap<ActionSpec>),
    Direct(ActionSpec),
}

/// What one (sub)command accepts.
#[derive(Debug, Clone)]
pub struct ActionSpec {
    pub allowed_flags: Vec<String>,
    pub flag_values: StrMap<KindSpec>,
    pub positional: Vec<PositionalSpec>,
}

/// Candidate absolute paths of a binary, per operating system.
#[derive(Debug, Clone)]
pub struct PathSpec {
    pub default: Option<Vec<String>>,
    pub linux: Option<Vec<String>>,
    pub macos: Option<Vec<String>>,
}

/// The kind a flag value or positional argument must have.
#[derive(Debug, Clone)]
pub enum KindSpec {
    Enum { values: Vec<String> },
    Number,
    String_,
}

/// One positional argument slot.
#[derive(Debug, Clone)]
pub struct PositionalSpec {
    pub kind: KindSpec,
    pub optional: bool,
    pub repeated: bool,
}

/// The reason `BinaryBody::from_raw` refuses a body: it has both a
/// `subcommands` table and direct action fields.
#[derive(Debug, Clone, Copy, PartialEq, Eq, Structural)]
pub struct SubcommandsConflict;

// ---------------------------------------------------------------------------
// Mathematical views
// ---------------------------------------------------------------------------

pub enum KindSpecView {
    Enum { values: Seq<Seq<char>> },
    Number,
    String_,
}

pub struct PositionalSpecView {
    pub kind: KindSpecView,
    pub optional: bool,
    pub repeated: bool,
}

pub struct ActionSpecView {
    pub allowed_flags: Seq<Seq<char>>,
    pub flag_values: Seq<(Seq<char>, KindSpecView)>,
    pub positional: Seq<PositionalSpecView>,
}

pub struct PathSpecView {
    pub default: Option<Seq<Seq<char>>>,
    pub linux: Option<Seq<Seq<char>>>,
    pub macos: Option<Seq<Seq<char>>>,
}

pub enum BinaryBodyView {
    WithSubcommands(Seq<(Seq<char>, ActionSpecView)>),
    Direct(ActionSpecView),
}

pub struct BinaryBodyRawView {
    pub subcommands: Option<Seq<(Seq<char>, ActionSpecView)>>,
    pub allowed_flags: Seq<Seq<char>>,
    pub flag_values: Seq<(Seq<char>, KindSpecView)>,
    pub positional: Seq<PositionalSpecView>,
}

pub struct BinarySpecView {
    pub path: PathSpecView,
    pub body: BinaryBodyView,
}

pub struct PactView {
    pub version: u32,
    pub name: Seq<char>,
    pub description: Seq<char>,
    pub defaults: Defaults,
    pub binaries: Seq<(Seq<char>, BinarySpecView)>,
}

/// The views of an optional list of strings.
pub open spec fn opt_strs(o: Option<Vec<String>>) -> Option<Seq<Seq<char>>> {
    match o {
        Some(v) => Some(strs(v@)),
        None => None,
    }
}

/// The views of a list of positional slots.
pub open spec fn positionals_view(v: Seq<PositionalSpec>) -> Seq<PositionalSpecView> {
    v.map_values(|p: PositionalSpec| p@)
}

impl View for KindSpec {
    type V = KindSpecView;

    open spec fn view(&self) -> KindSpecView {
        match self {
            KindSpec::Enum { values } => KindSpecView::Enum { values: strs(values@) },
            KindSpec::Number => KindSpecView::Number,
            KindSpec::String_ => KindSpecView::String_,
        }
    }
}

impl View for PositionalSpec {
    type V = PositionalSpecView;

    open spec fn view(&self) -> PositionalSpecView {
        PositionalSpecView { kind: self.kind@, optional: self.optional, repeated: self.repeated }
    }
}

impl View for ActionSpec {
    type V = ActionSpecView;

    open spec fn view(&self) -> ActionSpecView {
        ActionSpecView {
            allowed_flags: strs(self.allowed_flags@),
            flag_values: self.flag_values@,
            positional: positionals_view(self.positional@),
        }
    }
}

impl View for PathSpec {
    type V = PathSpecView;

    open spec fn view(&self) -> PathSpecView {
        PathSpecView {
            default: opt_strs(self.default),
            linux: opt_strs(self.linux),
            macos: opt_strs(self.macos),
        }
    }
}

impl View for BinaryBody {
    type V = BinaryBodyView;

    open spec fn view(&self) -> BinaryBodyView {
        match self {
            BinaryBody::WithSubcommands(m) => BinaryBodyView::WithSubcommands(m@),
            BinaryBody::Direct(a) => BinaryBodyView::Direct(a@),
        }
    }
}

impl View for BinaryBodyRaw {
    type V = BinaryBodyRawView;

    open spec fn view(&self) -> BinaryBodyRawView {
        BinaryBodyRawView {
            subcommands: match self.subcommands {
                Some(m) => Some(m@),
                None => None,
            },
            allowed_flags: strs(self.allowed_flags@),
            flag_values: self.flag_values@,
            positional: positionals_view(self.positional@),
        }
    }
}

impl View for BinarySpec {
    type V = BinarySpecView;

    open spec fn view(&self) -> BinarySpecView {
        BinarySpecView { path: self.path@, body: self.body@ }
    }
}

impl View for Defaults {
    type V = Defaults;

    open spec fn view(&self) -> Defaults {
        *self
    }
}

impl View for Pact {
    type V = PactView;

    open spec fn view(&self) -> PactView {
        PactView {
            version: self.version,
            name: self.name@,
            description: self.description@,
            defaults: self.defaults,
            binaries: self.binaries@,
        }
    }
}

// ---------------------------------------------------------------------------
// Body validation
// ---------------------------------------------------------------------------

/// The body a raw body stands for: `None` when it has both a `subcommands`
/// table and any direct field (a flag, a flag value or a positional).
pub open spec fn spec_body_from_raw(raw: BinaryBodyRawView) -> Option<BinaryBodyView> {
    let has_direct = raw.allowed_flags.len() > 0 || raw.flag_values.len() > 0
        || raw.positional.len() > 0;
    match raw.subcommands {
        Some(sub) => if has_direct {
            None
        } else {
            Some(BinaryBodyView::WithSubcommands(sub))
        },
        None => Some(
            BinaryBodyView::Direct(
                ActionSpecView {
                    allowed_flags: raw.allowed_flags,
                    flag_values: raw.flag_values,
                    positional: raw.positional,
                },
            ),
        ),
    }
}

impl BinaryBody {
    /// Applies the rule that `subcommands` excludes the direct action fields.
    pub fn from_raw(raw: BinaryBodyRaw) -> (r: Result<BinaryBody, SubcommandsConflict>)
        ensures
            match r {
                Ok(body) => spec_body_from_raw(raw@) == Some(body@),
                Err(_) => spec_body_from_raw(raw@) is None,
            },
    {
        let has_subcommands = raw.subcommands.is_some();
        let has_direct = raw.allowed_flags.len() > 0 || raw.flag_values.len() > 0
            || raw.positional.len() > 0;
        if has_subcommands && has_direct {
            return Err(SubcommandsConflict);
        }
        match raw.subcommands {
            Some(sub) => Ok(BinaryBody::WithSubcommands(sub)),
            None => Ok(
                BinaryBody::Direct(
                    ActionSpec {
                        allowed_flags: raw.allowed_flags,
                        flag_values: raw.flag_values,
                        positional: raw.positional,
                    },
                ),
            ),
        }
    }
}

} // verus!
