//! The pure part of the workspace file functions: which script paths are
//! refused before any file is touched, how a path is split into components,
//! whether a resolved path lies inside the workspace, and how file text is
//! split into lines.
use vstd::prelude::*;

use crate::pact::engine::path_exists;
use crate::runtime::errors::{HostError, HostErrorView};
use crate::strs::{chars_of, starts_with_char, str_starts_with_char, string_push, strs};

verus! {

// ---------------------------------------------------------------------------
// Path components
// ---------------------------------------------------------------------------

/// A finished segment is kept unless it is empty or `.`.
pub open spec fn keep_segment(seg: Seq<char>) -> Seq<Seq<char>> {
    if seg.len() == 0 || seg == seq!['.'] {
        Seq::empty()
    } else {
        seq![seg]
    }
}

/// The non-empty segments other than `.` of `s` split at `/`, where `cur`
/// holds the characters of the segment in progress.
pub open spec fn segments_acc(s: Seq<char>, cur: Seq<char>) -> Seq<Seq<char>>
    decreases s.len(),
{
    if s.len() == 0 {
        keep_segment(cur)
    } else if s[0] == '/' {
        keep_segment(cur) + segments_acc(s.drop_first(), Seq::empty())
    } else {
        segments_acc(s.drop_first(), cur.push(s[0]))
    }
}

/// The named segments of a path: the pieces between `/`, without empty
/// pieces and without `.`.  A `..` is kept.
pub open spec fn named_segments(p: Seq<char>) -> Seq<Seq<char>> {
    segments_acc(p, Seq::empty())
}

/// A relative path that begins with the component `.`.
pub open spec fn starts_with_cur_dir(p: Seq<char>) -> bool {
    p.len() >= 1 && p[0] == '.' && (p.len() == 1 || p[1] == '/')
}

/// The components of a Unix path, as `std::path::Path::components` gives
/// them: `/` for the root, `.` for a leading current-directory component,
/// then the named segments.
pub open spec fn path_components(p: Seq<char>) -> Seq<Seq<char>> {
    if starts_with_char(p, '/') {
        seq![seq!['/']] + named_segments(p)
    } else if starts_with_cur_dir(p) {
        seq![seq!['.']] + named_segments(p)
    } else {
        named_segments(p)
    }
}

/// `base`'s components are a prefix of `p`'s (`Path::starts_with`).
pub open spec fn spec_path_starts_with(p: Seq<char>, base: Seq<char>) -> bool {
    let pc = path_components(p);
    let bc = path_components(base);
    bc.len() <= pc.len() && pc.subrange(0, bc.len() as int) == bc
}

proof fn lemma_segments_step(s: Seq<char>, cur: Seq<char>, i: int)
    requires
        0 <= i < s.len(),
    ensures
        s[i] == '/' ==> segments_acc(s.skip(i), cur) == keep_segment(cur) + segments_acc(
            s.skip(i + 1),
            Seq::empty(),
        ),
        s[i] != '/' ==> segments_acc(s.skip(i), cur) == segments_acc(s.skip(i + 1), cur.push(s[i])),
{
    assert(s.skip(i).drop_first() =~= s.skip(i + 1));
    assert(s.skip(i)[0] == s[i]);
}

fn keep_segment_exec(cur: &Vec<char>, out: &mut Vec<String>)
    ensures
        strs(final(out)@) == strs(old(out)@) + keep_segment(cur@),
{
    let n = cur.len();
    if n == 0 || (n == 1 && cur[0] == '.') {
        if n == 1 {
            assert(cur@ =~= seq!['.']);
        }
        assert(keep_segment(cur@) =~= Seq::<Seq<char>>::empty());
        assert(strs(old(out)@) + keep_segment(cur@) =~= strs(old(out)@));
        return;
    }
    if n == 1 {
        assert(cur@ != seq!['.']);
    }
    let mut seg = String::new();
    let mut i: usize = 0;
    while i < n
        invariant
            n == cur@.len(),
            i <= n,
            seg@ == cur@.take(i as int),
        decreases n - i,
    {
        string_push(&mut seg, cur[i]);
        assert(seg@ =~= cur@.take(i + 1));
        i = i + 1;
    }
    assert(cur@.take(n as int) =~= cur@);
    let ghost before = out@;
    out.push(seg);
    assert(strs(out@) =~= strs(before) + keep_segment(cur@));
}

/// The named segments of `p` (see `named_segments`).
pub fn split_segments(p: &str) -> (r: Vec<String>)
    ensures
        strs(r@) == named_segments(p@),
{
    let v = chars_of(p);
    let mut out: Vec<String> = Vec::new();
    let mut cur: Vec<char> = Vec::new();
    let mut i: usize = 0;
    assert(p@.skip(0) =~= p@);
    while i < v.len()
        invariant
            v@ == p@,
            i <= v@.len(),
            strs(out@) + segments_acc(p@.skip(i as int), cur@) == named_segments(p@),
        decreases v.len() - i,
    {
        proof {
            lemma_segments_step(p@, cur@, i as int);
        }
        if v[i] == '/' {
            let ghost o = strs(out@);
            keep_segment_exec(&cur, &mut out);
            assert(strs(out@) + segments_acc(p@.skip(i + 1), Seq::empty()) =~= o + (keep_segment(
                cur@,
            ) + segments_acc(p@.skip(i + 1), Seq::empty())));
            cur = Vec::new();
        } else {
            cur.push(v[i]);
        }
        i = i + 1;
    }
    assert(p@.skip(v.len() as int) =~= Seq::<char>::empty());
    keep_segment_exec(&cur, &mut out);
    out
}

/// The components of `p` (see `path_components`).
pub fn components(p: &str) -> (r: Vec<String>)
    ensures
        strs(r@) == path_components(p@),
{
    let v = chars_of(p);
    let segs = split_segments(p);
    let mut out: Vec<String> = Vec::new();
    if v.len() > 0 && v[0] == '/' {
        out.push(String::from_str("/"));
        proof {
            reveal_strlit("/");
            assert(out@[0]@ =~= seq!['/']);
            assert(strs(out@) =~= seq![seq!['/']]);
        }
    } else if v.len() >= 1 && v[0] == '.' && (v.len() == 1 || v[1] == '/') {
        assert(starts_with_cur_dir(p@));
        out.push(String::from_str("."));
        proof {
            reveal_strlit(".");
            assert(out@[0]@ =~= seq!['.']);
            assert(strs(out@) =~= seq![seq!['.']]);
        }
    }
    let ghost head = strs(out@);
    assert(path_components(p@) == head + named_segments(p@)) by {
        if !starts_with_char(p@, '/') && !starts_with_cur_dir(p@) {
            assert(head =~= Seq::<Seq<char>>::empty());
            assert(head + named_segments(p@) =~= named_segments(p@));
        }
    }
    let h = out.len();
    let mut i: usize = 0;
    while i < segs.len()
        invariant
            i <= segs@.len(),
            h == head.len(),
            out@.len() == h + i,
            strs(out@) == head + strs(segs@).take(i as int),
        decreases segs.len() - i,
    {
        let ghost before = out@;
        let c = segs[i].clone();
        assert(c@ == strs(segs@)[i as int]);
        out.push(c);
        assert forall|j: int| 0 <= j < h + i + 1 implies #[trigger] strs(out@)[j] == (head
            + strs(segs@).take(i + 1))[j] by {
            if j < h + i {
                assert(out@[j] == before[j]);
                assert(strs(before)[j] == (head + strs(segs@).take(i as int))[j]);
            }
        }
        assert(strs(out@) =~= head + strs(segs@).take(i + 1));
        i = i + 1;
    }
    assert(strs(segs@).take(segs@.len() as int) =~= strs(segs@));
    assert(strs(out@) =~= path_components(p@));
    out
}

/// Whether `base` is a component-wise prefix of `path` (`Path::starts_with`).
pub fn path_starts_with(path: &str, base: &str) -> (b: bool)
    ensures
        b == spec_path_starts_with(path@, base@),
{
    let pc = components(path);
    let bc = components(base);
    let ghost ps = strs(pc@);
    let ghost bs = strs(bc@);
    if bc.len() > pc.len() {
        return false;
    }
    let mut i: usize = 0;
    while i < bc.len()
        invariant
            ps == strs(pc@),
            bs == strs(bc@),
            ps == path_components(path@),
            bs == path_components(base@),
            bc@.len() <= pc@.len(),
            i <= bc@.len(),
            forall|j: int| 0 <= j < i ==> ps[j] == bs[j],
        decreases bc.len() - i,
    {
        if !crate::strs::str_eq(pc[i].as_str(), bc[i].as_str()) {
            assert(ps.subrange(0, bs.len() as int)[i as int] != bs[i as int]);
            assert(ps.subrange(0, bs.len() as int) != bs);
            return false;
        }
        i = i + 1;
    }
    assert(ps.subrange(0, bs.len() as int) =~= bs);
    true
}

// ---------------------------------------------------------------------------
// Script path rules
// ---------------------------------------------------------------------------

/// A script path is refused outright when it is absolute or has a `..`
/// component.
pub open spec fn lexically_denied(p: Seq<char>) -> bool {
    starts_with_char(p, '/') || named_segments(p).contains(seq!['.', '.'])
}

/// Whether a script path is refused before any file is touched.
pub fn is_lexically_denied(path: &str) -> (b: bool)
    ensures
        b == lexically_denied(path@),
{
    if str_starts_with_char(path, '/') {
        return true;
    }
    let segs = split_segments(path);
    let mut i: usize = 0;
    while i < segs.len()
        invariant
            i <= segs@.len(),
            strs(segs@) == named_segments(path@),
            forall|j: int| 0 <= j < i ==> strs(segs@)[j] != seq!['.', '.'],
        decreases segs.len() - i,
    {
        let s = &segs[i];
        let n = s.unicode_len();
        if n == 2 && s.get_char(0) == '.' && s.get_char(1) == '.' {
            assert(s@ =~= seq!['.', '.']);
            assert(strs(segs@)[i as int] == segs@[i as int]@);
            assert(strs(segs@)[i as int] == seq!['.', '.']);
            assert(named_segments(path@).contains(seq!['.', '.']));
            return true;
        }
        assert(strs(segs@)[i as int] != seq!['.', '.']);
        i = i + 1;
    }
    false
}

/// Refuse an absolute script path or one with a `..` component.
pub fn check_script_path(path: &str) -> (r: Result<(), HostError>)
    ensures
        r is Ok <==> !lexically_denied(path@),
        r matches Err(e) ==> e@ == (HostErrorView::PathDenied { path: path@ }),
{
    if is_lexically_denied(path) {
        Err(HostError::PathDenied { path: String::from_str(path) })
    } else {
        Ok(())
    }
}

/// The candidate file for a script path: the workspace root joined with it,
/// with one `/` between them (`Path::join` with a relative path).
pub open spec fn spec_join(root: Seq<char>, rel: Seq<char>) -> Seq<char> {
    if root.len() == 0 {
        rel
    } else if root.last() == '/' {
        root + rel
    } else {
        root + seq!['/'] + rel
    }
}

/// Join a relative script path onto the workspace root.
pub fn join_path(root: &str, rel: &str) -> (r: String)
    requires
        !starts_with_char(rel@, '/'),
    ensures
        r@ == spec_join(root@, rel@),
{
    let v = chars_of(root);
    if v.len() == 0 {
        return String::from_str(rel);
    }
    let mut r = String::from_str(root);
    if v[v.len() - 1] != '/' {
        r.append("/");
        proof {
            reveal_strlit("/");
        }
    }
    r.append(rel);
    r
}

proof fn lemma_segments_concat(a: Seq<char>, b: Seq<char>, cur: Seq<char>)
    ensures
        segments_acc(a + seq!['/'] + b, cur) == segments_acc(a, cur) + segments_acc(b, Seq::empty()),
    decreases a.len(),
{
    let whole = a + seq!['/'] + b;
    if a.len() == 0 {
        assert(whole =~= seq!['/'] + b);
        assert(whole.drop_first() =~= b);
    } else {
        assert(whole[0] == a[0]);
        assert(whole.drop_first() =~= a.drop_first() + seq!['/'] + b);
        if a[0] == '/' {
            lemma_segments_concat(a.drop_first(), b, Seq::empty());
        } else {
            lemma_segments_concat(a.drop_first(), b, cur.push(a[0]));
        }
    }
}

/// A script path that passes the lexical check, joined onto the workspace
/// root, stays under the root: the root's components are a prefix of the
/// joined path's, and for a non-empty root the rest are the script path's
/// own named components, none of which is `..`.
pub proof fn law_join_stays_under_root(root: Seq<char>, rel: Seq<char>)
    requires
        !lexically_denied(rel),
    ensures
        root.len() > 0 ==> path_components(spec_join(root, rel)) == path_components(root)
            + named_segments(rel),
        spec_path_starts_with(spec_join(root, rel), root),
        !named_segments(rel).contains(seq!['.', '.']),
{
    let j = spec_join(root, rel);
    if root.len() == 0 {
        assert(named_segments(root) =~= Seq::<Seq<char>>::empty());
        assert(path_components(root) =~= Seq::<Seq<char>>::empty());
    } else {
        let r = if root.last() == '/' {
            root.drop_last()
        } else {
            root
        };
        assert(j =~= r + seq!['/'] + rel);
        lemma_segments_concat(r, rel, Seq::empty());
        if root.last() == '/' {
            assert(root =~= r + seq!['/'] + Seq::<char>::empty());
            lemma_segments_concat(r, Seq::empty(), Seq::empty());
            assert(segments_acc(Seq::<char>::empty(), Seq::empty()) =~= Seq::<Seq<char>>::empty());
            assert(named_segments(root) =~= segments_acc(r, Seq::empty()));
        }
        assert(named_segments(j) == named_segments(root) + named_segments(rel));
        assert(j[0] == root[0]);
        assert(root.len() >= 2 ==> j[1] == root[1]);
        assert(path_components(j) =~= path_components(root) + named_segments(rel));
    }
    let pc = path_components(j);
    let bc = path_components(root);
    assert(pc.subrange(0, bc.len() as int) =~= bc);
}

// ---------------------------------------------------------------------------
// Nearest existing ancestor
// ---------------------------------------------------------------------------

/// What `std::path::Path::parent` returns for a path: the path without its
/// final component, or nothing when the path ends in a root or is empty.
pub uninterp spec fn std_path_parent(p: Seq<char>) -> Option<Seq<char>>;

/// `std::path::Path::parent`, as plain text.  Its result is named
/// `std_path_parent`; the documentation gives that the empty path has no
/// parent and that a parent drops the final component, so it is shorter.
#[verifier::external_body]
fn path_parent(p: &str) -> (r: Option<String>)
    ensures
        match r {
            Some(q) => std_path_parent(p@) == Some(q@),
            None => std_path_parent(p@) is None,
        },
        p@.len() == 0 ==> r is None,
        r matches Some(q) ==> q@.len() < p@.len(),
{
    std::path::Path::new(p).parent().map(|q| q.to_string_lossy().into_owned())
}

/// The ancestor chosen from the answers of the disk for the chain of
/// ancestors of `p` (`p` itself first, then each parent in turn): the first
/// whose answer says it exists, else the last ancestor the answers reach
/// (the one without a parent, or the one whose answer is missing).
pub open spec fn spec_ancestor_from_answers(p: Seq<char>, answers: Seq<bool>) -> Seq<char>
    decreases answers.len(),
{
    if answers.len() == 0 || answers[0] {
        p
    } else {
        match std_path_parent(p) {
            Some(q) => spec_ancestor_from_answers(q, answers.drop_first()),
            None => p,
        }
    }
}

/// Choose the ancestor of `path` from the answers of the disk for its chain
/// of ancestors (see `spec_ancestor_from_answers`).
pub fn ancestor_from_answers(path: &str, answers: &Vec<bool>) -> (r: String)
    ensures
        r@ == spec_ancestor_from_answers(path@, answers@),
{
    let mut current = String::from_str(path);
    let mut i: usize = 0;
    assert(answers@.skip(0) =~= answers@);
    while i < answers.len()
        invariant
            i <= answers@.len(),
            spec_ancestor_from_answers(path@, answers@) == spec_ancestor_from_answers(
                current@,
                answers@.skip(i as int),
            ),
        decreases answers.len() - i,
    {
        assert(answers@.skip(i as int)[0] == answers@[i as int]);
        assert(answers@.skip(i as int).drop_first() =~= answers@.skip(i + 1));
        if answers[i] {
            return current;
        }
        match path_parent(current.as_str()) {
            Some(q) => {
                current = q;
            },
            None => {
                return current;
            },
        }
        i = i + 1;
    }
    assert(answers@.skip(i as int).len() == 0);
    current
}

/// The nearest ancestor of `path` (itself included) that exists on disk, or
/// the last ancestor when none does.  The disk is asked about each ancestor
/// in turn until one exists; `ancestor_from_answers` chooses from the
/// answers.  What the disk answers is not known here, so the result is
/// stated as that choice for some answers.
pub fn nearest_existing_ancestor(path: &str) -> (r: String)
    ensures
        exists|answers: Seq<bool>| r@ == #[trigger] spec_ancestor_from_answers(path@, answers),
{
    let mut answers: Vec<bool> = Vec::new();
    let mut current = String::from_str(path);
    loop
        decreases current@.len(),
    {
        let exists = path_exists(current.as_str());
        answers.push(exists);
        if exists {
            break;
        }
        match path_parent(current.as_str()) {
            Some(q) => {
                current = q;
            },
            None => {
                break;
            },
        }
    }
    let r = ancestor_from_answers(path, &answers);
    assert(r@ == spec_ancestor_from_answers(path@, answers@));
    r
}

// ---------------------------------------------------------------------------
// Decisions of the file functions
// ---------------------------------------------------------------------------

/// What the runner found on disk for a script path (all queries are
/// read-only).  Errors carry the message of the failed query.
#[derive(Debug)]
pub struct PathProbe {
    /// The canonical form of the nearest existing ancestor of the candidate's
    /// parent directory.
    pub canonical_parent: Result<String, String>,
    /// The canonical form of the workspace root.
    pub canonical_workspace: Result<String, String>,
    /// The candidate exists (following symlinks).
    pub exists: bool,
    /// The candidate itself is a symlink, dead or alive.
    pub is_symlink: bool,
    /// The canonical form of the candidate.
    pub canonical_candidate: Result<String, String>,
}

pub struct PathProbeView {
    pub canonical_parent: Result<Seq<char>, Seq<char>>,
    pub canonical_workspace: Result<Seq<char>, Seq<char>>,
    pub exists: bool,
    pub is_symlink: bool,
    pub canonical_candidate: Result<Seq<char>, Seq<char>>,
}

pub open spec fn result_view(r: Result<String, String>) -> Result<Seq<char>, Seq<char>> {
    match r {
        Ok(s) => Ok(s@),
        Err(m) => Err(m@),
    }
}

impl View for PathProbe {
    type V = PathProbeView;

    open spec fn view(&self) -> PathProbeView {
        PathProbeView {
            canonical_parent: result_view(self.canonical_parent),
            canonical_workspace: result_view(self.canonical_workspace),
            exists: self.exists,
            is_symlink: self.is_symlink,
            canonical_candidate: result_view(self.canonical_candidate),
        }
    }
}

/// The check shared by the file functions: the path passes the lexical
/// rule, and the existing part of its parent directory lies inside the
/// workspace.
pub open spec fn spec_validate_path(path: Seq<char>, p: PathProbeView) -> Result<(), HostErrorView> {
    if lexically_denied(path) {
        Err(HostErrorView::PathDenied { path })
    } else {
        match p.canonical_parent {
            Err(m) => Err(HostErrorView::IoError { path, msg: m }),
            Ok(parent) => match p.canonical_workspace {
                Err(m) => Err(HostErrorView::IoError { path, msg: m }),
                Ok(ws) => if spec_path_starts_with(parent, ws) {
                    Ok(())
                } else {
                    Err(HostErrorView::PathDenied { path })
                },
            },
        }
    }
}

/// The check of an existing file through which the function would follow
/// symlinks: its canonical form must lie inside the workspace.
pub open spec fn spec_check_resolved(path: Seq<char>, p: PathProbeView) -> Result<Seq<char>, HostErrorView> {
    match p.canonical_candidate {
        Err(_) => Err(HostErrorView::PathDenied { path }),
        Ok(c) => match p.canonical_workspace {
            Err(m) => Err(HostErrorView::IoError { path, msg: m }),
            Ok(ws) => if spec_path_starts_with(c, ws) {
                Ok(c)
            } else {
                Err(HostErrorView::PathDenied { path })
            },
        },
    }
}

/// `read_file`: the file must exist and resolve inside the workspace; the
/// result is the canonical path to read.
pub open spec fn spec_decide_read(path: Seq<char>, p: PathProbeView) -> Result<Seq<char>, HostErrorView> {
    match spec_validate_path(path, p) {
        Err(e) => Err(e),
        Ok(()) => if !p.exists {
            Err(HostErrorView::FileNotFound { path })
        } else {
            spec_check_resolved(path, p)
        },
    }
}

/// `write_file`: the candidate must be neither a symlink nor an existing file.
pub open spec fn spec_decide_write(path: Seq<char>, p: PathProbeView) -> Result<(), HostErrorView> {
    match spec_validate_path(path, p) {
        Err(e) => Err(e),
        Ok(()) => if p.is_symlink {
            Err(HostErrorView::PathDenied { path })
        } else if p.exists {
            Err(HostErrorView::FileAlreadyExists { path })
        } else {
            Ok(())
        },
    }
}

/// `append_file`: an existing file must resolve inside the workspace.
pub open spec fn spec_decide_append(path: Seq<char>, p: PathProbeView) -> Result<(), HostErrorView> {
    match spec_validate_path(path, p) {
        Err(e) => Err(e),
        Ok(()) => if p.exists {
            match spec_check_resolved(path, p) {
                Err(e) => Err(e),
                Ok(_) => Ok(()),
            }
        } else {
            Ok(())
        },
    }
}

/// `exists`: `false` for every path that the other functions would refuse,
/// and for a symlink that does not resolve inside the workspace.
pub open spec fn spec_decide_exists(path: Seq<char>, p: PathProbeView) -> bool {
    &&& !lexically_denied(path)
    &&& p.canonical_parent matches Ok(parent)
    &&& p.canonical_workspace matches Ok(ws)
    &&& spec_path_starts_with(parent, ws)
    &&& (p.is_symlink ==> (p.canonical_candidate matches Ok(c) && spec_path_starts_with(c, ws)))
    &&& p.exists
}

fn io_error(path: &str, msg: &String) -> (e: HostError)
    ensures
        e@ == (HostErrorView::IoError { path: path@, msg: msg@ }),
{
    HostError::IoError { path: String::from_str(path), msg: msg.clone() }
}

/// The check shared by the file functions.
pub fn validate_path(path: &str, probe: &PathProbe) -> (r: Result<(), HostError>)
    ensures
        match r {
            Ok(()) => spec_validate_path(path@, probe@) is Ok,
            Err(e) => spec_validate_path(path@, probe@) == Err::<(), HostErrorView>(e@),
        },
{
    check_script_path(path)?;
    match &probe.canonical_parent {
        Err(m) => Err(io_error(path, m)),
        Ok(parent) => match &probe.canonical_workspace {
            Err(m) => Err(io_error(path, m)),
            Ok(ws) => if path_starts_with(parent.as_str(), ws.as_str()) {
                Ok(())
            } else {
                Err(HostError::PathDenied { path: String::from_str(path) })
            },
        },
    }
}

fn check_resolved(path: &str, probe: &PathProbe) -> (r: Result<String, HostError>)
    ensures
        match r {
            Ok(c) => spec_check_resolved(path@, probe@) == Ok::<Seq<char>, HostErrorView>(c@),
            Err(e) => spec_check_resolved(path@, probe@) == Err::<Seq<char>, HostErrorView>(e@),
        },
{
    match &probe.canonical_candidate {
        Err(_) => Err(HostError::PathDenied { path: String::from_str(path) }),
        Ok(c) => match &probe.canonical_workspace {
            Err(m) => Err(io_error(path, m)),
            Ok(ws) => if path_starts_with(c.as_str(), ws.as_str()) {
                Ok(c.clone())
            } else {
                Err(HostError::PathDenied { path: String::from_str(path) })
            },
        },
    }
}

/// Decide a `read_file`: the canonical path to read, or the error.
pub fn decide_read(path: &str, probe: &PathProbe) -> (r: Result<String, HostError>)
    ensures
        match r {
            Ok(c) => spec_decide_read(path@, probe@) == Ok::<Seq<char>, HostErrorView>(c@),
            Err(e) => spec_decide_read(path@, probe@) == Err::<Seq<char>, HostErrorView>(e@),
        },
{
    validate_path(path, probe)?;
    if !probe.exists {
        return Err(HostError::FileNotFound { path: String::from_str(path) });
    }
    check_resolved(path, probe)
}

/// Decide a `write_file`: whether the new file may be created.
pub fn decide_write(path: &str, probe: &PathProbe) -> (r: Result<(), HostError>)
    ensures
        match r {
            Ok(()) => spec_decide_write(path@, probe@) is Ok,
            Err(e) => spec_decide_write(path@, probe@) == Err::<(), HostErrorView>(e@),
        },
{
    validate_path(path, probe)?;
    if probe.is_symlink {
        return Err(HostError::PathDenied { path: String::from_str(path) });
    }
    if probe.exists {
        return Err(HostError::FileAlreadyExists { path: String::from_str(path) });
    }
    Ok(())
}

/// Decide an `append_file`: whether the file may be appended to or created.
pub fn decide_append(path: &str, probe: &PathProbe) -> (r: Result<(), HostError>)
    ensures
        match r {
            Ok(()) => spec_decide_append(path@, probe@) is Ok,
            Err(e) => spec_decide_append(path@, probe@) == Err::<(), HostErrorView>(e@),
        },
{
    validate_path(path, probe)?;
    if probe.exists {
        check_resolved(path, probe)?;
    }
    Ok(())
}

/// Decide an `exists` query.
pub fn decide_exists(path: &str, probe: &PathProbe) -> (b: bool)
    ensures
        b == spec_decide_exists(path@, probe@),
{
    if is_lexically_denied(path) {
        return false;
    }
    let parent = match &probe.canonical_parent {
        Ok(p) => p,
        Err(_) => {
            return false;
        },
    };
    let ws = match &probe.canonical_workspace {
        Ok(w) => w,
        Err(_) => {
            return false;
        },
    };
    if !path_starts_with(parent.as_str(), ws.as_str()) {
        return false;
    }
    if probe.is_symlink {
        match &probe.canonical_candidate {
            Ok(c) => {
                if !path_starts_with(c.as_str(), ws.as_str()) {
                    return false;
                }
            },
            Err(_) => {
                return false;
            },
        }
    }
    probe.exists
}

/// `exists` answers `false`, not an error, for every path that the file
/// functions refuse in their shared check, and `true` only for a file that
/// exists.
pub proof fn law_exists_false_when_path_refused(path: Seq<char>, p: PathProbeView)
    ensures
        spec_validate_path(path, p) is Err ==> !spec_decide_exists(path, p),
        spec_decide_exists(path, p) ==> p.exists && spec_validate_path(path, p) is Ok,
{
}

/// What a file function accepts stays in the workspace: the script path is
/// relative and free of `..`; the existing part of its parent directory
/// resolves inside the workspace; a file read, or appended to when it
/// exists, resolves inside the workspace; and a file is created only where
/// nothing (not even a dead symlink) stands.
pub proof fn law_accepted_paths_stay_in_workspace(path: Seq<char>, p: PathProbeView)
    ensures
        spec_validate_path(path, p) is Ok ==> {
            &&& !lexically_denied(path)
            &&& p.canonical_parent matches Ok(parent)
            &&& p.canonical_workspace matches Ok(ws)
            &&& spec_path_starts_with(parent, ws)
        },
        spec_decide_read(path, p) matches Ok(c) ==> {
            &&& spec_validate_path(path, p) is Ok
            &&& p.exists
            &&& p.canonical_workspace matches Ok(ws)
            &&& spec_path_starts_with(c, ws)
        },
        spec_decide_write(path, p) is Ok ==> spec_validate_path(path, p) is Ok && !p.exists
            && !p.is_symlink,
        spec_decide_append(path, p) is Ok ==> {
            &&& spec_validate_path(path, p) is Ok
            &&& p.exists ==> (p.canonical_candidate matches Ok(c) && p.canonical_workspace matches Ok(
                ws,
            ) && spec_path_starts_with(c, ws))
        },
{
}

/// What the file functions accept once the shared path check passes: an
/// existing file that resolves inside the workspace is read (at its
/// canonical path) and appended to; a path where nothing stands, not even a
/// dead symlink, is created by `write_file` and by `append_file`; and an
/// existing file is never overwritten by `write_file`.
pub proof fn law_file_functions_accept_inside_workspace(
    path: Seq<char>,
    p: PathProbeView,
    c: Seq<char>,
    ws: Seq<char>,
)
    ensures
        spec_validate_path(path, p) is Ok && p.exists && p.canonical_candidate == Ok::<
            Seq<char>,
            Seq<char>,
        >(c) && p.canonical_workspace == Ok::<Seq<char>, Seq<char>>(ws) && spec_path_starts_with(
            c,
            ws,
        ) ==> {
            &&& spec_decide_append(path, p) is Ok
            &&& spec_decide_read(path, p) == Ok::<Seq<char>, HostErrorView>(c)
        },
        spec_validate_path(path, p) is Ok && !p.exists && !p.is_symlink ==> {
            &&& spec_decide_write(path, p) is Ok
            &&& spec_decide_append(path, p) is Ok
            &&& spec_decide_read(path, p) == Err::<Seq<char>, HostErrorView>(
                HostErrorView::FileNotFound { path },
            )
        },
        spec_validate_path(path, p) is Ok && p.exists && !p.is_symlink ==> spec_decide_write(
            path,
            p,
        ) == Err::<(), HostErrorView>(HostErrorView::FileAlreadyExists { path }),
        spec_validate_path(path, p) matches Err(e) ==> {
            &&& spec_decide_read(path, p) == Err::<Seq<char>, HostErrorView>(e)
            &&& spec_decide_write(path, p) == Err::<(), HostErrorView>(e)
            &&& spec_decide_append(path, p) == Err::<(), HostErrorView>(e)
        },
{
}

// ---------------------------------------------------------------------------
// Lines
// ---------------------------------------------------------------------------

/// A line without its terminating `\r`, if it has one.
pub open spec fn strip_cr(line: Seq<char>) -> Seq<char> {
    if line.len() > 0 && line.last() == '\r' {
        line.drop_last()
    } else {
        line
    }
}

/// The lines of `s` after the line in progress `cur`, as `str::lines` gives
/// them: lines end at `\n` or `\r\n`, and a last line without an ending is
/// kept as is unless it is empty.
pub open spec fn lines_acc(s: Seq<char>, cur: Seq<char>) -> Seq<Seq<char>>
    decreases s.len(),
{
    if s.len() == 0 {
        if cur.len() == 0 {
            Seq::empty()
        } else {
            seq![cur]
        }
    } else if s[0] == '\n' {
        seq![strip_cr(cur)] + lines_acc(s.drop_first(), Seq::empty())
    } else {
        lines_acc(s.drop_first(), cur.push(s[0]))
    }
}

pub open spec fn spec_lines(s: Seq<char>) -> Seq<Seq<char>> {
    lines_acc(s, Seq::empty())
}

proof fn lemma_trailing_newline(s: Seq<char>, cur: Seq<char>)
    requires
        (s.len() > 0 && s.last() != '\n' && s.last() != '\r') || (s.len() == 0 && cur.len() > 0
            && cur.last() != '\r'),
    ensures
        lines_acc(s + seq!['\n'], cur) == lines_acc(s, cur),
    decreases s.len(),
{
    let t = s + seq!['\n'];
    if s.len() == 0 {
        assert(t =~= seq!['\n']);
        assert(t.drop_first() =~= Seq::<char>::empty());
        assert(strip_cr(cur) == cur);
        assert(lines_acc(t, cur) == seq![strip_cr(cur)] + lines_acc(t.drop_first(), Seq::empty()));
        assert(seq![cur] + Seq::<Seq<char>>::empty() =~= seq![cur]);
    } else {
        assert(t[0] == s[0]);
        assert(t.drop_first() =~= s.drop_first() + seq!['\n']);
        if s.len() > 1 {
            assert(s.drop_first().last() == s.last());
        }
        if s[0] == '\n' {
            lemma_trailing_newline(s.drop_first(), Seq::empty());
        } else {
            lemma_trailing_newline(s.drop_first(), cur.push(s[0]));
        }
    }
}

/// A line ending after the last line adds no empty line: text that ends in
/// neither `\n` nor `\r` has the same lines with a `\n` appended.
pub proof fn law_trailing_newline_adds_no_line(s: Seq<char>)
    requires
        s.len() > 0,
        s.last() != '\n',
        s.last() != '\r',
    ensures
        spec_lines(s + seq!['\n']) == spec_lines(s),
{
    lemma_trailing_newline(s, Seq::empty());
}

fn string_of(cur: &Vec<char>, lo: usize, hi: usize) -> (r: String)
    requires
        lo <= hi <= cur@.len(),
    ensures
        r@ == cur@.subrange(lo as int, hi as int),
{
    let mut r = String::new();
    let mut i: usize = lo;
    while i < hi
        invariant
            lo <= i <= hi,
            hi <= cur@.len(),
            r@ == cur@.subrange(lo as int, i as int),
        decreases hi - i,
    {
        string_push(&mut r, cur[i]);
        assert(r@ =~= cur@.subrange(lo as int, i + 1));
        i = i + 1;
    }
    r
}

/// The lines of `content` without their line endings (`str::lines`).
pub fn split_lines(content: &str) -> (r: Vec<String>)
    ensures
        strs(r@) == spec_lines(content@),
{
    let v = chars_of(content);
    let mut out: Vec<String> = Vec::new();
    let mut cur: Vec<char> = Vec::new();
    let mut i: usize = 0;
    assert(content@.skip(0) =~= content@);
    while i < v.len()
        invariant
            v@ == content@,
            i <= v@.len(),
            strs(out@) + lines_acc(content@.skip(i as int), cur@) == spec_lines(content@),
        decreases v.len() - i,
    {
        assert(content@.skip(i as int).drop_first() =~= content@.skip(i + 1));
        assert(content@.skip(i as int)[0] == v@[i as int]);
        if v[i] == '\n' {
            let n = cur.len();
            let line = if n > 0 && cur[n - 1] == '\r' {
                assert(cur@.subrange(0, n - 1) =~= cur@.drop_last());
                string_of(&cur, 0, n - 1)
            } else {
                assert(cur@.subrange(0, n as int) =~= cur@);
                string_of(&cur, 0, n)
            };
            let ghost before = strs(out@);
            out.push(line);
            assert(strs(out@) =~= before + seq![strip_cr(cur@)]);
            assert(strs(out@) + lines_acc(content@.skip(i + 1), Seq::empty()) =~= before + (seq![
                strip_cr(cur@),
            ] + lines_acc(content@.skip(i + 1), Seq::empty())));
            cur = Vec::new();
        } else {
            cur.push(v[i]);
        }
        i = i + 1;
    }
    assert(content@.skip(v.len() as int) =~= Seq::<char>::empty());
    let n = cur.len();
    if n > 0 {
        assert(cur@.subrange(0, n as int) =~= cur@);
        let line = string_of(&cur, 0, n);
        let ghost before = strs(out@);
        out.push(line);
        assert(strs(out@) =~= before + seq![cur@]);
    } else {
        assert(strs(out@) + Seq::<Seq<char>>::empty() =~= strs(out@));
    }
    out
}

} // verus!
