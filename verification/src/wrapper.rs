//! The decision logic of the stand-in process.
//!
//! A stand-in transparently replaces a real tool: it determines the name
//! it was invoked under, resolves the real executable on the search path
//! while never selecting itself, reports the observed invocation
//! best-effort, then runs the real tool and relays its exit code. The
//! functions here take explicit inputs (argument vectors, environment
//! snapshots, file-system facts probed by the caller) so the whole
//! protocol is decided by verified code; the unverified front end only
//! performs the probes, the network send and the process spawn.

use vstd::prelude::*;
use vstd::string::*;
use crate::interpreters::opt_view;
use crate::strings::{file_name, file_name_opt, str_eq};

verus! {

/// A fatal startup failure: the stand-in cannot even tell what it stands
/// in for.
#[derive(Debug, PartialEq, Eq, Structural, Clone, Copy)]
pub enum StartupError {
    /// No first argument was available.
    MissingArguments,
    /// The first argument has no file-name component.
    NoFileName,
}

impl StartupError {
    pub fn message(&self) -> (r: String)
        ensures
            self is MissingArguments ==> r@ == "cannot get first argument"@,
            self is NoFileName ==> r@ == "cannot get the file name from the argument"@,
    {
        match self {
            StartupError::MissingArguments => String::from_str("cannot get first argument"),
            StartupError::NoFileName => String::from_str(
                "cannot get the file name from the argument",
            ),
        }
    }
}

/// A fatal resolution failure: no directory of the search path holds a
/// usable real executable.
#[derive(Debug, PartialEq, Eq, Structural, Clone, Copy)]
pub enum ResolutionError {
    NotFound,
}

impl ResolutionError {
    pub fn message(&self) -> (r: String)
        ensures
            r@ == "cannot find the real executable"@,
    {
        String::from_str("cannot find the real executable")
    }
}

/// A non-fatal transport failure; the caller logs it and goes on.
#[derive(Debug, PartialEq, Eq, Structural, Clone, Copy)]
pub enum TransportError {
    /// The collector address could not be resolved.
    AddressUnresolvable,
    /// The connection could not be opened.
    ConnectionFailed,
    /// The payload could not be written.
    SendFailed,
}

impl TransportError {
    pub fn message(&self) -> (r: String)
        ensures
            self is AddressUnresolvable ==> r@ == "cannot resolve the collector address"@,
            self is ConnectionFailed ==> r@ == "cannot connect to the collector"@,
            self is SendFailed ==> r@ == "sending the event failed"@,
    {
        match self {
            TransportError::AddressUnresolvable => String::from_str(
                "cannot resolve the collector address",
            ),
            TransportError::ConnectionFailed => String::from_str("cannot connect to the collector"),
            TransportError::SendFailed => String::from_str("sending the event failed"),
        }
    }
}

/// Determine the invoked name from the argument vector: the file-name
/// component of argument 0. Fails when there is no argument at all, or
/// when the path has no file-name component (empty, `/`, or ending in a
/// dot component); either is fatal, since the stand-in then cannot know
/// what it stands in for.
pub fn invoked_name(arguments: &Vec<String>) -> (r: Result<String, StartupError>)
    ensures
        match r {
            Ok(name) => arguments@.len() >= 1 && file_name_opt(arguments@[0]@) == Some(name@),
            Err(e) => (e is MissingArguments && arguments@.len() == 0) || (e is NoFileName
                && arguments@.len() >= 1 && file_name_opt(arguments@[0]@) is None),
        },
{
    if arguments.len() == 0 {
        return Err(StartupError::MissingArguments);
    }
    match file_name(arguments[0].as_str()) {
        Some(name) => Ok(name),
        None => Err(StartupError::NoFileName),
    }
}

/// Helper for `split_colon`: the segments of `s[i..]`, with `cur` the
/// segment collected so far and `acc` the segments already complete.
pub open spec fn split_acc(s: Seq<char>, i: int, cur: Seq<char>, acc: Seq<Seq<char>>) -> Seq<
    Seq<char>,
>
    decreases s.len() - i,
{
    if i < 0 || i >= s.len() {
        acc.push(cur)
    } else if s[i] == ':' {
        split_acc(s, i + 1, Seq::empty(), acc.push(cur))
    } else {
        split_acc(s, i + 1, cur.push(s[i]), acc)
    }
}

/// The segments of `s` split on `:`. The empty string yields one empty
/// segment, as the search-path convention has it.
pub open spec fn split_colon(s: Seq<char>) -> Seq<Seq<char>> {
    split_acc(s, 0, Seq::empty(), Seq::empty())
}

/// Split a search-path string on the path separator, in listed order.
pub fn split_search_path(s: &str) -> (r: Vec<String>)
    ensures
        r@.map_values(|t: String| t@) == split_colon(s@),
{
    let n = s.unicode_len();
    let mut acc: Vec<String> = Vec::new();
    let mut seg_start: usize = 0;
    let mut i: usize = 0;
    proof {
        assert(s@.subrange(0, 0) =~= Seq::<char>::empty());
        assert(acc@.map_values(|t: String| t@) =~= Seq::<Seq<char>>::empty());
    }
    while i < n
        invariant
            n == s@.len(),
            seg_start <= i <= n,
            split_acc(
                s@,
                i as int,
                s@.subrange(seg_start as int, i as int),
                acc@.map_values(|t: String| t@),
            ) == split_colon(s@),
        decreases n - i,
    {
        let c = s.get_char(i);
        if c == ':' {
            let seg = s.substring_char(seg_start, i).to_owned();
            let ghost prev = acc@;
            acc.push(seg);
            proof {
                prev.lemma_push_map_commute(|t: String| t@, acc@[prev.len() as int]);
                assert(acc@.map_values(|t: String| t@) =~= prev.map_values(|t: String| t@).push(
                    s@.subrange(seg_start as int, i as int),
                ));
                assert(s@.subrange(i + 1, i + 1) =~= Seq::<char>::empty());
            }
            seg_start = i + 1;
        } else {
            proof {
                assert(s@.subrange(seg_start as int, i + 1) =~= s@.subrange(
                    seg_start as int,
                    i as int,
                ).push(s@[i as int]));
            }
        }
        i += 1;
    }
    let last = s.substring_char(seg_start, n).to_owned();
    let ghost prev = acc@;
    acc.push(last);
    proof {
        prev.lemma_push_map_commute(|t: String| t@, acc@[prev.len() as int]);
        assert(acc@.map_values(|t: String| t@) =~= prev.map_values(|t: String| t@).push(
            s@.subrange(seg_start as int, n as int),
        ));
    }
    acc
}

/// A directory joined with a file name. An empty search-path entry
/// stands for the current directory, so it yields the bare name.
pub open spec fn join_name(dir: Seq<char>, name: Seq<char>) -> Seq<char> {
    if dir.len() == 0 {
        name
    } else {
        dir + "/"@ + name
    }
}

/// The candidate paths for an invoked name: every directory of the search
/// path, in listed order, joined with the name.
pub fn candidate_paths(search_path: &str, name: &str) -> (r: Vec<String>)
    ensures
        r@.map_values(|t: String| t@) == split_colon(search_path@).map_values(
            |d: Seq<char>| join_name(d, name@),
        ),
{
    let dirs = split_search_path(search_path);
    let ghost dirsv = dirs@.map_values(|t: String| t@);
    let n = dirs.len();
    let mut r: Vec<String> = Vec::new();
    let mut i: usize = 0;
    while i < n
        invariant
            n == dirs@.len(),
            i <= n,
            dirsv == dirs@.map_values(|t: String| t@),
            dirsv == split_colon(search_path@),
            r@.map_values(|t: String| t@) =~= dirsv.map_values(
                |d: Seq<char>| join_name(d, name@),
            ).take(i as int),
        decreases n - i,
    {
        let joined = if dirs[i].as_str().unicode_len() == 0 {
            String::from_str(name)
        } else {
            dirs[i].clone().concat("/").concat(name)
        };
        proof {
            assert(joined@ =~= join_name(dirsv[i as int], name@));
        }
        let ghost prev = r@;
        r.push(joined);
        proof {
            prev.lemma_push_map_commute(|t: String| t@, r@[prev.len() as int]);
            assert(r@.map_values(|t: String| t@) =~= dirsv.map_values(
                |d: Seq<char>| join_name(d, name@),
            ).take(i + 1));
        }
        i += 1;
    }
    proof {
        assert(dirsv.map_values(|d: Seq<char>| join_name(d, name@)).take(n as int)
            =~= dirsv.map_values(|d: Seq<char>| join_name(d, name@)));
    }
    r
}

/// Mathematical view of a `Candidate`.
pub struct CandidateView {
    pub path: Seq<char>,
    pub is_file: bool,
    pub canonical: Option<Seq<char>>,
}

/// One candidate for the real executable: its path, whether that path is
/// a regular file, and its canonicalized (symlink-resolved, absolute)
/// form, `None` when canonicalization failed. The file-system facts are
/// probed by the caller; the decision is made here.
#[derive(Debug)]
pub struct Candidate {
    pub path: String,
    pub is_file: bool,
    pub canonical: Option<String>,
}

impl View for Candidate {
    type V = CandidateView;

    open spec fn view(&self) -> CandidateView {
        CandidateView {
            path: self.path@,
            is_file: self.is_file,
            canonical: opt_view(self.canonical),
        }
    }
}

/// A candidate is selectable when it is a regular file whose canonical
/// form is known and differs from the stand-in's own canonical path.
/// Whether the file is actually executable is deliberately not checked:
/// existence as a regular file is the accepted limitation.
pub open spec fn candidate_qualifies(c: CandidateView, self_canonical: Seq<char>) -> bool {
    c.is_file && match c.canonical {
        Some(rp) => rp != self_canonical,
        None => false,
    }
}

/// The path of the first selectable candidate at or after index `i`.
pub open spec fn selected_from(
    cands: Seq<CandidateView>,
    i: int,
    self_canonical: Seq<char>,
) -> Option<Seq<char>>
    decreases cands.len() - i,
{
    if i < 0 || i >= cands.len() {
        None
    } else if candidate_qualifies(cands[i], self_canonical) {
        Some(cands[i].path)
    } else {
        selected_from(cands, i + 1, self_canonical)
    }
}

/// The path of the first selectable candidate, in listed order.
pub open spec fn selected(cands: Seq<CandidateView>, self_canonical: Seq<char>) -> Option<
    Seq<char>,
> {
    selected_from(cands, 0, self_canonical)
}

proof fn lemma_selected_from_qualifies(
    cands: Seq<CandidateView>,
    i: int,
    self_canonical: Seq<char>,
)
    requires
        0 <= i,
    ensures
        selected_from(cands, i, self_canonical) matches Some(p) ==> exists|j: int|
            i <= j < cands.len() && cands[j].path == p && candidate_qualifies(
                cands[j],
                self_canonical,
            ),
    decreases cands.len() - i,
{
    if i < cands.len() {
        if candidate_qualifies(cands[i], self_canonical) {
            assert(selected_from(cands, i, self_canonical) == Some(cands[i].path));
            assert(i <= i < cands.len() && cands[i].path == cands[i].path
                && candidate_qualifies(cands[i], self_canonical));
        } else {
            lemma_selected_from_qualifies(cands, i + 1, self_canonical);
        }
    }
}

/// Resolution never selects a candidate whose canonical form equals the
/// stand-in's own canonical path: whatever it returns is a regular file
/// whose known canonical form differs from the stand-in's, even when the
/// stand-in's directory comes earlier in the search path.
pub proof fn lemma_no_self_invocation(cands: Seq<CandidateView>, self_canonical: Seq<char>)
    ensures
        selected(cands, self_canonical) matches Some(p) ==> exists|j: int|
            0 <= j < cands.len() && cands[j].path == p && cands[j].is_file
                && (cands[j].canonical matches Some(rp) && rp != self_canonical),
{
    lemma_selected_from_qualifies(cands, 0, self_canonical);
}

/// Select the real executable among the candidates, in listed order.
/// Returns the first candidate that is a regular file and does not
/// canonicalize to the stand-in itself; fails when none remains.
pub fn resolve_real_executable(candidates: &Vec<Candidate>, self_canonical: &str) -> (r: Result<
    String,
    ResolutionError,
>)
    ensures
        match r {
            Ok(p) => selected(candidates@.map_values(|c: Candidate| c@), self_canonical@)
                == Some(p@),
            Err(e) => selected(candidates@.map_values(|c: Candidate| c@), self_canonical@)
                is None && e is NotFound,
        },
{
    let ghost cv = candidates@.map_values(|c: Candidate| c@);
    let n = candidates.len();
    let mut i: usize = 0;
    while i < n
        invariant
            n == candidates@.len(),
            i <= n,
            cv == candidates@.map_values(|c: Candidate| c@),
            selected_from(cv, i as int, self_canonical@) == selected(cv, self_canonical@),
        decreases n - i,
    {
        let c = &candidates[i];
        proof {
            assert(c@ == cv[i as int]);
        }
        let qualifies = c.is_file && match &c.canonical {
            Some(rp) => !str_eq(rp.as_str(), self_canonical),
            None => false,
        };
        if qualifies {
            return Ok(c.path.clone());
        }
        i += 1;
    }
    Err(ResolutionError::NotFound)
}

/// The arguments forwarded to the real tool: everything after the
/// stand-in's own invoked-name slot.
pub fn forwarded_arguments(arguments: &Vec<String>) -> (r: Vec<String>)
    requires
        arguments@.len() >= 1,
    ensures
        r@.map_values(|s: String| s@) == arguments@.map_values(|s: String| s@).skip(1),
{
    let ghost av = arguments@.map_values(|s: String| s@);
    let n = arguments.len();
    let mut r: Vec<String> = Vec::new();
    let mut i: usize = 1;
    while i < n
        invariant
            n == arguments@.len(),
            1 <= i <= n,
            av == arguments@.map_values(|s: String| s@),
            r@.map_values(|s: String| s@) =~= av.subrange(1, i as int),
        decreases n - i,
    {
        let ghost prev = r@;
        r.push(arguments[i].clone());
        proof {
            prev.lemma_push_map_commute(|s: String| s@, r@[prev.len() as int]);
            assert(r@.map_values(|s: String| s@) =~= av.subrange(1, i + 1));
        }
        i += 1;
    }
    proof {
        assert(av.subrange(1, n as int) =~= av.skip(1));
    }
    r
}

/// How the report step ended. Reporting is best-effort: none of these
/// outcomes may change what happens next.
#[derive(Debug, PartialEq, Eq, Structural, Clone, Copy)]
pub enum ReportOutcome {
    /// The event reached the collector.
    Delivered,
    /// The collector address variable is not set; reporting was skipped.
    AddressUnset,
    /// The transport failed.
    Failed(TransportError),
}

/// What the stand-in does after the report step, whatever its outcome:
/// run the resolved real executable with the forwarded arguments.
pub open spec fn plan_after_report(
    real_executable: Seq<char>,
    arguments: Seq<Seq<char>>,
    outcome: ReportOutcome,
) -> (Seq<char>, Seq<Seq<char>>) {
    match outcome {
        ReportOutcome::Delivered => (real_executable, arguments.skip(1)),
        ReportOutcome::AddressUnset => (real_executable, arguments.skip(1)),
        ReportOutcome::Failed(_) => (real_executable, arguments.skip(1)),
    }
}

/// Reporting failure is isolated: the execution phase that follows the
/// report step is the same for every report outcome. The wrapped tool
/// always runs, with the same program and the same arguments.
pub proof fn lemma_reporting_isolated(
    real_executable: Seq<char>,
    arguments: Seq<Seq<char>>,
    o1: ReportOutcome,
    o2: ReportOutcome,
)
    ensures
        plan_after_report(real_executable, arguments, o1) == plan_after_report(
            real_executable,
            arguments,
            o2,
        ),
{
}

/// Decide the execution phase after the report step. The outcome is taken
/// only to be logged by the caller; the contract shows it has no effect
/// on what runs.
pub fn next_action_after_report(
    real_executable: &String,
    arguments: &Vec<String>,
    outcome: &ReportOutcome,
) -> (r: (String, Vec<String>))
    requires
        arguments@.len() >= 1,
    ensures
        (r.0@, r.1@.map_values(|s: String| s@)) == plan_after_report(
            real_executable@,
            arguments@.map_values(|s: String| s@),
            *outcome,
        ),
{
    (real_executable.clone(), forwarded_arguments(arguments))
}

/// The exit code the stand-in relays: the child's own code, or 1 when the
/// child terminated without one (for example, killed by a signal).
pub fn exit_code_for(child_code: Option<i32>) -> (r: i32)
    ensures
        r == (match child_code {
            Some(c) => c,
            None => 1,
        }),
{
    match child_code {
        Some(c) => c,
        None => 1,
    }
}

} // verus!
