//! The built-in interpreters and their composition into one engine.
//!
//! The engine is assembled once per build run from two configured path
//! sets. It applies, in a fixed priority order: the exclusion filter, the
//! built-in family interpreters, and the explicit-inclusion matcher; the
//! first interpreter that does not answer `Unknown` wins.

use vstd::prelude::*;
use vstd::string::*;
use crate::execution::{ExecutionRecord, ExecutionView};
use crate::semantic::{CompilerPass, Interpreter, Meaning, MeaningView, OutcomeView, PassView, Recognition};
use crate::strings::{contains_string, ends_with, file_name, file_name_opt, has_prefix, has_suffix, starts_with, str_eq};

verus! {

// ------------------------------------------------------------------
// The cc family of compiler drivers.
// ------------------------------------------------------------------

/// File names under which a cc-family compiler driver is known.
pub open spec fn is_cc_family_name(n: Seq<char>) -> bool {
    n == "cc"@ || n == "gcc"@ || n == "clang"@ || n == "c++"@ || n == "g++"@ || n == "clang++"@
        || n == "cc1"@
}

/// Does the path name a cc-family driver? A path without a file-name
/// component names none.
pub open spec fn names_cc_family(p: Seq<char>) -> bool {
    match file_name_opt(p) {
        Some(n) => is_cc_family_name(n),
        None => false,
    }
}

/// The cc-family rule applies when the executable's file name, or the file
/// name under which the process was invoked (argument 0), is a known
/// cc-family driver name. The invoked name matters because a stand-in
/// reports the resolved executable path while argument 0 keeps the name
/// the build called.
pub open spec fn cc_family_matches(e: ExecutionView) -> bool {
    names_cc_family(e.executable) || (e.arguments.len() >= 1
        && names_cc_family(e.arguments[0]))
}

/// An argument naming a source file, by its suffix.
pub open spec fn is_source_name(a: Seq<char>) -> bool {
    has_suffix(a, ".c"@) || has_suffix(a, ".cc"@) || has_suffix(a, ".cpp"@) || has_suffix(
        a,
        ".cxx"@,
    )
}

/// A pass-relevant flag that is kept on a compile pass: preprocessor
/// defines and undefines, include directories, and the language-standard
/// selection. Everything else (linker inputs, warnings, unknown switches)
/// contributes nothing to a compilation database entry and is dropped.
pub open spec fn is_kept_flag(a: Seq<char>) -> bool {
    has_prefix(a, "-D"@) || has_prefix(a, "-I"@) || has_prefix(a, "-U"@) || has_prefix(
        a,
        "-std="@,
    )
}

/// State of the left-to-right scan of a cc-family argument list.
/// `expect_output` is set while the argument following `-o` is pending;
/// that argument is consumed as the output path and not scanned further.
pub struct CcScan {
    pub sources: Seq<Seq<char>>,
    pub flags: Seq<Seq<char>>,
    pub output: Option<Seq<char>>,
    pub expect_output: bool,
    pub preprocess: bool,
}

pub open spec fn cc_scan_init() -> CcScan {
    CcScan {
        sources: Seq::empty(),
        flags: Seq::empty(),
        output: None,
        expect_output: false,
        preprocess: false,
    }
}

/// How one argument changes the scan state. A later `-o` overrides an
/// earlier one.
pub open spec fn cc_scan_step(st: CcScan, a: Seq<char>) -> CcScan {
    if st.expect_output {
        CcScan {
            sources: st.sources,
            flags: st.flags,
            output: Some(a),
            expect_output: false,
            preprocess: st.preprocess,
        }
    } else if a == "-o"@ {
        CcScan {
            sources: st.sources,
            flags: st.flags,
            output: st.output,
            expect_output: true,
            preprocess: st.preprocess,
        }
    } else if a == "-E"@ {
        CcScan {
            sources: st.sources,
            flags: st.flags,
            output: st.output,
            expect_output: st.expect_output,
            preprocess: true,
        }
    } else if a == "-c"@ {
        st
    } else if is_kept_flag(a) {
        CcScan {
            sources: st.sources,
            flags: st.flags.push(a),
            output: st.output,
            expect_output: st.expect_output,
            preprocess: st.preprocess,
        }
    } else if is_source_name(a) {
        CcScan {
            sources: st.sources.push(a),
            flags: st.flags,
            output: st.output,
            expect_output: st.expect_output,
            preprocess: st.preprocess,
        }
    } else {
        st
    }
}

/// The scan state after processing arguments `i..` starting from `st`.
pub open spec fn cc_scan_from(args: Seq<Seq<char>>, i: int, st: CcScan) -> CcScan
    decreases args.len() - i,
{
    if i < 0 || i >= args.len() {
        st
    } else {
        cc_scan_from(args, i + 1, cc_scan_step(st, args[i]))
    }
}

/// The scan of a whole argument list. Argument 0 is the program name and
/// is not scanned.
pub open spec fn cc_scan(args: Seq<Seq<char>>) -> CcScan {
    cc_scan_from(args, 1, cc_scan_init())
}

/// The compile passes of a finished scan: one per source, in argument
/// order, each carrying the kept flags. An output path is attached only
/// when the invocation has exactly one source; with several sources a
/// single `-o` value is ambiguous and left off.
pub open spec fn cc_passes(sc: CcScan) -> Seq<PassView> {
    sc.sources.map_values(
        |s: Seq<char>|
            PassView::Compile {
                source: s,
                output: if sc.sources.len() == 1 {
                    sc.output
                } else {
                    None
                },
                flags: sc.flags,
            },
    )
}

/// The full outcome of the cc-family rule on one execution. A `-E`
/// invocation is preprocessing only; a matching invocation without any
/// recognizable source is a recognition error, not a guess.
pub open spec fn cc_outcome(e: ExecutionView) -> OutcomeView {
    if !cc_family_matches(e) {
        OutcomeView::Unknown
    } else {
        let sc = cc_scan(e.arguments);
        if sc.preprocess {
            OutcomeView::Success(
                MeaningView::Compiler {
                    compiler: e.executable,
                    working_dir: e.working_dir,
                    passes: seq![PassView::Preprocess],
                },
            )
        } else if sc.sources.len() == 0 {
            OutcomeView::Error("no source files recognized"@)
        } else {
            OutcomeView::Success(
                MeaningView::Compiler {
                    compiler: e.executable,
                    working_dir: e.working_dir,
                    passes: cc_passes(sc),
                },
            )
        }
    }
}

/// View of an optional string.
pub open spec fn opt_view(o: Option<String>) -> Option<Seq<char>> {
    match o {
        Some(s) => Some(s@),
        None => None,
    }
}

/// Is `n` a known cc-family driver file name?
fn is_cc_name(n: &str) -> (r: bool)
    ensures
        r == is_cc_family_name(n@),
{
    str_eq(n, "cc") || str_eq(n, "gcc") || str_eq(n, "clang") || str_eq(n, "c++") || str_eq(
        n,
        "g++",
    ) || str_eq(n, "clang++") || str_eq(n, "cc1")
}

fn is_source_arg(a: &str) -> (r: bool)
    ensures
        r == is_source_name(a@),
{
    ends_with(a, ".c") || ends_with(a, ".cc") || ends_with(a, ".cpp") || ends_with(a, ".cxx")
}

fn is_kept_flag_arg(a: &str) -> (r: bool)
    ensures
        r == is_kept_flag(a@),
{
    starts_with(a, "-D") || starts_with(a, "-I") || starts_with(a, "-U") || starts_with(a, "-std=")
}

/// A copy of `v` (element views unchanged).
fn clone_strings(v: &Vec<String>) -> (r: Vec<String>)
    ensures
        r@.map_values(|s: String| s@) == v@.map_values(|s: String| s@),
{
    let n = v.len();
    let mut r: Vec<String> = Vec::new();
    let mut i: usize = 0;
    while i < n
        invariant
            n == v@.len(),
            i <= n,
            r@.map_values(|s: String| s@) =~= v@.map_values(|s: String| s@).take(i as int),
        decreases n - i,
    {
        let ghost prev = r@;
        r.push(v[i].clone());
        proof {
            prev.lemma_push_map_commute(|s: String| s@, v@[i as int]);
            assert(r@.map_values(|s: String| s@) =~= v@.map_values(|s: String| s@).take(
                i + 1,
            ));
        }
        i += 1;
    }
    proof {
        assert(v@.map_values(|s: String| s@).take(n as int) =~= v@.map_values(|s: String| s@));
    }
    r
}

/// The interpreter for the cc family of compiler drivers.
pub struct CcFamily {}

impl CcFamily {
    pub fn new() -> (r: CcFamily) {
        CcFamily {}
    }
}

impl Interpreter for CcFamily {
    open spec fn spec_recognize(&self, e: ExecutionView) -> OutcomeView {
        cc_outcome(e)
    }

    fn recognize(&self, execution: &ExecutionRecord) -> (r: Recognition<Meaning>) {
        let ghost e = execution@;
        let exe_matches = match file_name(execution.executable.as_str()) {
            Some(n) => is_cc_name(n.as_str()),
            None => false,
        };
        let arg0_matches = match file_name(execution.arguments[0].as_str()) {
            Some(n) => is_cc_name(n.as_str()),
            None => false,
        };
        let matches_family = exe_matches || arg0_matches;
        proof {
            assert(e.arguments[0] == execution.arguments@.map_values(|s: String| s@)[0]);
            assert(matches_family == cc_family_matches(e));
        }
        if !matches_family {
            return Recognition::Unknown;
        }
        // Scan the arguments after the program name, mirroring
        // `cc_scan_step` branch for branch.
        let n = execution.arguments.len();
        let mut sources: Vec<String> = Vec::new();
        let mut flags: Vec<String> = Vec::new();
        let mut output: Option<String> = None;
        let mut expect_output = false;
        let mut preprocess = false;
        let mut i: usize = 1;
        proof {
            assert(sources@.map_values(|s: String| s@) =~= Seq::<Seq<char>>::empty());
            assert(flags@.map_values(|s: String| s@) =~= Seq::<Seq<char>>::empty());
            assert(CcScan {
                sources: sources@.map_values(|s: String| s@),
                flags: flags@.map_values(|s: String| s@),
                output: opt_view(output),
                expect_output: expect_output,
                preprocess: preprocess,
            } == cc_scan_init());
        }
        while i < n
            invariant
                n == execution.arguments@.len(),
                1 <= i <= n,
                e == execution@,
                cc_scan_from(
                    e.arguments,
                    i as int,
                    CcScan {
                        sources: sources@.map_values(|s: String| s@),
                        flags: flags@.map_values(|s: String| s@),
                        output: opt_view(output),
                        expect_output: expect_output,
                        preprocess: preprocess,
                    },
                ) == cc_scan(e.arguments),
            decreases n - i,
        {
            let ghost st = CcScan {
                sources: sources@.map_values(|s: String| s@),
                flags: flags@.map_values(|s: String| s@),
                output: opt_view(output),
                expect_output: expect_output,
                preprocess: preprocess,
            };
            let a = &execution.arguments[i];
            proof {
                assert(a@ == e.arguments[i as int]);
            }
            if expect_output {
                output = Some(a.clone());
                expect_output = false;
            } else if str_eq(a.as_str(), "-o") {
                expect_output = true;
            } else if str_eq(a.as_str(), "-E") {
                preprocess = true;
            } else if str_eq(a.as_str(), "-c") {
                // compile-only marker: no pass-relevant content
            } else if is_kept_flag_arg(a.as_str()) {
                flags.push(a.clone());
                proof {
                    assert(flags@.map_values(|s: String| s@) =~= st.flags.push(
                        e.arguments[i as int],
                    ));
                }
            } else if is_source_arg(a.as_str()) {
                sources.push(a.clone());
                proof {
                    assert(sources@.map_values(|s: String| s@) =~= st.sources.push(
                        e.arguments[i as int],
                    ));
                }
            }
            proof {
                let st2 = CcScan {
                    sources: sources@.map_values(|s: String| s@),
                    flags: flags@.map_values(|s: String| s@),
                    output: opt_view(output),
                    expect_output: expect_output,
                    preprocess: preprocess,
                };
                assert(st2 == cc_scan_step(st, e.arguments[i as int]));
            }
            i += 1;
        }
        let ghost sc = cc_scan(e.arguments);
        proof {
            assert(sc == CcScan {
                sources: sources@.map_values(|s: String| s@),
                flags: flags@.map_values(|s: String| s@),
                output: opt_view(output),
                expect_output: expect_output,
                preprocess: preprocess,
            });
        }
        if preprocess {
            let mut passes: Vec<CompilerPass> = Vec::new();
            passes.push(CompilerPass::Preprocess);
            let r = Recognition::Success(
                Meaning::Compiler {
                    compiler: execution.executable.clone(),
                    working_dir: execution.working_dir.clone(),
                    passes,
                },
            );
            proof {
                assert(seq![CompilerPass::Preprocess].map_values(|p: CompilerPass| p@)
                    =~= seq![PassView::Preprocess]);
            }
            return r;
        }
        if sources.len() == 0 {
            return Recognition::Error(String::from_str("no source files recognized"));
        }
        let single = sources.len() == 1;
        let mut passes: Vec<CompilerPass> = Vec::new();
        let m = sources.len();
        let mut k: usize = 0;
        while k < m
            invariant
                m == sources@.len(),
                k <= m,
                sc == cc_scan(e.arguments),
                sc.sources == sources@.map_values(|s: String| s@),
                sc.flags == flags@.map_values(|s: String| s@),
                sc.output == opt_view(output),
                single == (m == 1),
                passes@.map_values(|p: CompilerPass| p@) =~= cc_passes(sc).take(k as int),
            decreases m - k,
        {
            let out: Option<String> = if single {
                match &output {
                    Some(o) => Some(o.clone()),
                    None => None,
                }
            } else {
                None
            };
            let pass = CompilerPass::Compile {
                source: sources[k].clone(),
                output: out,
                flags: clone_strings(&flags),
            };
            proof {
                assert(pass@ == cc_passes(sc)[k as int]);
            }
            let ghost prev = passes@;
            passes.push(pass);
            proof {
                prev.lemma_push_map_commute(|p: CompilerPass| p@, passes@[k as int]);
                assert(passes@.map_values(|p: CompilerPass| p@) =~= cc_passes(sc).take(
                    k + 1,
                ));
            }
            k += 1;
        }
        proof {
            assert(cc_passes(sc).take(m as int) =~= cc_passes(sc));
        }
        Recognition::Success(
            Meaning::Compiler {
                compiler: execution.executable.clone(),
                working_dir: execution.working_dir.clone(),
                passes,
            },
        )
    }
}

// ------------------------------------------------------------------
// The composite engine.
// ------------------------------------------------------------------

/// The first source-looking argument at or after index `i`, or the empty
/// sequence when there is none.
pub open spec fn first_source_from(args: Seq<Seq<char>>, i: int) -> Seq<char>
    decreases args.len() - i,
{
    if i < 0 || i >= args.len() {
        Seq::empty()
    } else if is_source_name(args[i]) {
        args[i]
    } else {
        first_source_from(args, i + 1)
    }
}

/// The generic meaning synthesized for an explicitly included compiler
/// whose flag grammar is unknown: one compile pass, the source found
/// best-effort (first source-looking argument, else empty), no output, and
/// every argument after the program name kept as a flag.
pub open spec fn wildcard_meaning(e: ExecutionView) -> MeaningView {
    MeaningView::Compiler {
        compiler: e.executable,
        working_dir: e.working_dir,
        passes: seq![
            PassView::Compile {
                source: first_source_from(e.arguments, 1),
                output: None,
                flags: e.arguments.skip(1),
            }
        ],
    }
}

/// What the whole engine returns: the exclusion filter first, then the
/// built-in family rules, then the explicit-inclusion matcher, else
/// `Unknown`.
pub open spec fn engine_outcome(
    includes: Seq<Seq<char>>,
    excludes: Seq<Seq<char>>,
    e: ExecutionView,
) -> OutcomeView {
    if excludes.contains(e.executable) {
        OutcomeView::Success(MeaningView::Ignored)
    } else if !(cc_outcome(e) is Unknown) {
        cc_outcome(e)
    } else if includes.contains(e.executable) {
        OutcomeView::Success(wildcard_meaning(e))
    } else {
        OutcomeView::Unknown
    }
}

/// Any execution whose executable is a member of the exclusion set
/// classifies as `Success(Ignored)`, whatever its arguments: the exclusion
/// filter short-circuits every other rule.
pub proof fn lemma_excluded_is_ignored(
    includes: Seq<Seq<char>>,
    excludes: Seq<Seq<char>>,
    e: ExecutionView,
)
    requires
        excludes.contains(e.executable),
    ensures
        engine_outcome(includes, excludes, e) == OutcomeView::Success(MeaningView::Ignored),
{
}

/// An execution that matches no exclusion, no built-in rule and no
/// explicit inclusion classifies as `Unknown`.
pub proof fn lemma_unmatched_is_unknown(
    includes: Seq<Seq<char>>,
    excludes: Seq<Seq<char>>,
    e: ExecutionView,
)
    requires
        !excludes.contains(e.executable),
        cc_outcome(e) is Unknown,
        !includes.contains(e.executable),
    ensures
        engine_outcome(includes, excludes, e) is Unknown,
{
}

/// The recognition engine: the two configured path sets, frozen at
/// construction, and the fixed ordered set of built-in interpreters. It
/// holds no mutable state, so one engine may serve any number of callers.
pub struct Engine {
    to_recognize: Vec<String>,
    to_exclude: Vec<String>,
    cc: CcFamily,
}

impl Engine {
    /// The configured explicit-inclusion set.
    pub closed spec fn includes(&self) -> Seq<Seq<char>> {
        self.to_recognize@.map_values(|s: String| s@)
    }

    /// The configured exclusion set.
    pub closed spec fn excludes(&self) -> Seq<Seq<char>> {
        self.to_exclude@.map_values(|s: String| s@)
    }

    /// Build an engine from the two configured path sets. The vectors are
    /// moved in and never change afterwards.
    pub fn new(compilers_to_recognize: Vec<String>, compilers_to_exclude: Vec<String>) -> (r:
        Engine)
        ensures
            r.includes() == compilers_to_recognize@.map_values(|s: String| s@),
            r.excludes() == compilers_to_exclude@.map_values(|s: String| s@),
    {
        Engine {
            to_recognize: compilers_to_recognize,
            to_exclude: compilers_to_exclude,
            cc: CcFamily::new(),
        }
    }
}

impl Interpreter for Engine {
    open spec fn spec_recognize(&self, e: ExecutionView) -> OutcomeView {
        engine_outcome(self.includes(), self.excludes(), e)
    }

    fn recognize(&self, execution: &ExecutionRecord) -> (r: Recognition<Meaning>) {
        let ghost e = execution@;
        if contains_string(&self.to_exclude, &execution.executable) {
            return Recognition::Success(Meaning::Ignored);
        }
        let from_cc = self.cc.recognize(execution);
        match from_cc {
            Recognition::Unknown => {},
            other => {
                return other;
            },
        }
        if !contains_string(&self.to_recognize, &execution.executable) {
            return Recognition::Unknown;
        }
        // Synthesize the generic single-pass meaning.
        let n = execution.arguments.len();
        let mut source = String::new();
        let mut found = false;
        let mut i: usize = 1;
        while i < n
            invariant
                n == execution.arguments@.len(),
                1 <= i <= n,
                e == execution@,
                !found ==> source@ == Seq::<char>::empty() && first_source_from(e.arguments, 1)
                    == first_source_from(e.arguments, i as int),
                found ==> source@ == first_source_from(e.arguments, 1),
            decreases n - i,
        {
            if !found {
                let a = &execution.arguments[i];
                proof {
                    assert(a@ == e.arguments[i as int]);
                }
                if is_source_arg(a.as_str()) {
                    source = a.clone();
                    found = true;
                }
            }
            i += 1;
        }
        proof {
            if !found {
                assert(first_source_from(e.arguments, n as int) == Seq::<char>::empty());
            }
        }
        let mut flags: Vec<String> = Vec::new();
        let mut j: usize = 1;
        while j < n
            invariant
                n == execution.arguments@.len(),
                1 <= j <= n,
                e == execution@,
                flags@.map_values(|s: String| s@) =~= e.arguments.subrange(1, j as int),
            decreases n - j,
        {
            let ghost prev = flags@;
            flags.push(execution.arguments[j].clone());
            proof {
                prev.lemma_push_map_commute(|s: String| s@, execution.arguments@[j as int]);
                assert(flags@.map_values(|s: String| s@) =~= e.arguments.subrange(
                    1,
                    j + 1,
                ));
            }
            j += 1;
        }
        let pass = CompilerPass::Compile { source, output: None, flags };
        let mut passes: Vec<CompilerPass> = Vec::new();
        passes.push(pass);
        let r = Recognition::Success(
            Meaning::Compiler {
                compiler: execution.executable.clone(),
                working_dir: execution.working_dir.clone(),
                passes,
            },
        );
        proof {
            assert(e.arguments.subrange(1, n as int) =~= e.arguments.skip(1));
            assert(passes@.map_values(|p: CompilerPass| p@) =~= wildcard_meaning(e)->Compiler_passes);
            assert(r@ == OutcomeView::Success(wildcard_meaning(e)));
        }
        r
    }
}

} // verus!
