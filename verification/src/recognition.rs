//! The recognition driver.
//!
//! It owns one engine instance, applies it to each reported execution
//! record, and turns the three possible outcomes into either a usable
//! compiler-call meaning or nothing. No outcome is ever escalated: a
//! classification failure degrades to "this call contributes nothing".

use vstd::prelude::*;
use crate::execution::{ExecutionRecord, wf_execution};
use crate::interpreters::{engine_outcome, Engine};
use crate::semantic::{Interpreter, Meaning, MeaningView, OutcomeView};

verus! {

/// What the driver hands on for a given engine outcome: a meaning only for
/// a successful recognition that is not `Ignored`; nothing for `Ignored`,
/// for a recognition error, and for an unrecognized execution.
pub open spec fn apply_outcome(o: OutcomeView) -> Option<MeaningView> {
    match o {
        OutcomeView::Success(m) => match m {
            MeaningView::Ignored => None,
            _ => Some(m),
        },
        OutcomeView::Error(_) => None,
        OutcomeView::Unknown => None,
    }
}

/// `apply` never hands on a meaning for `Success(Ignored)`, for
/// `Error(_)`, or for `Unknown`; when it hands one on, the outcome was
/// `Success` of a `Compiler` meaning, returned unchanged.
pub proof fn lemma_apply_only_compiler_calls(o: OutcomeView)
    ensures
        (o is Error || o is Unknown || o == OutcomeView::Success(MeaningView::Ignored))
            ==> apply_outcome(o) is None,
        apply_outcome(o) matches Some(m) ==> o == OutcomeView::Success(m) && m is Compiler,
{
}

/// Responsible for recognizing the semantic meaning of executed commands.
/// The recognition logic itself lives in the interpreters; this driver
/// only maps outcomes and swallows failures.
pub struct Recognition {
    interpreter: Engine,
}

impl Recognition {
    /// The configured explicit-inclusion set.
    pub closed spec fn includes(&self) -> Seq<Seq<char>> {
        self.interpreter.includes()
    }

    /// The configured exclusion set.
    pub closed spec fn excludes(&self) -> Seq<Seq<char>> {
        self.interpreter.excludes()
    }

    /// Build the driver from the two configured path sets: executables
    /// that must be treated as compiler calls even without a built-in
    /// rule, and paths that must classify as ignored even when otherwise
    /// recognized.
    pub fn new(compilers_to_recognize: Vec<String>, compilers_to_exclude: Vec<String>) -> (r:
        Recognition)
        ensures
            r.includes() == compilers_to_recognize@.map_values(|s: String| s@),
            r.excludes() == compilers_to_exclude@.map_values(|s: String| s@),
    {
        Recognition { interpreter: Engine::new(compilers_to_recognize, compilers_to_exclude) }
    }

    /// Classify one execution record and keep only usable compiler calls.
    pub fn apply(&self, execution: ExecutionRecord) -> (r: Option<Meaning>)
        requires
            wf_execution(execution@),
        ensures
            (match r {
                Some(m) => Some(m@),
                None => None,
            }) == apply_outcome(engine_outcome(self.includes(), self.excludes(), execution@)),
    {
        match self.interpreter.recognize(&execution) {
            crate::semantic::Recognition::Success(Meaning::Ignored) => None,
            crate::semantic::Recognition::Success(meaning) => Some(meaning),
            crate::semantic::Recognition::Error(_) => None,
            crate::semantic::Recognition::Unknown => None,
        }
    }
}

} // verus!
