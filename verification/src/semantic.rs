//! Classification outcomes: what an observed invocation means.
//!
//! A `Meaning` is either a decomposed compiler call or a recognized tool
//! that is deliberately left out of the compilation database. A
//! `CompilerPass` is one unit of compiler work. `Recognition` is the
//! three-way outcome of one classification attempt, and `Interpreter` is
//! the shared capability "attempt to classify one execution record".

use vstd::prelude::*;
use crate::execution::{ExecutionRecord, ExecutionView, wf_execution};

verus! {

/// Mathematical view of a `CompilerPass`.
pub enum PassView {
    Preprocess,
    Compile { source: Seq<char>, output: Option<Seq<char>>, flags: Seq<Seq<char>> },
}

/// One unit of compiler work extracted from an invocation: either a
/// preprocessing-only step, or one source-to-output compile step with the
/// pass-relevant flags.
#[derive(Debug)]
pub enum CompilerPass {
    Preprocess,
    Compile { source: String, output: Option<String>, flags: Vec<String> },
}

impl View for CompilerPass {
    type V = PassView;

    open spec fn view(&self) -> PassView {
        match self {
            CompilerPass::Preprocess => PassView::Preprocess,
            CompilerPass::Compile { source, output, flags } => PassView::Compile {
                source: source@,
                output: match output {
                    Some(o) => Some(o@),
                    None => None,
                },
                flags: flags@.map_values(|s: String| s@),
            },
        }
    }
}

/// Mathematical view of a `Meaning`.
pub enum MeaningView {
    Compiler { compiler: Seq<char>, working_dir: Seq<char>, passes: Seq<PassView> },
    Ignored,
}

/// The semantic of a recognized execution: a compiler call with its ordered
/// passes, or a tool that is recognized but deliberately ignored.
#[derive(Debug)]
pub enum Meaning {
    Compiler { compiler: String, working_dir: String, passes: Vec<CompilerPass> },
    Ignored,
}

impl View for Meaning {
    type V = MeaningView;

    open spec fn view(&self) -> MeaningView {
        match self {
            Meaning::Compiler { compiler, working_dir, passes } => MeaningView::Compiler {
                compiler: compiler@,
                working_dir: working_dir@,
                passes: passes@.map_values(|p: CompilerPass| p@),
            },
            Meaning::Ignored => MeaningView::Ignored,
        }
    }
}

/// Mathematical view of a `Recognition<Meaning>`.
pub enum OutcomeView {
    Success(MeaningView),
    Error(Seq<char>),
    Unknown,
}

/// The outcome of one classification attempt: a recognized semantic, a
/// recognized-but-failed decomposition with a reason, or no recognition at
/// all.
#[derive(Debug)]
pub enum Recognition<T> {
    Success(T),
    Error(String),
    Unknown,
}

impl View for Recognition<Meaning> {
    type V = OutcomeView;

    open spec fn view(&self) -> OutcomeView {
        match self {
            Recognition::Success(m) => OutcomeView::Success(m@),
            Recognition::Error(reason) => OutcomeView::Error(reason@),
            Recognition::Unknown => OutcomeView::Unknown,
        }
    }
}

/// A tool (or a composite set of tools) whose semantic the engine is aware
/// of. A single interpreter may recognize an execution and identify its
/// semantic; its whole behaviour is pinned by `spec_recognize`.
pub trait Interpreter {
    /// What this interpreter returns for a given execution.
    spec fn spec_recognize(&self, e: ExecutionView) -> OutcomeView;

    /// Classify one execution record.
    fn recognize(&self, execution: &ExecutionRecord) -> (r: Recognition<Meaning>)
        requires
            wf_execution(execution@),
        ensures
            r@ == self.spec_recognize(execution@),
    ;
}

} // verus!
