//! The data model of one observed process invocation.
//!
//! An `ExecutionRecord` describes a single intercepted execution: the
//! resolved program path, the full original argument vector, the working
//! directory at interception time, and a snapshot of the process
//! environment. It is immutable once constructed. An `Event` tags a record
//! with the id of the reporting process; it exists only as the wire payload
//! sent to the collector.

use vstd::prelude::*;

verus! {

/// Mathematical view of an `ExecutionRecord`: every field as a sequence of
/// characters or of pairs of such sequences.
pub struct ExecutionView {
    pub executable: Seq<char>,
    pub arguments: Seq<Seq<char>>,
    pub working_dir: Seq<char>,
    pub environment: Seq<(Seq<char>, Seq<char>)>,
}

/// One observed process invocation. `arguments` keeps the vector exactly as
/// the process received it, with the invoked name in slot 0.
#[derive(Debug)]
pub struct ExecutionRecord {
    pub executable: String,
    pub arguments: Vec<String>,
    pub working_dir: String,
    pub environment: Vec<(String, String)>,
}

impl View for ExecutionRecord {
    type V = ExecutionView;

    open spec fn view(&self) -> ExecutionView {
        ExecutionView {
            executable: self.executable@,
            arguments: self.arguments@.map_values(|s: String| s@),
            working_dir: self.working_dir@,
            environment: self.environment@.map_values(|p: (String, String)| (p.0@, p.1@)),
        }
    }
}

/// Environment keys are unique: no variable name occurs twice.
pub open spec fn env_keys_unique(env: Seq<(Seq<char>, Seq<char>)>) -> bool {
    forall|i: int, j: int| 0 <= i < j < env.len() ==> env[i].0 != env[j].0
}

/// Well-formedness of an execution record: the argument vector is never
/// empty and environment keys are unique. Constructors establish it; the
/// record is never mutated afterwards.
pub open spec fn wf_execution(e: ExecutionView) -> bool {
    e.arguments.len() >= 1 && env_keys_unique(e.environment)
}

impl ExecutionRecord {
    /// Build a record from its four parts. Returns `None` exactly when the
    /// argument vector is empty or two environment entries share a name:
    /// such a value would not be valid for reporting.
    pub fn new(
        executable: String,
        arguments: Vec<String>,
        working_dir: String,
        environment: Vec<(String, String)>,
    ) -> (r: Option<ExecutionRecord>)
        ensures
            match r {
                Some(rec) => rec@ == (ExecutionView {
                    executable: executable@,
                    arguments: arguments@.map_values(|s: String| s@),
                    working_dir: working_dir@,
                    environment: environment@.map_values(|p: (String, String)| (p.0@, p.1@)),
                }) && wf_execution(rec@),
                None => arguments@.len() == 0 || !env_keys_unique(
                    environment@.map_values(|p: (String, String)| (p.0@, p.1@)),
                ),
            },
    {
        if arguments.len() == 0 {
            return None;
        }
        if !env_has_unique_keys(&environment) {
            return None;
        }
        Some(ExecutionRecord { executable, arguments, working_dir, environment })
    }
}

/// Are all variable names in `env` distinct?
fn env_has_unique_keys(env: &Vec<(String, String)>) -> (r: bool)
    ensures
        r == env_keys_unique(env@.map_values(|p: (String, String)| (p.0@, p.1@))),
{
    let ghost venv = env@.map_values(|p: (String, String)| (p.0@, p.1@));
    let n = env.len();
    let mut i: usize = 0;
    while i < n
        invariant
            n == env@.len(),
            venv == env@.map_values(|p: (String, String)| (p.0@, p.1@)),
            i <= n,
            forall|a: int, b: int| 0 <= a < b < venv.len() && a < i ==> venv[a].0 != venv[b].0,
        decreases n - i,
    {
        let mut j: usize = i + 1;
        while j < n
            invariant
                n == env@.len(),
                venv == env@.map_values(|p: (String, String)| (p.0@, p.1@)),
                i < n,
                i < j <= n,
                forall|b: int| i < b < j ==> venv[i as int].0 != venv[b].0,
            decreases n - j,
        {
            if env[i].0 == env[j].0 {
                assert(venv[i as int].0 == venv[j as int].0);
                return false;
            }
            j += 1;
        }
        i += 1;
    }
    true
}

/// Mathematical view of an `Event`.
pub struct EventView {
    pub process_id: u32,
    pub execution: ExecutionView,
}

/// The wire payload from one stand-in process to the collector: the
/// reporting process's id together with the observed execution.
#[derive(Debug)]
pub struct Event {
    pub process_id: u32,
    pub execution: ExecutionRecord,
}

impl View for Event {
    type V = EventView;

    open spec fn view(&self) -> EventView {
        EventView { process_id: self.process_id, execution: self.execution@ }
    }
}

impl Event {
    pub fn new(process_id: u32, execution: ExecutionRecord) -> (r: Event)
        ensures
            r@.process_id == process_id,
            r@.execution == execution@,
    {
        Event { process_id, execution }
    }
}

} // verus!
