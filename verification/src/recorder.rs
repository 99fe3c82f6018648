//! Recording of logs.

use crate::command::Command;
use crate::ids::{Timestamp, Uuid};
use crate::json::{json_clone, json_string, json_string_of};
use crate::rows::{copy_text, DeploymentState, Level, Log, State};
use crate::tables::TablesView;
use vstd::prelude::*;

verus! {

/// What the log of a change of state holds.
pub const STATE_MESSAGE: &'static str = "NEW STATE";

/// What a recorded log tells of.
#[derive(Clone, Copy, Debug, PartialEq, Eq, Structural)]
pub enum LogType {
    /// Something happened in a deployment.
    Event,
    /// A deployment went into another state.
    State,
}

/// A log as it reaches the recorder.
#[derive(Debug, PartialEq)]
pub struct RecordedLog {
    /// Identifier of the deployment.
    pub id: Uuid,
    pub timestamp: Timestamp,
    pub state: State,
    pub level: Level,
    pub file: Option<String>,
    pub line: Option<u32>,
    pub target: String,
    pub fields: serde_json::Value,
    pub log_type: LogType,
}

/// A step of recording a log.
pub struct RecordStep {
    pub command: Command,
    /// What is reported where the database refuses the command.
    pub failure: &'static str,
}

/// What is reported of a failure. The recorder goes on after it.
#[derive(Debug, PartialEq)]
pub struct Report<E> {
    pub error: E,
    pub message: &'static str,
}

/// What is reported of an attempt, under `message`: its error, if it failed.
pub fn report<R, E>(attempt: Result<R, E>, message: &'static str) -> (report: Option<Report<E>>)
    ensures
        match attempt {
            Ok(_) => report is None,
            Err(error) => report == Some(Report { error, message }),
        },
{
    match attempt {
        Ok(_) => None,
        Err(error) => Some(Report { error, message }),
    }
}

/// What the recorder does next with a log.
pub enum RecordAction {
    /// The command of a step is carried out.
    Execute(RecordStep),
    /// The log is sent to those who listen.
    Broadcast,
    /// Nothing: the log is recorded.
    Done,
}

impl Clone for RecordedLog {
    fn clone(&self) -> (log: Self)
        ensures
            log == *self,
    {
        RecordedLog {
            id: self.id,
            timestamp: self.timestamp,
            state: self.state,
            level: self.level,
            file: copy_text(&self.file),
            line: self.line,
            target: self.target.clone(),
            fields: json_clone(&self.fields),
            log_type: self.log_type,
        }
    }
}

impl RecordedLog {
    /// The log that is stored of an event: the log itself.
    pub open spec fn as_log(self) -> Log {
        Log {
            id: self.id,
            timestamp: self.timestamp,
            state: self.state,
            level: self.level,
            file: self.file,
            line: self.line,
            target: self.target,
            fields: self.fields,
        }
    }

    /// Whether `log` is what is stored of a change of state: without a target, and with the
    /// message for all changes of state in place of the fields.
    pub open spec fn has_state_log(self, log: Log) -> bool {
        &&& log.id == self.id
        &&& log.timestamp == self.timestamp
        &&& log.state == self.state
        &&& log.level == self.level
        &&& log.file == self.file
        &&& log.line == self.line
        &&& log.target@ == Seq::<char>::empty()
        &&& log.fields == json_string_of(STATE_MESSAGE@)
    }

    /// The change of state that the log tells of.
    pub open spec fn as_deployment_state(self) -> DeploymentState {
        DeploymentState { id: self.id, state: self.state, last_update: self.timestamp }
    }

    /// Whether recording the log can take the tables from `before` to `after`.
    pub open spec fn records(self, before: TablesView, after: TablesView) -> bool {
        match self.log_type {
            LogType::Event => after == (Command::InsertLog { log: self.as_log() }).applied(before),
            LogType::State => exists|log: Log|
                #![trigger self.has_state_log(log)]
                self.has_state_log(log) && after == (Command::UpdateDeployment {
                    state: self.as_deployment_state(),
                }).applied((Command::InsertLog { log }).applied(before)),
        }
    }

    /// How many steps it takes to store the log.
    pub open spec fn step_count(self) -> int {
        match self.log_type {
            LogType::Event => 1,
            LogType::State => 2,
        }
    }

    /// Whether `step` is the one that is taken after `taken` others.
    pub open spec fn is_step(self, taken: int, step: RecordStep) -> bool {
        match self.log_type {
            LogType::Event => {
                &&& taken == 0
                &&& step.command == (Command::InsertLog { log: self.as_log() })
                &&& step.failure@ == "failed to insert event log"@
            },
            LogType::State => {
                ||| {
                    &&& taken == 0
                    &&& step.command matches Command::InsertLog { log }
                    &&& self.has_state_log(log)
                    &&& step.failure@ == "failed to insert state log"@
                }
                ||| {
                    &&& taken == 1
                    &&& step.command == (Command::UpdateDeployment {
                        state: self.as_deployment_state(),
                    })
                    &&& step.failure@ == "failed to update deployment state"@
                }
            },
        }
    }

    /// Whether `action` is what the recorder does after `taken` others: first the steps, each in
    /// its turn, and once they were all taken the broadcast.
    pub open spec fn is_action(self, taken: int, action: RecordAction) -> bool {
        match action {
            RecordAction::Execute(step) => taken < self.step_count() && self.is_step(taken, step),
            RecordAction::Broadcast => taken == self.step_count(),
            RecordAction::Done => taken > self.step_count(),
        }
    }

    pub fn to_log(&self) -> (log: Log)
        ensures
            log == self.as_log(),
            log.id == self.id,
            log.timestamp == self.timestamp,
            log.state == self.state,
            log.level == self.level,
            log.file == self.file,
            log.line == self.line,
            log.target == self.target,
            log.fields == self.fields,
    {
        Log {
            id: self.id,
            timestamp: self.timestamp,
            state: self.state,
            level: self.level,
            file: copy_text(&self.file),
            line: self.line,
            target: self.target.clone(),
            fields: json_clone(&self.fields),
        }
    }

    /// The log that is stored of a change of state, with `message` as its fields.
    pub fn to_state_log_with(&self, message: serde_json::Value) -> (log: Log)
        ensures
            log.id == self.id,
            log.timestamp == self.timestamp,
            log.state == self.state,
            log.level == self.level,
            log.file == self.file,
            log.line == self.line,
            log.target@ == Seq::<char>::empty(),
            log.fields == message,
    {
        Log {
            id: self.id,
            timestamp: self.timestamp,
            state: self.state,
            level: self.level,
            file: copy_text(&self.file),
            line: self.line,
            target: String::new(),
            fields: message,
        }
    }

    pub fn to_state_log(&self) -> (log: Log)
        ensures
            self.has_state_log(log),
            log.id == self.id,
            log.timestamp == self.timestamp,
            log.state == self.state,
            log.level == self.level,
            log.file == self.file,
            log.line == self.line,
            log.target@.len() == 0,
            log.fields == json_string_of("NEW STATE"@),
    {
        self.to_state_log_with(json_string(STATE_MESSAGE))
    }

    pub fn to_deployment_state(&self) -> (state: DeploymentState)
        ensures
            state == self.as_deployment_state(),
            state.id == self.id,
            state.state == self.state,
            state.last_update == self.timestamp,
    {
        DeploymentState { id: self.id, state: self.state, last_update: self.timestamp }
    }

    /// The steps of storing the log.
    pub fn steps(&self) -> (steps: Vec<RecordStep>)
        ensures
            steps@.len() == self.step_count(),
            forall|i: int| 0 <= i < steps@.len() ==> #[trigger] self.is_step(i, steps@[i]),
    {
        let mut steps: Vec<RecordStep> = Vec::new();
        match self.log_type {
            LogType::Event => {
                steps.push(
                    RecordStep {
                        command: Command::InsertLog { log: self.to_log() },
                        failure: "failed to insert event log",
                    },
                );
            },
            LogType::State => {
                steps.push(
                    RecordStep {
                        command: Command::InsertLog { log: self.to_state_log() },
                        failure: "failed to insert state log",
                    },
                );
                steps.push(
                    RecordStep {
                        command: Command::UpdateDeployment { state: self.to_deployment_state() },
                        failure: "failed to update deployment state",
                    },
                );
            },
        }
        steps
    }
}

/// What is broadcast of a recorded log, given how many listen: the log itself, if anyone does.
pub fn to_broadcast(log: RecordedLog, receiver_count: usize) -> (result: Option<RecordedLog>)
    ensures
        result == if receiver_count > 0 {
            Some(log)
        } else {
            None
        },
{
    if receiver_count > 0 {
        Some(log)
    } else {
        None
    }
}

/// What the recorder does with a log after `taken` other actions. What came of those is of no
/// matter.
pub fn next_action(log: &RecordedLog, taken: usize) -> (next: RecordAction)
    ensures
        log.is_action(taken as int, next),
{
    let mut steps = log.steps();
    if taken < steps.len() {
        assert(log.is_step(taken as int, steps@[taken as int]));
        RecordAction::Execute(steps.swap_remove(taken))
    } else if taken == steps.len() {
        RecordAction::Broadcast
    } else {
        RecordAction::Done
    }
}

/// The recording of a log, as far as it went.
pub struct Recording {
    pub log: RecordedLog,
    /// How many actions were taken.
    pub taken: usize,
}

impl Recording {
    /// The recording after one more action, if there was one left.
    pub open spec fn advanced(self) -> Recording {
        if self.taken <= self.log.step_count() {
            Recording { log: self.log, taken: (self.taken + 1) as usize }
        } else {
            self
        }
    }

    /// What is reported where the next action fails.
    pub open spec fn failure(self) -> Seq<char> {
        if self.taken == self.log.step_count() {
            "failed to broadcast log"@
        } else {
            match self.log.log_type {
                LogType::Event => "failed to insert event log"@,
                LogType::State => if self.taken == 0 {
                    "failed to insert state log"@
                } else {
                    "failed to update deployment state"@
                },
            }
        }
    }

    /// A recording that has not begun.
    pub fn start(log: RecordedLog) -> (recording: Recording)
        ensures
            recording == (Recording { log, taken: 0 }),
    {
        Recording { log, taken: 0 }
    }

    /// What the recorder does next.
    pub fn next(&self) -> (action: RecordAction)
        ensures
            self.log.is_action(self.taken as int, action),
    {
        next_action(&self.log, self.taken)
    }

    /// What follows the outcome of the action that was next: the recording goes on with the
    /// action after it, whether or not it succeeded, and a failure is reported.
    pub fn after<R, E>(self, outcome: Result<R, E>) -> (result: (Recording, Option<Report<E>>))
        ensures
            result.0 == self.advanced(),
            match outcome {
                Err(error) if self.taken <= self.log.step_count() => result.1 matches Some(report)
                    && report.error == error && report.message@ == self.failure(),
                _ => result.1 is None,
            },
    {
        let message = match self.next() {
            RecordAction::Execute(step) => step.failure,
            RecordAction::Broadcast => "failed to broadcast log",
            RecordAction::Done => {
                return (self, None);
            },
        };
        (Recording { log: self.log, taken: self.taken + 1 }, report(outcome, message))
    }
}

} // verus!
