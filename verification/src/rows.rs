//! The rows of the tables, and the records that are made from them.

use crate::ids::{Timestamp, Ulid, Uuid};
use crate::json::json_clone;
use vstd::prelude::*;

verus! {

/// A row that can be copied out of its table.
pub trait Row: Sized {
    fn copy(&self) -> (row: Self)
        ensures
            row == *self,
    ;
}

/// A copy of an optional text.
pub fn copy_text(text: &Option<String>) -> (copy: Option<String>)
    ensures
        copy == *text,
{
    match text {
        Some(text) => Some(text.clone()),
        None => None,
    }
}

/// States that a deployment goes through.
#[derive(Clone, Copy, Debug, PartialEq, Eq, Hash, Structural)]
pub enum State {
    /// Waiting to be built.
    Queued,
    /// Being built.
    Building,
    /// Built, but not started yet.
    Built,
    /// Being loaded.
    Loading,
    /// Running.
    Running,
    /// Came to its end by itself.
    Completed,
    /// Was stopped.
    Stopped,
    /// Failed.
    Crashed,
}

impl State {
    /// Whether no deployment can really be in this state once the deployer has started anew:
    /// the work that the state speaks of ended with the process that did it.
    pub open spec fn is_unfinished(self) -> bool {
        self == State::Queued || self == State::Built || self == State::Building || self
            == State::Loading
    }

    pub fn unfinished(&self) -> (result: bool)
        ensures
            result == self.is_unfinished(),
            result == (*self == State::Queued || *self == State::Building || *self == State::Built
                || *self == State::Loading),
    {
        match self {
            State::Queued | State::Built | State::Building | State::Loading => true,
            _ => false,
        }
    }

    /// Whether a deployment in this state can be started.
    pub open spec fn is_runnable(self) -> bool {
        self == State::Running || self == State::Stopped || self == State::Completed
    }

    pub fn runnable(&self) -> (result: bool)
        ensures
            result == self.is_runnable(),
            result == (*self == State::Running || *self == State::Completed || *self
                == State::Stopped),
    {
        match self {
            State::Running | State::Stopped | State::Completed => true,
            _ => false,
        }
    }
}

impl State {
    /// The name under which the state is stored.
    pub open spec fn stored_name(self) -> Seq<char> {
        match self {
            State::Queued => "Queued"@,
            State::Building => "Building"@,
            State::Built => "Built"@,
            State::Loading => "Loading"@,
            State::Running => "Running"@,
            State::Completed => "Completed"@,
            State::Stopped => "Stopped"@,
            State::Crashed => "Crashed"@,
        }
    }

    pub fn name(&self) -> (name: &'static str)
        ensures
            name@ == self.stored_name(),
    {
        match self {
            State::Queued => "Queued",
            State::Building => "Building",
            State::Built => "Built",
            State::Loading => "Loading",
            State::Running => "Running",
            State::Completed => "Completed",
            State::Stopped => "Stopped",
            State::Crashed => "Crashed",
        }
    }

    /// The state stored under `name`, if there is one.
    pub fn from_name(name: &str) -> (result: Option<State>)
        ensures
            forall|state: State|
                (result == Some(state)) == (name@ == #[trigger] state.stored_name()),
    {
        let name = name.to_owned();
        proof {
            assert forall|a: State, b: State|
                #[trigger] a.stored_name() == #[trigger] b.stored_name() implies a == b by {
                law_state_names_are_unique(a, b);
            }
            assert(State::Queued.stored_name() == "Queued"@);
            assert(State::Building.stored_name() == "Building"@);
            assert(State::Built.stored_name() == "Built"@);
            assert(State::Loading.stored_name() == "Loading"@);
            assert(State::Running.stored_name() == "Running"@);
            assert(State::Completed.stored_name() == "Completed"@);
            assert(State::Stopped.stored_name() == "Stopped"@);
            assert(State::Crashed.stored_name() == "Crashed"@);
        }
        if name == "Queued".to_owned() {
            Some(State::Queued)
        } else if name == "Building".to_owned() {
            Some(State::Building)
        } else if name == "Built".to_owned() {
            Some(State::Built)
        } else if name == "Loading".to_owned() {
            Some(State::Loading)
        } else if name == "Running".to_owned() {
            Some(State::Running)
        } else if name == "Completed".to_owned() {
            Some(State::Completed)
        } else if name == "Stopped".to_owned() {
            Some(State::Stopped)
        } else if name == "Crashed".to_owned() {
            Some(State::Crashed)
        } else {
            None
        }
    }
}

/// No two states are stored under the same name.
pub proof fn law_state_names_are_unique(a: State, b: State)
    requires
        a.stored_name() == b.stored_name(),
    ensures
        a == b,
{
    reveal_strlit("Queued");
    reveal_strlit("Building");
    reveal_strlit("Built");
    reveal_strlit("Loading");
    reveal_strlit("Running");
    reveal_strlit("Completed");
    reveal_strlit("Stopped");
    reveal_strlit("Crashed");
    assert("Queued"@.len() == 6 && "Queued"@[0] == 'Q');
    assert("Building"@.len() == 8 && "Building"@[0] == 'B');
    assert("Built"@.len() == 5 && "Built"@[0] == 'B');
    assert("Loading"@.len() == 7 && "Loading"@[0] == 'L');
    assert("Running"@.len() == 7 && "Running"@[0] == 'R');
    assert("Completed"@.len() == 9 && "Completed"@[0] == 'C');
    assert("Stopped"@.len() == 7 && "Stopped"@[0] == 'S');
    assert("Crashed"@.len() == 7 && "Crashed"@[0] == 'C');
    assert(a.stored_name().len() == b.stored_name().len());
    assert(a.stored_name()[0] == b.stored_name()[0]);
}

/// Severity of a log.
#[derive(Clone, Copy, Debug, PartialEq, Eq, Hash, Structural)]
pub enum Level {
    Trace,
    Debug,
    Info,
    Warn,
    Error,
}

impl Level {
    /// The name under which the level is stored.
    pub open spec fn stored_name(self) -> Seq<char> {
        match self {
            Level::Trace => "Trace"@,
            Level::Debug => "Debug"@,
            Level::Info => "Info"@,
            Level::Warn => "Warn"@,
            Level::Error => "Error"@,
        }
    }

    pub fn name(&self) -> (name: &'static str)
        ensures
            name@ == self.stored_name(),
    {
        match self {
            Level::Trace => "Trace",
            Level::Debug => "Debug",
            Level::Info => "Info",
            Level::Warn => "Warn",
            Level::Error => "Error",
        }
    }

    /// The level stored under `name`, if there is one.
    pub fn from_name(name: &str) -> (result: Option<Level>)
        ensures
            forall|level: Level|
                (result == Some(level)) == (name@ == #[trigger] level.stored_name()),
    {
        let name = name.to_owned();
        proof {
            assert forall|a: Level, b: Level|
                #[trigger] a.stored_name() == #[trigger] b.stored_name() implies a == b by {
                law_level_names_are_unique(a, b);
            }
            assert(Level::Trace.stored_name() == "Trace"@);
            assert(Level::Debug.stored_name() == "Debug"@);
            assert(Level::Info.stored_name() == "Info"@);
            assert(Level::Warn.stored_name() == "Warn"@);
            assert(Level::Error.stored_name() == "Error"@);
        }
        if name == "Trace".to_owned() {
            Some(Level::Trace)
        } else if name == "Debug".to_owned() {
            Some(Level::Debug)
        } else if name == "Info".to_owned() {
            Some(Level::Info)
        } else if name == "Warn".to_owned() {
            Some(Level::Warn)
        } else if name == "Error".to_owned() {
            Some(Level::Error)
        } else {
            None
        }
    }
}

/// No two levels are stored under the same name.
pub proof fn law_level_names_are_unique(a: Level, b: Level)
    requires
        a.stored_name() == b.stored_name(),
    ensures
        a == b,
{
    reveal_strlit("Trace");
    reveal_strlit("Debug");
    reveal_strlit("Info");
    reveal_strlit("Warn");
    reveal_strlit("Error");
    assert("Trace"@.len() == 5 && "Trace"@[0] == 'T');
    assert("Debug"@.len() == 5 && "Debug"@[0] == 'D');
    assert("Info"@.len() == 4 && "Info"@[0] == 'I');
    assert("Warn"@.len() == 4 && "Warn"@[0] == 'W');
    assert("Error"@.len() == 5 && "Error"@[0] == 'E');
    assert(a.stored_name().len() == b.stored_name().len());
    assert(a.stored_name()[0] == b.stored_name()[0]);
}

/// A deployment of a service.
#[derive(Debug, PartialEq)]
pub struct Deployment {
    pub id: Uuid,
    pub service_id: Ulid,
    pub state: State,
    pub last_update: Timestamp,
    /// The socket address that the deployment listens on, as text.
    pub address: Option<String>,
    pub is_next: bool,
    pub git_commit_id: Option<String>,
    pub git_commit_msg: Option<String>,
    pub git_branch: Option<String>,
    pub git_dirty: Option<bool>,
}

impl Row for Deployment {
    fn copy(&self) -> (row: Self) {
        Deployment {
            id: self.id,
            service_id: self.service_id,
            state: self.state,
            last_update: self.last_update,
            address: copy_text(&self.address),
            is_next: self.is_next,
            git_commit_id: copy_text(&self.git_commit_id),
            git_commit_msg: copy_text(&self.git_commit_msg),
            git_branch: copy_text(&self.git_branch),
            git_dirty: self.git_dirty,
        }
    }
}

impl Clone for Deployment {
    fn clone(&self) -> (row: Self)
        ensures
            row == *self,
    {
        self.copy()
    }
}

/// A change of state of a deployment.
#[derive(Clone, Copy, Debug, PartialEq)]
pub struct DeploymentState {
    pub id: Uuid,
    pub state: State,
    pub last_update: Timestamp,
}

/// A deployment that can be started.
#[derive(Debug, PartialEq)]
pub struct DeploymentRunnable {
    pub id: Uuid,
    pub service_name: String,
    pub service_id: Ulid,
    pub is_next: bool,
}

impl Clone for DeploymentRunnable {
    fn clone(&self) -> (copy: Self)
        ensures
            copy == *self,
    {
        DeploymentRunnable {
            id: self.id,
            service_name: self.service_name.clone(),
            service_id: self.service_id,
            is_next: self.is_next,
        }
    }
}

/// A deployment that is being built.
#[derive(Debug, PartialEq)]
pub struct DeploymentBuilding {
    pub id: Uuid,
    pub service_name: String,
    pub service_id: Ulid,
    pub is_next: bool,
}

impl Clone for DeploymentBuilding {
    fn clone(&self) -> (copy: Self)
        ensures
            copy == *self,
    {
        DeploymentBuilding {
            id: self.id,
            service_name: self.service_name.clone(),
            service_id: self.service_id,
            is_next: self.is_next,
        }
    }
}

/// A service.
#[derive(Debug, PartialEq)]
pub struct Service {
    pub id: Ulid,
    pub name: String,
}

impl Row for Service {
    fn copy(&self) -> (row: Self) {
        Service { id: self.id, name: self.name.clone() }
    }
}

impl Clone for Service {
    fn clone(&self) -> (row: Self)
        ensures
            row == *self,
    {
        self.copy()
    }
}

/// A log of a deployment.
#[derive(Debug, PartialEq)]
pub struct Log {
    /// Identifier of the deployment.
    pub id: Uuid,
    pub timestamp: Timestamp,
    pub state: State,
    pub level: Level,
    pub file: Option<String>,
    pub line: Option<u32>,
    pub target: String,
    pub fields: serde_json::Value,
}

impl Row for Log {
    fn copy(&self) -> (row: Self) {
        Log {
            id: self.id,
            timestamp: self.timestamp,
            state: self.state,
            level: self.level,
            file: copy_text(&self.file),
            line: self.line,
            target: self.target.clone(),
            fields: json_clone(&self.fields),
        }
    }
}

impl Clone for Log {
    fn clone(&self) -> (row: Self)
        ensures
            row == *self,
    {
        self.copy()
    }
}

/// A secret of a service.
#[derive(Debug, PartialEq)]
pub struct Secret {
    pub service_id: Ulid,
    pub key: String,
    pub value: String,
    pub last_update: Timestamp,
}

impl Secret {
    /// Whether this is the secret `value` that a service keeps under `key`.
    pub open spec fn is_kept(self, service_id: Ulid, key: Seq<char>, value: Seq<char>) -> bool {
        self.service_id == service_id && self.key@ == key && self.value@ == value
    }
}

impl Row for Secret {
    fn copy(&self) -> (row: Self) {
        Secret {
            service_id: self.service_id,
            key: self.key.clone(),
            value: self.value.clone(),
            last_update: self.last_update,
        }
    }
}

impl Clone for Secret {
    fn clone(&self) -> (row: Self)
        ensures
            row == *self,
    {
        self.copy()
    }
}

/// A resource of a service, as cached on this side.
#[derive(Debug, PartialEq)]
pub struct Resource {
    pub service_id: Ulid,
    /// The text of the resource's type.
    pub kind: String,
    pub config: serde_json::Value,
    pub data: serde_json::Value,
}

impl Row for Resource {
    fn copy(&self) -> (row: Self) {
        Resource {
            service_id: self.service_id,
            kind: self.kind.clone(),
            config: json_clone(&self.config),
            data: json_clone(&self.data),
        }
    }
}

impl Clone for Resource {
    fn clone(&self) -> (row: Self)
        ensures
            row == *self,
    {
        self.copy()
    }
}

} // verus!
