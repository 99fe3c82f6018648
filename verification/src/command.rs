//! The commands: what each of them does to the tables, and the statement that does it.

use crate::ids::{ulid_text, Timestamp, Ulid, Uuid};
use crate::order::{select, selected, Condition};
use crate::rows::{
    Deployment, DeploymentRunnable, DeploymentState, Log, Row, Secret, Service, State,
};
use crate::sql::{Param, ParamView, Statement, StatementView};
use crate::tables::{Tables, TablesView};
use vstd::prelude::*;

verus! {

/// A change of the tables.
pub enum Command {
    /// Adds a deployment.
    InsertDeployment { deployment: Deployment },
    /// Sets the state and the time of the last update of a deployment.
    UpdateDeployment { state: DeploymentState },
    /// Sets the address of a deployment.
    SetAddress { id: Uuid, address: String },
    /// Sets whether a deployment runs on the next runtime.
    SetIsNext { id: Uuid, is_next: bool },
    /// Stops the deployments that are in an unfinished state.
    CleanupInvalidStates,
    /// Adds a service.
    InsertService { service: Service },
    /// Removes a service.
    DeleteService { service_id: Ulid },
    /// Adds a log.
    InsertLog { log: Log },
    /// Adds a secret, in place of the one with the same service and key.
    InsertSecret { secret: Secret },
}

/// The services but for one.
pub struct OtherServices {
    pub id: Ulid,
}

impl Condition<Service> for OtherServices {
    open spec fn holds(self, row: Service) -> bool {
        row.id != self.id
    }

    fn test(&self, row: &Service) -> (result: bool) {
        row.id != self.id
    }
}

/// The secrets but for the one with a service and a key.
pub struct OtherSecrets {
    pub service_id: Ulid,
    pub key: String,
}

impl Condition<Secret> for OtherSecrets {
    open spec fn holds(self, row: Secret) -> bool {
        !(row.service_id == self.service_id && row.key@ == self.key@)
    }

    fn test(&self, row: &Secret) -> (result: bool) {
        !(row.service_id == self.service_id && row.key == self.key)
    }
}

impl Command {
    /// Stopping a deployment at a time.
    pub open spec fn stopping(id: Uuid, now: Timestamp) -> Command {
        Command::UpdateDeployment {
            state: DeploymentState { id, state: State::Stopped, last_update: now },
        }
    }

    /// The command that stops a deployment at a time.
    pub fn stop_at(deployable: &DeploymentRunnable, now: Timestamp) -> (command: Command)
        ensures
            command == Command::stopping(deployable.id, now),
            command matches Command::UpdateDeployment { state } && state.id == deployable.id
                && state.state == State::Stopped && state.last_update == now,
    {
        Command::UpdateDeployment {
            state: DeploymentState {
                id: deployable.id,
                state: State::Stopped,
                last_update: now,
            },
        }
    }

    /// The command that stops a deployment now.
    pub fn stop(deployable: &DeploymentRunnable) -> (command: Command)
        ensures
            exists|now: Timestamp|
                now.nanos < 1_000_000_000 && command == #[trigger] Command::stopping(
                    deployable.id,
                    now,
                ),
    {
        Command::stop_at(deployable, Timestamp::now())
    }

    /// The command that stores a secret at a time.
    pub fn store_secret_at(service_id: Ulid, key: &str, value: &str, now: Timestamp) -> (command:
        Command)
        ensures
            command matches Command::InsertSecret { secret } && secret.is_kept(
                service_id,
                key@,
                value@,
            ) && secret.service_id == service_id && secret.key@ == key@ && secret.value@ == value@
                && secret.last_update == now,
    {
        Command::InsertSecret {
            secret: Secret {
                service_id,
                key: key.to_owned(),
                value: value.to_owned(),
                last_update: now,
            },
        }
    }

    /// The command that stores a secret now.
    pub fn store_secret(service_id: Ulid, key: &str, value: &str) -> (command: Command)
        ensures
            command matches Command::InsertSecret { secret } && secret.is_kept(
                service_id,
                key@,
                value@,
            ) && secret.service_id == service_id && secret.key@ == key@ && secret.value@ == value@
                && secret.last_update.nanos < 1_000_000_000,
    {
        Command::store_secret_at(service_id, key, value, Timestamp::now())
    }

    /// What becomes of a deployment that is in the table already.
    pub open spec fn updated(self, row: Deployment) -> Deployment {
        match self {
            Command::UpdateDeployment { state } if row.id == state.id => Deployment {
                state: state.state,
                last_update: state.last_update,
                ..row
            },
            Command::SetAddress { id, address } if row.id == id => Deployment {
                address: Some(address),
                ..row
            },
            Command::SetIsNext { id, is_next } if row.id == id => Deployment { is_next, ..row },
            Command::CleanupInvalidStates if row.state.is_unfinished() => Deployment {
                state: State::Stopped,
                ..row
            },
            _ => row,
        }
    }

    /// What becomes of all deployments that are in the table already.
    pub open spec fn updated_all(self, rows: Seq<Deployment>) -> Seq<Deployment> {
        rows.map_values(|row: Deployment| self.updated(row))
    }

    /// The tables after the command was carried out.
    pub open spec fn applied(self, tables: TablesView) -> TablesView {
        match self {
            Command::InsertDeployment { deployment } => TablesView {
                deployments: tables.deployments.push(deployment),
                ..tables
            },
            Command::InsertService { service } => TablesView {
                services: tables.services.push(service),
                ..tables
            },
            Command::DeleteService { service_id } => TablesView {
                services: selected(tables.services, OtherServices { id: service_id }),
                ..tables
            },
            Command::InsertLog { log } => TablesView { logs: tables.logs.push(log), ..tables },
            Command::InsertSecret { secret } => TablesView {
                secrets: selected(
                    tables.secrets,
                    OtherSecrets { service_id: secret.service_id, key: secret.key },
                ).push(secret),
                ..tables
            },
            _ => TablesView { deployments: self.updated_all(tables.deployments), ..tables },
        }
    }

    /// The statement that carries the command out.
    pub open spec fn statement(self) -> StatementView {
        match self {
            Command::InsertDeployment { deployment } => StatementView {
                sql: "INSERT INTO deployments VALUES (?, ?, ?, ?, ?, ?, ?, ?, ?, ?)"@,
                values: seq![
                    ParamView::Uuid(deployment.id),
                    ParamView::Text(ulid_text(deployment.service_id.value)),
                    ParamView::Text(deployment.state.stored_name()),
                    ParamView::Time(deployment.last_update),
                    ParamView::of_text(deployment.address),
                    ParamView::Flag(deployment.is_next),
                    ParamView::of_text(deployment.git_commit_id),
                    ParamView::of_text(deployment.git_commit_msg),
                    ParamView::of_text(deployment.git_branch),
                    ParamView::of_flag(deployment.git_dirty),
                ],
            },
            Command::UpdateDeployment { state } => StatementView {
                sql: "UPDATE deployments SET state = ?, last_update = ? WHERE id = ?"@,
                values: seq![
                    ParamView::Text(state.state.stored_name()),
                    ParamView::Time(state.last_update),
                    ParamView::Uuid(state.id),
                ],
            },
            Command::SetAddress { id, address } => StatementView {
                sql: "UPDATE deployments SET address = ? WHERE id = ?"@,
                values: seq![ParamView::Text(address@), ParamView::Uuid(id)],
            },
            Command::SetIsNext { id, is_next } => StatementView {
                sql: "UPDATE deployments SET is_next = ? WHERE id = ?"@,
                values: seq![ParamView::Flag(is_next), ParamView::Uuid(id)],
            },
            Command::CleanupInvalidStates => StatementView {
                sql: "UPDATE deployments SET state = ? WHERE state IN(?, ?, ?, ?)"@,
                values: seq![
                    ParamView::Text(State::Stopped.stored_name()),
                    ParamView::Text(State::Queued.stored_name()),
                    ParamView::Text(State::Built.stored_name()),
                    ParamView::Text(State::Building.stored_name()),
                    ParamView::Text(State::Loading.stored_name()),
                ],
            },
            Command::InsertService { service } => StatementView {
                sql: "INSERT INTO services (id, name) VALUES (?, ?)"@,
                values: seq![
                    ParamView::Text(ulid_text(service.id.value)),
                    ParamView::Text(service.name@),
                ],
            },
            Command::DeleteService { service_id } => StatementView {
                sql: "DELETE FROM services WHERE id = ?"@,
                values: seq![ParamView::Text(ulid_text(service_id.value))],
            },
            Command::InsertLog { log } => StatementView {
                sql:
                    "INSERT INTO logs (id, timestamp, state, level, file, line, target, fields) VALUES (?, ?, ?, ?, ?, ?, ?, ?)"@,
                values: seq![
                    ParamView::Uuid(log.id),
                    ParamView::Time(log.timestamp),
                    ParamView::Text(log.state.stored_name()),
                    ParamView::Text(log.level.stored_name()),
                    ParamView::of_text(log.file),
                    ParamView::of_number(log.line),
                    ParamView::Text(log.target@),
                    ParamView::Json(log.fields),
                ],
            },
            Command::InsertSecret { secret } => StatementView {
                sql:
                    "INSERT OR REPLACE INTO secrets (service_id, key, value, last_update) VALUES (?, ?, ?, ?)"@,
                values: seq![
                    ParamView::Text(ulid_text(secret.service_id.value)),
                    ParamView::Text(secret.key@),
                    ParamView::Text(secret.value@),
                    ParamView::Time(secret.last_update),
                ],
            },
        }
    }

    pub fn to_sql(&self) -> (statement: Statement)
        ensures
            statement@ == self.statement(),
    {
        let statement = match self {
            Command::InsertDeployment { deployment } => Statement::new(
                "INSERT INTO deployments VALUES (?, ?, ?, ?, ?, ?, ?, ?, ?, ?)",
            ).bind(Param::Uuid(deployment.id)).bind(
                Param::Text(deployment.service_id.to_string()),
            ).bind(Param::text(deployment.state.name())).bind(
                Param::Time(deployment.last_update),
            ).bind(Param::optional_text(&deployment.address)).bind(
                Param::Flag(deployment.is_next),
            ).bind(Param::optional_text(&deployment.git_commit_id)).bind(
                Param::optional_text(&deployment.git_commit_msg),
            ).bind(Param::optional_text(&deployment.git_branch)).bind(
                Param::optional_flag(deployment.git_dirty),
            ),
            Command::UpdateDeployment { state } => Statement::new(
                "UPDATE deployments SET state = ?, last_update = ? WHERE id = ?",
            ).bind(Param::text(state.state.name())).bind(Param::Time(state.last_update)).bind(
                Param::Uuid(state.id),
            ),
            Command::SetAddress { id, address } => Statement::new(
                "UPDATE deployments SET address = ? WHERE id = ?",
            ).bind(Param::text(address.as_str())).bind(Param::Uuid(*id)),
            Command::SetIsNext { id, is_next } => Statement::new(
                "UPDATE deployments SET is_next = ? WHERE id = ?",
            ).bind(Param::Flag(*is_next)).bind(Param::Uuid(*id)),
            Command::CleanupInvalidStates => Statement::new(
                "UPDATE deployments SET state = ? WHERE state IN(?, ?, ?, ?)",
            ).bind(Param::text(State::Stopped.name())).bind(
                Param::text(State::Queued.name()),
            ).bind(Param::text(State::Built.name())).bind(
                Param::text(State::Building.name()),
            ).bind(Param::text(State::Loading.name())),
            Command::InsertService { service } => Statement::new(
                "INSERT INTO services (id, name) VALUES (?, ?)",
            ).bind(Param::Text(service.id.to_string())).bind(Param::text(service.name.as_str())),
            Command::DeleteService { service_id } => Statement::new(
                "DELETE FROM services WHERE id = ?",
            ).bind(Param::Text(service_id.to_string())),
            Command::InsertLog { log } => Statement::new(
                "INSERT INTO logs (id, timestamp, state, level, file, line, target, fields) VALUES (?, ?, ?, ?, ?, ?, ?, ?)",
            ).bind(Param::Uuid(log.id)).bind(Param::Time(log.timestamp)).bind(
                Param::text(log.state.name()),
            ).bind(Param::text(log.level.name())).bind(Param::optional_text(&log.file)).bind(
                Param::optional_number(log.line),
            ).bind(Param::text(log.target.as_str())).bind(Param::json(&log.fields)),
            Command::InsertSecret { secret } => Statement::new(
                "INSERT OR REPLACE INTO secrets (service_id, key, value, last_update) VALUES (?, ?, ?, ?)",
            ).bind(Param::Text(secret.service_id.to_string())).bind(
                Param::text(secret.key.as_str()),
            ).bind(Param::text(secret.value.as_str())).bind(Param::Time(secret.last_update)),
        };
        assert(statement@ =~= self.statement());
        statement
    }

    /// Changes a deployment as the command says.
    fn update(&self, row: &Deployment) -> (result: Deployment)
        ensures
            result == self.updated(*row),
    {
        let mut result = row.copy();
        match self {
            Command::UpdateDeployment { state } => {
                if row.id == state.id {
                    result.state = state.state;
                    result.last_update = state.last_update;
                }
            },
            Command::SetAddress { id, address } => {
                if row.id == *id {
                    result.address = Some(address.clone());
                }
            },
            Command::SetIsNext { id, is_next } => {
                if row.id == *id {
                    result.is_next = *is_next;
                }
            },
            Command::CleanupInvalidStates => {
                if row.state.unfinished() {
                    result.state = State::Stopped;
                }
            },
            _ => {},
        }
        result
    }

    fn update_all(&self, rows: &Vec<Deployment>) -> (result: Vec<Deployment>)
        ensures
            result@ == self.updated_all(rows@),
    {
        let mut result: Vec<Deployment> = Vec::new();
        let mut i: usize = 0;
        while i < rows.len()
            invariant
                i <= rows.len(),
                result@.len() == i,
                forall|j: int| 0 <= j < i ==> #[trigger] result@[j] == self.updated(rows@[j]),
            decreases rows.len() - i,
        {
            result.push(self.update(&rows[i]));
            i += 1;
        }
        assert(result@ =~= self.updated_all(rows@));
        result
    }
}

impl Tables {
    /// Carries a command out.
    pub fn execute(&mut self, command: &Command)
        ensures
            final(self)@ == command.applied(old(self)@),
    {
        match command {
            Command::InsertDeployment { deployment } => {
                self.deployments.push(deployment.copy());
            },
            Command::InsertService { service } => {
                self.services.push(service.copy());
            },
            Command::DeleteService { service_id } => {
                self.services = select(&self.services, &OtherServices { id: *service_id });
            },
            Command::InsertLog { log } => {
                self.logs.push(log.copy());
            },
            Command::InsertSecret { secret } => {
                let others = OtherSecrets {
                    service_id: secret.service_id,
                    key: secret.key.clone(),
                };
                self.secrets = select(&self.secrets, &others);
                self.secrets.push(secret.copy());
            },
            _ => {
                self.deployments = command.update_all(&self.deployments);
            },
        }
    }
}

} // verus!
