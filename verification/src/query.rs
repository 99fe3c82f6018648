//! The queries: which rows each of them asks for, and the statement that asks for them.

use crate::ids::{ulid_text, Ulid, Uuid};
use crate::order::{ordered, selected, Condition, Order};
use crate::rows::{
    Deployment, DeploymentBuilding, DeploymentRunnable, Log, Resource, Secret, Service, State,
};
use crate::sql::{Param, ParamView, Statement, StatementView};
use crate::tables::{joined, Joined, TablesView};
use crate::text_order::{
    is_text_before, lemma_bytes_before_asymmetric, lemma_bytes_not_before_transitive, text_before,
};
use vstd::prelude::*;
use vstd::utf8::encode_utf8;

verus! {

/// Latest update first.
pub struct NewestFirst;

/// Earliest first.
pub struct OldestFirst;

/// By key.
pub struct ByKey;

impl Order<Deployment> for NewestFirst {
    open spec fn precedes(self, a: Deployment, b: Deployment) -> bool {
        b.last_update.is_before(a.last_update)
    }

    fn test(&self, a: &Deployment, b: &Deployment) -> (result: bool)
        ensures
            result == (a.last_update.secs > b.last_update.secs || (a.last_update.secs
                == b.last_update.secs && a.last_update.nanos > b.last_update.nanos)),
    {
        b.last_update.before(&a.last_update)
    }

    proof fn asymmetric(self, a: Deployment, b: Deployment) {
    }

    proof fn transitive(self, a: Deployment, b: Deployment, c: Deployment) {
    }
}

impl Order<Joined> for NewestFirst {
    open spec fn precedes(self, a: Joined, b: Joined) -> bool {
        b.deployment.last_update.is_before(a.deployment.last_update)
    }

    fn test(&self, a: &Joined, b: &Joined) -> (result: bool)
        ensures
            ({
                let (x, y) = (a.deployment.last_update, b.deployment.last_update);
                result == (x.secs > y.secs || (x.secs == y.secs && x.nanos > y.nanos))
            }),
    {
        b.deployment.last_update.before(&a.deployment.last_update)
    }

    proof fn asymmetric(self, a: Joined, b: Joined) {
    }

    proof fn transitive(self, a: Joined, b: Joined, c: Joined) {
    }
}

impl Order<Joined> for OldestFirst {
    open spec fn precedes(self, a: Joined, b: Joined) -> bool {
        a.deployment.last_update.is_before(b.deployment.last_update)
    }

    fn test(&self, a: &Joined, b: &Joined) -> (result: bool)
        ensures
            ({
                let (x, y) = (a.deployment.last_update, b.deployment.last_update);
                result == (x.secs < y.secs || (x.secs == y.secs && x.nanos < y.nanos))
            }),
    {
        a.deployment.last_update.before(&b.deployment.last_update)
    }

    proof fn asymmetric(self, a: Joined, b: Joined) {
    }

    proof fn transitive(self, a: Joined, b: Joined, c: Joined) {
    }
}

impl Order<Log> for OldestFirst {
    open spec fn precedes(self, a: Log, b: Log) -> bool {
        a.timestamp.is_before(b.timestamp)
    }

    fn test(&self, a: &Log, b: &Log) -> (result: bool)
        ensures
            result == (a.timestamp.secs < b.timestamp.secs || (a.timestamp.secs
                == b.timestamp.secs && a.timestamp.nanos < b.timestamp.nanos)),
    {
        a.timestamp.before(&b.timestamp)
    }

    proof fn asymmetric(self, a: Log, b: Log) {
    }

    proof fn transitive(self, a: Log, b: Log, c: Log) {
    }
}

impl Order<Secret> for ByKey {
    open spec fn precedes(self, a: Secret, b: Secret) -> bool {
        is_text_before(a.key@, b.key@)
    }

    fn test(&self, a: &Secret, b: &Secret) -> (result: bool) {
        text_before(a.key.as_str(), b.key.as_str())
    }

    proof fn asymmetric(self, a: Secret, b: Secret) {
        lemma_bytes_before_asymmetric(encode_utf8(a.key@), encode_utf8(b.key@));
    }

    proof fn transitive(self, a: Secret, b: Secret, c: Secret) {
        lemma_bytes_not_before_transitive(
            encode_utf8(a.key@),
            encode_utf8(b.key@),
            encode_utf8(c.key@),
        );
    }
}

/// At most `limit` rows, after `offset` of them were left out.
pub open spec fn page<T>(rows: Seq<T>, offset: nat, limit: nat) -> Seq<T> {
    let rest = if offset < rows.len() {
        rows.skip(offset as int)
    } else {
        Seq::empty()
    };
    if limit < rest.len() {
        rest.take(limit as int)
    } else {
        rest
    }
}

/// The first of the rows, if there is one.
pub open spec fn first_row<T>(rows: Seq<T>) -> Option<T> {
    if rows.len() == 0 {
        None
    } else {
        Some(rows[0])
    }
}

/// Queries of the deployments.
pub enum DeploymentQuery {
    /// The deployment with an identifier.
    WithId { id: Uuid },
    /// A stretch of the deployments of a service, latest update first.
    Page { service_id: Ulid, offset: u32, limit: u32 },
    /// The running deployments of a service.
    Active { service_id: Ulid },
}

impl Condition<Deployment> for DeploymentQuery {
    open spec fn holds(self, row: Deployment) -> bool {
        match self {
            DeploymentQuery::WithId { id } => row.id == id,
            DeploymentQuery::Page { service_id, .. } => row.service_id == service_id,
            DeploymentQuery::Active { service_id } => row.service_id == service_id && row.state
                == State::Running,
        }
    }

    fn test(&self, row: &Deployment) -> (result: bool) {
        match self {
            DeploymentQuery::WithId { id } => row.id == *id,
            DeploymentQuery::Page { service_id, .. } => row.service_id == *service_id,
            DeploymentQuery::Active { service_id } => row.service_id == *service_id && row.state
                == State::Running,
        }
    }
}

impl DeploymentQuery {
    /// The rows that the query asks for.
    pub open spec fn rows(self, tables: TablesView) -> Seq<Deployment> {
        let matching = selected(tables.deployments, self);
        match self {
            DeploymentQuery::Page { offset, limit, .. } => page(
                ordered(matching, NewestFirst),
                offset as nat,
                limit as nat,
            ),
            _ => matching,
        }
    }

    /// The statement that asks for them.
    pub open spec fn statement(self) -> StatementView {
        match self {
            DeploymentQuery::WithId { id } => StatementView {
                sql: "SELECT * FROM deployments WHERE id = ?"@,
                values: seq![ParamView::Uuid(id)],
            },
            DeploymentQuery::Page { service_id, offset, limit } => {
                let sql = "SELECT * FROM deployments WHERE service_id = "@ + "?"@
                    + " ORDER BY last_update DESC LIMIT "@ + "?"@;
                let values = seq![
                    ParamView::Text(ulid_text(service_id.value)),
                    ParamView::Number(limit),
                ];
                if offset > 0 {
                    StatementView {
                        sql: sql + " OFFSET "@ + "?"@,
                        values: values.push(ParamView::Number(offset)),
                    }
                } else {
                    StatementView { sql, values }
                }
            },
            DeploymentQuery::Active { service_id } => StatementView {
                sql: "SELECT * FROM deployments WHERE service_id = ? AND state = ?"@,
                values: seq![
                    ParamView::Text(ulid_text(service_id.value)),
                    ParamView::Text(State::Running.stored_name()),
                ],
            },
        }
    }

    pub fn to_sql(&self) -> (statement: Statement)
        ensures
            statement@ == self.statement(),
    {
        match self {
            DeploymentQuery::WithId { id } => {
                let statement = Statement::new("SELECT * FROM deployments WHERE id = ?").bind(
                    Param::Uuid(*id),
                );
                assert(statement@ =~= self.statement());
                statement
            },
            DeploymentQuery::Page { service_id, offset, limit } => {
                let mut statement = Statement::new("SELECT * FROM deployments WHERE service_id = ");
                statement.push_bind(Param::Text(service_id.to_string()));
                statement.push(" ORDER BY last_update DESC LIMIT ");
                statement.push_bind(Param::Number(*limit));
                if *offset > 0 {
                    statement.push(" OFFSET ");
                    statement.push_bind(Param::Number(*offset));
                }
                assert(statement@ =~= self.statement());
                statement
            },
            DeploymentQuery::Active { service_id } => {
                let statement = Statement::new(
                    "SELECT * FROM deployments WHERE service_id = ? AND state = ?",
                ).bind(Param::Text(service_id.to_string())).bind(
                    Param::text(State::Running.name()),
                );
                assert(statement@ =~= self.statement());
                statement
            },
        }
    }
}

/// Queries of the deployments that can be started.
pub enum RunnableQuery {
    /// All that are running, latest update first.
    All,
    /// The one with an identifier, if it can be started.
    WithId { id: Uuid },
}

impl Condition<Joined> for RunnableQuery {
    open spec fn holds(self, row: Joined) -> bool {
        match self {
            RunnableQuery::All => row.deployment.state == State::Running,
            RunnableQuery::WithId { id } => row.deployment.state.is_runnable() && row.deployment.id
                == id,
        }
    }

    fn test(&self, row: &Joined) -> (result: bool) {
        match self {
            RunnableQuery::All => row.deployment.state == State::Running,
            RunnableQuery::WithId { id } => row.deployment.state.runnable() && row.deployment.id
                == *id,
        }
    }
}

impl RunnableQuery {
    /// The rows that the query asks for, before the columns are picked.
    pub open spec fn joined_rows(self, tables: TablesView) -> Seq<Joined> {
        let matching = selected(joined(tables.deployments, tables.services), self);
        match self {
            RunnableQuery::All => ordered(matching, NewestFirst),
            RunnableQuery::WithId { .. } => matching,
        }
    }

    /// The rows that the query asks for.
    pub open spec fn rows(self, tables: TablesView) -> Seq<DeploymentRunnable> {
        self.joined_rows(tables).map_values(|row: Joined| row.as_runnable())
    }

    /// The statement that asks for them.
    pub open spec fn statement(self) -> StatementView {
        match self {
            RunnableQuery::All => StatementView {
                sql:
                    "SELECT d.id, service_id, s.name AS service_name, d.is_next FROM deployments AS d JOIN services AS s ON s.id = d.service_id WHERE state = ? ORDER BY last_update DESC"@,
                values: seq![ParamView::Text(State::Running.stored_name())],
            },
            RunnableQuery::WithId { id } => StatementView {
                sql:
                    "SELECT d.id, service_id, s.name AS service_name, d.is_next FROM deployments AS d JOIN services AS s ON s.id = d.service_id WHERE state IN (?, ?, ?) AND d.id = ?"@,
                values: seq![
                    ParamView::Text(State::Running.stored_name()),
                    ParamView::Text(State::Stopped.stored_name()),
                    ParamView::Text(State::Completed.stored_name()),
                    ParamView::Uuid(id),
                ],
            },
        }
    }

    pub fn to_sql(&self) -> (statement: Statement)
        ensures
            statement@ == self.statement(),
    {
        match self {
            RunnableQuery::All => {
                let statement = Statement::new(
                    "SELECT d.id, service_id, s.name AS service_name, d.is_next FROM deployments AS d JOIN services AS s ON s.id = d.service_id WHERE state = ? ORDER BY last_update DESC",
                ).bind(Param::text(State::Running.name()));
                assert(statement@ =~= self.statement());
                statement
            },
            RunnableQuery::WithId { id } => {
                let statement = Statement::new(
                    "SELECT d.id, service_id, s.name AS service_name, d.is_next FROM deployments AS d JOIN services AS s ON s.id = d.service_id WHERE state IN (?, ?, ?) AND d.id = ?",
                ).bind(Param::text(State::Running.name())).bind(
                    Param::text(State::Stopped.name()),
                ).bind(Param::text(State::Completed.name())).bind(Param::Uuid(*id));
                assert(statement@ =~= self.statement());
                statement
            },
        }
    }
}

/// Queries of the deployments that are being built.
pub enum BuildingQuery {
    /// All of them, latest update first.
    All,
    /// The one with an identifier, if it is being built.
    WithId { id: Uuid },
}

impl Condition<Joined> for BuildingQuery {
    open spec fn holds(self, row: Joined) -> bool {
        match self {
            BuildingQuery::All => row.deployment.state == State::Building,
            BuildingQuery::WithId { id } => row.deployment.state == State::Building
                && row.deployment.id == id,
        }
    }

    fn test(&self, row: &Joined) -> (result: bool) {
        match self {
            BuildingQuery::All => row.deployment.state == State::Building,
            BuildingQuery::WithId { id } => row.deployment.state == State::Building
                && row.deployment.id == *id,
        }
    }
}

impl BuildingQuery {
    /// The rows that the query asks for, before the columns are picked.
    pub open spec fn joined_rows(self, tables: TablesView) -> Seq<Joined> {
        let matching = selected(joined(tables.deployments, tables.services), self);
        match self {
            BuildingQuery::All => ordered(matching, NewestFirst),
            BuildingQuery::WithId { .. } => matching,
        }
    }

    /// The rows that the query asks for.
    pub open spec fn rows(self, tables: TablesView) -> Seq<DeploymentBuilding> {
        self.joined_rows(tables).map_values(|row: Joined| row.as_building())
    }

    /// The statement that asks for them.
    pub open spec fn statement(self) -> StatementView {
        match self {
            BuildingQuery::All => StatementView {
                sql:
                    "SELECT d.id, service_id, s.name AS service_name, d.is_next FROM deployments AS d JOIN services AS s ON s.id = d.service_id WHERE state = ? ORDER BY last_update DESC"@,
                values: seq![ParamView::Text(State::Building.stored_name())],
            },
            BuildingQuery::WithId { id } => StatementView {
                sql:
                    "SELECT d.id, service_id, s.name AS service_name, d.is_next FROM deployments AS d JOIN services AS s ON s.id = d.service_id WHERE state = ? AND d.id = ?"@,
                values: seq![
                    ParamView::Text(State::Building.stored_name()),
                    ParamView::Uuid(id),
                ],
            },
        }
    }

    pub fn to_sql(&self) -> (statement: Statement)
        ensures
            statement@ == self.statement(),
    {
        match self {
            BuildingQuery::All => {
                let statement = Statement::new(
                    "SELECT d.id, service_id, s.name AS service_name, d.is_next FROM deployments AS d JOIN services AS s ON s.id = d.service_id WHERE state = ? ORDER BY last_update DESC",
                ).bind(Param::text(State::Building.name()));
                assert(statement@ =~= self.statement());
                statement
            },
            BuildingQuery::WithId { id } => {
                let statement = Statement::new(
                    "SELECT d.id, service_id, s.name AS service_name, d.is_next FROM deployments AS d JOIN services AS s ON s.id = d.service_id WHERE state = ? AND d.id = ?",
                ).bind(Param::text(State::Building.name())).bind(Param::Uuid(*id));
                assert(statement@ =~= self.statement());
                statement
            },
        }
    }
}

/// Query of the addresses of the running deployments of a service, earliest update first.
pub struct AddressQuery {
    pub service_name: String,
}

impl Condition<Joined> for AddressQuery {
    open spec fn holds(self, row: Joined) -> bool {
        row.service.name@ == self.service_name@ && row.deployment.state == State::Running
    }

    fn test(&self, row: &Joined) -> (result: bool) {
        row.service.name == self.service_name && row.deployment.state == State::Running
    }
}

/// The running deployments of a service with a name.
pub open spec fn running_for(name: Seq<char>) -> spec_fn(Joined) -> bool {
    |row: Joined| row.service.name@ == name && row.deployment.state == State::Running
}

/// The running deployments of the service with a name, earliest update first.
pub open spec fn running_rows(tables: TablesView, name: Seq<char>) -> Seq<Joined> {
    ordered(joined(tables.deployments, tables.services).filter(running_for(name)), OldestFirst)
}

impl AddressQuery {
    /// The rows that the query asks for.
    pub open spec fn rows(self, tables: TablesView) -> Seq<Option<String>> {
        running_rows(tables, self.service_name@).map_values(
            |row: Joined| row.deployment.address,
        )
    }

    /// The statement that asks for them.
    pub open spec fn statement(self) -> StatementView {
        StatementView {
            sql:
                "SELECT d.address FROM deployments AS d JOIN services AS s ON d.service_id = s.id WHERE s.name = ? AND d.state = ? ORDER BY d.last_update"@,
            values: seq![
                ParamView::Text(self.service_name@),
                ParamView::Text(State::Running.stored_name()),
            ],
        }
    }

    pub fn to_sql(&self) -> (statement: Statement)
        ensures
            statement@ == self.statement(),
    {
        let statement = Statement::new(
            "SELECT d.address FROM deployments AS d JOIN services AS s ON d.service_id = s.id WHERE s.name = ? AND d.state = ? ORDER BY d.last_update",
        ).bind(Param::text(self.service_name.as_str())).bind(Param::text(State::Running.name()));
        assert(statement@ =~= self.statement());
        statement
    }
}

/// Queries of the services.
pub enum ServiceQuery {
    /// The service with a name.
    Named { name: String },
    /// All services.
    All,
}

impl Condition<Service> for ServiceQuery {
    open spec fn holds(self, row: Service) -> bool {
        match self {
            ServiceQuery::Named { name } => row.name@ == name@,
            ServiceQuery::All => true,
        }
    }

    fn test(&self, row: &Service) -> (result: bool) {
        match self {
            ServiceQuery::Named { name } => row.name == *name,
            ServiceQuery::All => true,
        }
    }
}

/// The services with a name.
pub open spec fn named(name: Seq<char>) -> spec_fn(Service) -> bool {
    |row: Service| row.name@ == name
}

impl ServiceQuery {
    /// The rows that the query asks for.
    pub open spec fn rows(self, tables: TablesView) -> Seq<Service> {
        match self {
            ServiceQuery::Named { name } => tables.services.filter(named(name@)),
            ServiceQuery::All => tables.services,
        }
    }

    /// The statement that asks for them.
    pub open spec fn statement(self) -> StatementView {
        match self {
            ServiceQuery::Named { name } => StatementView {
                sql: "SELECT * FROM services WHERE name = ?"@,
                values: seq![ParamView::Text(name@)],
            },
            ServiceQuery::All => StatementView {
                sql: "SELECT * FROM services"@,
                values: Seq::empty(),
            },
        }
    }

    pub fn to_sql(&self) -> (statement: Statement)
        ensures
            statement@ == self.statement(),
    {
        match self {
            ServiceQuery::Named { name } => {
                let statement = Statement::new("SELECT * FROM services WHERE name = ?").bind(
                    Param::text(name.as_str()),
                );
                assert(statement@ =~= self.statement());
                statement
            },
            ServiceQuery::All => Statement::new("SELECT * FROM services"),
        }
    }
}

/// Query of the logs of a deployment, earliest first.
pub struct LogQuery {
    pub id: Uuid,
}

impl Condition<Log> for LogQuery {
    open spec fn holds(self, row: Log) -> bool {
        row.id == self.id
    }

    fn test(&self, row: &Log) -> (result: bool) {
        row.id == self.id
    }
}

impl LogQuery {
    /// The query of the logs of a deployment.
    pub open spec fn of(id: Uuid) -> LogQuery {
        LogQuery { id }
    }

    /// The rows that the query asks for.
    pub open spec fn rows(self, tables: TablesView) -> Seq<Log> {
        ordered(selected(tables.logs, self), OldestFirst)
    }

    /// The statement that asks for them.
    pub open spec fn statement(self) -> StatementView {
        StatementView {
            sql: "SELECT * FROM logs WHERE id = ? ORDER BY timestamp"@,
            values: seq![ParamView::Uuid(self.id)],
        }
    }

    pub fn to_sql(&self) -> (statement: Statement)
        ensures
            statement@ == self.statement(),
    {
        let statement = Statement::new("SELECT * FROM logs WHERE id = ? ORDER BY timestamp").bind(
            Param::Uuid(self.id),
        );
        assert(statement@ =~= self.statement());
        statement
    }
}

/// Query of the secrets of a service, by key.
pub struct SecretQuery {
    pub service_id: Ulid,
}

impl Condition<Secret> for SecretQuery {
    open spec fn holds(self, row: Secret) -> bool {
        row.service_id == self.service_id
    }

    fn test(&self, row: &Secret) -> (result: bool) {
        row.service_id == self.service_id
    }
}

impl SecretQuery {
    /// The rows that the query asks for.
    pub open spec fn rows(self, tables: TablesView) -> Seq<Secret> {
        ordered(selected(tables.secrets, self), ByKey)
    }

    /// The statement that asks for them.
    pub open spec fn statement(self) -> StatementView {
        StatementView {
            sql: "SELECT * FROM secrets WHERE service_id = ? ORDER BY key"@,
            values: seq![ParamView::Text(ulid_text(self.service_id.value))],
        }
    }

    pub fn to_sql(&self) -> (statement: Statement)
        ensures
            statement@ == self.statement(),
    {
        let statement = Statement::new(
            "SELECT * FROM secrets WHERE service_id = ? ORDER BY key",
        ).bind(Param::Text(self.service_id.to_string()));
        assert(statement@ =~= self.statement());
        statement
    }
}

/// Query of the cached resources of a service.
pub struct ResourceQuery {
    pub service_id: Ulid,
}

impl Condition<Resource> for ResourceQuery {
    open spec fn holds(self, row: Resource) -> bool {
        row.service_id == self.service_id
    }

    fn test(&self, row: &Resource) -> (result: bool) {
        row.service_id == self.service_id
    }
}

impl ResourceQuery {
    /// The rows that the query asks for.
    pub open spec fn rows(self, tables: TablesView) -> Seq<Resource> {
        selected(tables.resources, self)
    }

    /// The statement that asks for them.
    pub open spec fn statement(self) -> StatementView {
        StatementView {
            sql: "SELECT * FROM resources WHERE service_id = ?"@,
            values: seq![ParamView::Text(ulid_text(self.service_id.value))],
        }
    }

    pub fn to_sql(&self) -> (statement: Statement)
        ensures
            statement@ == self.statement(),
    {
        let statement = Statement::new("SELECT * FROM resources WHERE service_id = ?").bind(
            Param::Text(self.service_id.to_string()),
        );
        assert(statement@ =~= self.statement());
        statement
    }
}

} // verus!
