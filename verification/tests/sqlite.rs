//! The statements do in SQLite what the tables in memory do.

use deployer_persistence::address::to_address_text;
use deployer_persistence::command::Command;
use deployer_persistence::ids::{Timestamp, Ulid, Uuid};
use deployer_persistence::query::{
    AddressQuery, BuildingQuery, DeploymentQuery, LogQuery, ResourceQuery, RunnableQuery,
    SecretQuery, ServiceQuery,
};
use deployer_persistence::recorder::{LogType, RecordedLog};
use deployer_persistence::rows::{
    Deployment, DeploymentBuilding, DeploymentRunnable, DeploymentState, Level, Log, Resource,
    Secret, Service, State,
};
use deployer_persistence::sql::{Param, Statement};
use deployer_persistence::tables::Tables;
use sqlx::sqlite::{Sqlite, SqliteArguments, SqlitePool, SqlitePoolOptions, SqliteRow};
use sqlx::Row;

const SCHEMA: [&str; 5] = [
    "CREATE TABLE services (id TEXT PRIMARY KEY, name TEXT UNIQUE NOT NULL)",
    "CREATE TABLE deployments (id TEXT PRIMARY KEY, service_id TEXT, state TEXT, last_update TEXT, address TEXT, is_next BOOLEAN, git_commit_id TEXT, git_commit_msg TEXT, git_branch TEXT, git_dirty BOOLEAN)",
    "CREATE TABLE logs (id TEXT, timestamp TEXT, state TEXT, level TEXT, file TEXT, line INTEGER, target TEXT, fields TEXT)",
    "CREATE TABLE secrets (service_id TEXT, key TEXT, value TEXT, last_update TEXT, PRIMARY KEY (service_id, key))",
    "CREATE TABLE resources (service_id TEXT, type TEXT, config TEXT, data TEXT)",
];

fn time_of(time: chrono::DateTime<chrono::Utc>) -> Timestamp {
    Timestamp { secs: time.timestamp(), nanos: time.timestamp_subsec_nanos() }
}

fn bound<'a>(statement: &'a Statement) -> sqlx::query::Query<'a, Sqlite, SqliteArguments<'a>> {
    let mut query = sqlx::query(&statement.sql);
    for value in &statement.values {
        query = match value {
            Param::Null => query.bind(None::<String>),
            Param::Flag(flag) => query.bind(*flag),
            Param::Number(number) => query.bind(*number),
            Param::Text(text) => query.bind(text.as_str()),
            Param::Uuid(id) => query.bind(uuid::Uuid::from_u128(id.value)),
            Param::Time(time) => query.bind(
                chrono::DateTime::<chrono::Utc>::from_timestamp(time.secs, time.nanos).unwrap(),
            ),
            Param::Json(json) => query.bind(json),
        };
    }
    query
}

fn uuid_of(row: &SqliteRow, column: &str) -> Uuid {
    Uuid { value: row.get::<uuid::Uuid, _>(column).as_u128() }
}

fn ulid_of(row: &SqliteRow, column: &str) -> Ulid {
    Ulid { value: ulid::Ulid::from_string(row.get(column)).unwrap().0 }
}

fn state_of(row: &SqliteRow) -> State {
    State::from_name(row.get("state")).unwrap()
}

fn deployment_of(row: &SqliteRow) -> Deployment {
    Deployment {
        id: uuid_of(row, "id"),
        service_id: ulid_of(row, "service_id"),
        state: state_of(row),
        last_update: time_of(row.get("last_update")),
        address: row.get("address"),
        is_next: row.get("is_next"),
        git_commit_id: row.get("git_commit_id"),
        git_commit_msg: row.get("git_commit_msg"),
        git_branch: row.get("git_branch"),
        git_dirty: row.get("git_dirty"),
    }
}

/// A database, and the tables in memory that are meant to hold the same.
struct Both {
    runtime: tokio::runtime::Runtime,
    pool: SqlitePool,
    tables: Tables,
}

impl Both {
    fn new() -> Both {
        let runtime =
            tokio::runtime::Builder::new_current_thread().enable_all().build().unwrap();
        let pool = runtime.block_on(async {
            let options = SqlitePoolOptions::new().max_connections(1);
            let pool = options.connect("sqlite::memory:").await.unwrap();
            for table in SCHEMA {
                sqlx::query(table).execute(&pool).await.unwrap();
            }
            pool
        });
        Both { runtime, pool, tables: Tables::new() }
    }

    fn execute(&mut self, command: Command) {
        let statement = command.to_sql();
        self.runtime.block_on(bound(&statement).execute(&self.pool)).unwrap();
        self.tables.execute(&command);
    }

    fn rows(&self, statement: &Statement) -> Vec<SqliteRow> {
        self.runtime.block_on(bound(statement).fetch_all(&self.pool)).unwrap()
    }

    fn deployments(&self, query: DeploymentQuery) -> Vec<Deployment> {
        let rows = self.rows(&query.to_sql());
        let stored: Vec<Deployment> = rows.iter().map(deployment_of).collect();
        assert_eq!(stored, self.tables.fetch_deployments(&query));
        stored
    }

    fn runnable(&self, query: RunnableQuery) -> Vec<DeploymentRunnable> {
        let rows = self.rows(&query.to_sql());
        let stored: Vec<DeploymentRunnable> = rows
            .iter()
            .map(|row| DeploymentRunnable {
                id: uuid_of(row, "id"),
                service_name: row.get("service_name"),
                service_id: ulid_of(row, "service_id"),
                is_next: row.get("is_next"),
            })
            .collect();
        assert_eq!(stored, self.tables.fetch_runnable(&query));
        stored
    }

    fn building(&self, query: BuildingQuery) -> Vec<DeploymentBuilding> {
        let rows = self.rows(&query.to_sql());
        let stored: Vec<DeploymentBuilding> = rows
            .iter()
            .map(|row| DeploymentBuilding {
                id: uuid_of(row, "id"),
                service_name: row.get("service_name"),
                service_id: ulid_of(row, "service_id"),
                is_next: row.get("is_next"),
            })
            .collect();
        assert_eq!(stored, self.tables.fetch_building(&query));
        stored
    }

    fn addresses(&self, service_name: &str) -> Vec<Option<String>> {
        let query = AddressQuery { service_name: service_name.to_string() };
        let rows = self.rows(&query.to_sql());
        let stored: Vec<Option<String>> = rows.iter().map(|row| row.get("address")).collect();
        assert_eq!(stored, self.tables.fetch_addresses(&query));
        // A column that is decoded as a text is empty where nothing is stored.
        for (row, address) in rows.iter().zip(&stored) {
            assert_eq!(row.get::<String, _>("address"), to_address_text(address.clone()));
        }
        stored
    }

    fn services(&self, query: ServiceQuery) -> Vec<Service> {
        let rows = self.rows(&query.to_sql());
        let stored: Vec<Service> = rows
            .iter()
            .map(|row| Service { id: ulid_of(row, "id"), name: row.get("name") })
            .collect();
        assert_eq!(stored, self.tables.fetch_services(&query));
        stored
    }

    fn logs(&self, id: Uuid) -> Vec<Log> {
        let query = LogQuery { id };
        let rows = self.rows(&query.to_sql());
        let stored: Vec<Log> = rows
            .iter()
            .map(|row| Log {
                id: uuid_of(row, "id"),
                timestamp: time_of(row.get("timestamp")),
                state: state_of(row),
                level: Level::from_name(row.get("level")).unwrap(),
                file: row.get("file"),
                line: row.get("line"),
                target: row.get("target"),
                fields: row.get("fields"),
            })
            .collect();
        assert_eq!(stored, self.tables.fetch_logs(&query));
        stored
    }

    fn secrets(&self, service_id: Ulid) -> Vec<Secret> {
        let query = SecretQuery { service_id };
        let rows = self.rows(&query.to_sql());
        let stored: Vec<Secret> = rows
            .iter()
            .map(|row| Secret {
                service_id: ulid_of(row, "service_id"),
                key: row.get("key"),
                value: row.get("value"),
                last_update: time_of(row.get("last_update")),
            })
            .collect();
        assert_eq!(stored, self.tables.fetch_secrets(&query));
        stored
    }

    fn resources(&self, service_id: Ulid) -> Vec<Resource> {
        let query = ResourceQuery { service_id };
        let rows = self.rows(&query.to_sql());
        let stored: Vec<Resource> = rows
            .iter()
            .map(|row| Resource {
                service_id: ulid_of(row, "service_id"),
                kind: row.get("type"),
                config: row.get("config"),
                data: row.get("data"),
            })
            .collect();
        assert_eq!(stored, self.tables.fetch_resources(&query));
        stored
    }

    fn insert_service(&mut self, id: Ulid, name: &str) {
        let service = Service { id, name: name.to_string() };
        self.execute(Command::InsertService { service });
    }

    fn insert_deployment(&mut self, id: u128, service_id: Ulid, state: State, time: Timestamp) {
        self.execute(Command::InsertDeployment {
            deployment: Deployment {
                id: Uuid { value: id },
                service_id,
                state,
                last_update: time,
                address: None,
                is_next: id % 2 == 0,
                git_commit_id: None,
                git_commit_msg: None,
                git_branch: None,
                git_dirty: None,
            },
        });
    }
}

const FOO: Ulid = Ulid { value: 0x0188_5f4d_2e9b_4d1a_9c3e_77aa_0102_0304 };
const BAR: Ulid = Ulid { value: u128::MAX };
const STATES: [State; 8] = [
    State::Queued,
    State::Building,
    State::Built,
    State::Loading,
    State::Running,
    State::Completed,
    State::Stopped,
    State::Crashed,
];

fn at(secs: i64, nanos: u32) -> Timestamp {
    Timestamp { secs: 1_650_861_813 + secs, nanos }
}

/// Two services, and a deployment of each in every state, with different updates.
fn filled() -> Both {
    let mut both = Both::new();
    both.insert_service(FOO, "foo");
    both.insert_service(BAR, "bar");
    for (i, state) in STATES.into_iter().enumerate() {
        let i = i as u32;
        both.insert_deployment(i as u128, FOO, state, at((i * 5 % 8) as i64, 0));
        both.insert_deployment(100 + i as u128, BAR, state, at((i * 3 % 8) as i64, 500_000_000));
    }
    both
}

#[test]
fn sqlite_reads_deployments_back() {
    let mut both = Both::new();
    let deployment = Deployment {
        id: Uuid { value: 0x1234_5678_9abc_def0_1234_5678_9abc_def0 },
        service_id: FOO,
        state: State::Running,
        last_update: at(0, 123_456_789),
        address: Some("10.0.0.5:12356".to_string()),
        is_next: true,
        git_commit_id: Some("0a1b2c".to_string()),
        git_commit_msg: Some("it's \"done\"; DROP".to_string()),
        git_branch: Some("main".to_string()),
        git_dirty: Some(true),
    };
    both.execute(Command::InsertDeployment { deployment: deployment.clone() });
    let id = deployment.id;
    assert_eq!(both.deployments(DeploymentQuery::WithId { id }), vec![deployment]);
    assert_eq!(both.deployments(DeploymentQuery::WithId { id: Uuid { value: 1 } }), vec![]);
}

#[test]
fn sqlite_pages_deployments() {
    let both = filled();
    for service_id in [FOO, BAR, Ulid { value: 3 }] {
        for (offset, limit) in [(0, 3), (3, 3), (6, 3), (9, 3), (0, 0), (5, u32::MAX)] {
            both.deployments(DeploymentQuery::Page { service_id, offset, limit });
        }
    }
    let all = both.deployments(DeploymentQuery::Page { service_id: FOO, offset: 0, limit: 100 });
    assert_eq!(all.len(), 8);
}

#[test]
fn sqlite_orders_fractions_of_seconds() {
    let mut both = Both::new();
    for (i, nanos) in [0, 1, 500_000_000, 999_999_999, 120_000, 120_000_001].into_iter().enumerate()
    {
        both.insert_deployment(i as u128, FOO, State::Running, at(0, nanos));
        both.insert_deployment(10 + i as u128, FOO, State::Running, at(1, nanos));
    }
    let rows = both.deployments(DeploymentQuery::Page { service_id: FOO, offset: 0, limit: 100 });
    let ids: Vec<u128> = rows.iter().map(|row| row.id.value).collect();
    assert_eq!(ids, [13, 12, 15, 14, 11, 10, 3, 2, 5, 4, 1, 0]);
}

#[test]
fn sqlite_finds_active_deployments() {
    let mut both = filled();
    let active = |both: &Both| both.deployments(DeploymentQuery::Active { service_id: FOO });
    assert_eq!(active(&both).len(), 1);

    let runnable = both.runnable(RunnableQuery::WithId { id: active(&both)[0].id });
    both.execute(Command::stop_at(&runnable[0], at(60, 0)));
    assert_eq!(active(&both), vec![]);
    both.execute(Command::stop(&runnable[0]));
    let row = &both.deployments(DeploymentQuery::WithId { id: runnable[0].id })[0];
    assert_eq!(row.state, State::Stopped);
}

#[test]
fn sqlite_joins_deployments_and_services() {
    let mut both = filled();
    both.insert_deployment(200, Ulid { value: 5 }, State::Running, at(0, 0));
    both.insert_deployment(201, Ulid { value: 5 }, State::Building, at(0, 0));
    assert_eq!(both.runnable(RunnableQuery::All).len(), 2);
    assert_eq!(both.building(BuildingQuery::All).len(), 2);
    for id in (0..8).chain(100..108).chain(200..203) {
        let id = Uuid { value: id };
        both.runnable(RunnableQuery::WithId { id });
        both.building(BuildingQuery::WithId { id });
    }
    both.execute(Command::DeleteService { service_id: FOO });
    assert_eq!(both.runnable(RunnableQuery::All).len(), 1);
    assert_eq!(both.building(BuildingQuery::All).len(), 1);
}

#[test]
fn sqlite_updates_deployments() {
    let mut both = filled();
    let id = Uuid { value: 4 };
    both.execute(Command::SetAddress { id, address: "127.0.0.1:1".to_string() });
    both.execute(Command::SetIsNext { id, is_next: false });
    both.execute(Command::UpdateDeployment {
        state: DeploymentState { id, state: State::Crashed, last_update: at(90, 1) },
    });
    both.execute(Command::SetAddress { id: Uuid { value: 77 }, address: "x".to_string() });
    let rows = both.deployments(DeploymentQuery::WithId { id });
    assert_eq!(rows[0].state, State::Crashed);
    assert_eq!(rows[0].address, Some("127.0.0.1:1".to_string()));
    assert!(!rows[0].is_next);
    both.deployments(DeploymentQuery::Page { service_id: FOO, offset: 0, limit: 100 });
    both.deployments(DeploymentQuery::Page { service_id: BAR, offset: 0, limit: 100 });
}

#[test]
fn sqlite_cleans_up_states() {
    let mut both = filled();
    both.execute(Command::CleanupInvalidStates);
    let rows = both.deployments(DeploymentQuery::Page { service_id: FOO, offset: 0, limit: 100 });
    let stopped = rows.iter().filter(|row| row.state == State::Stopped).count();
    assert_eq!(stopped, 5);
    both.deployments(DeploymentQuery::Page { service_id: BAR, offset: 0, limit: 100 });
}

#[test]
fn sqlite_finds_addresses() {
    let mut both = filled();
    both.insert_deployment(300, FOO, State::Running, at(-5, 0));
    assert_eq!(both.addresses("foo"), vec![None, None]);
    let id = Uuid { value: 300 };
    both.execute(Command::SetAddress { id, address: "10.0.0.5:12356".to_string() });
    assert_eq!(both.addresses("foo"), vec![Some("10.0.0.5:12356".to_string()), None]);
    assert_eq!(both.addresses("bar"), vec![None]);
    assert_eq!(both.addresses("baz"), Vec::<Option<String>>::new());
}

#[test]
fn sqlite_finds_services() {
    let mut both = Both::new();
    both.insert_service(FOO, "foo");
    both.insert_service(Ulid { value: 0 }, "F'oo");
    both.insert_service(Ulid { value: 1 }, "");
    both.services(ServiceQuery::All);
    for name in ["foo", "FOO", "F'oo", "", "none"] {
        both.services(ServiceQuery::Named { name: name.to_string() });
    }
    both.execute(Command::DeleteService { service_id: FOO });
    both.execute(Command::DeleteService { service_id: FOO });
    assert_eq!(both.services(ServiceQuery::All).len(), 2);
}

#[test]
fn sqlite_keeps_secrets() {
    let mut both = Both::new();
    for (i, key) in ["b", "a", "", "B", "\u{e9}", "z", "ab", "\u{1f512}", "\u{ffee}", "a"]
        .into_iter()
        .enumerate()
    {
        let value = format!("value {i}");
        both.execute(Command::store_secret_at(FOO, key, &value, at(i as i64, 0)));
    }
    both.execute(Command::store_secret(BAR, "a", "other"));
    let rows = both.secrets(FOO);
    let keys: Vec<&str> = rows.iter().map(|row| row.key.as_str()).collect();
    assert_eq!(keys, ["", "B", "a", "ab", "b", "z", "\u{e9}", "\u{ffee}", "\u{1f512}"]);
    assert_eq!(rows[2].value, "value 9");
    assert_eq!(both.secrets(BAR)[0].value, "other");
}

#[test]
fn sqlite_records_logs() {
    let mut both = filled();
    let id = Uuid { value: 0 };
    let log = |secs: i64, log_type: LogType| RecordedLog {
        id,
        timestamp: at(secs, 7),
        state: State::Loading,
        level: Level::Warn,
        file: Some("file.rs".to_string()),
        line: Some(u32::MAX),
        target: "target".to_string(),
        fields: serde_json::from_str("{\"message\": \"a \\\"quoted\\\" text\", \"n\": [1, null]}")
            .unwrap(),
        log_type,
    };
    let mut times = vec![];
    for record in [log(3, LogType::Event), log(1, LogType::State), log(2, LogType::Event)] {
        for step in record.steps() {
            both.execute(step.command);
        }
        times.push(both.logs(id).len());
    }
    assert_eq!(times, [1, 2, 3]);
    let stored = both.logs(id);
    assert_eq!(stored[0].fields, serde_json::Value::String("NEW STATE".to_string()));
    assert_eq!(stored[0].target, "");
    assert_eq!(stored[1].fields["n"][0], 1);
    assert_eq!(both.logs(Uuid { value: 1 }), vec![]);
    let row = &both.deployments(DeploymentQuery::WithId { id })[0];
    assert_eq!(row.state, State::Loading);
    assert_eq!(row.last_update, at(1, 7));
}

#[test]
fn sqlite_reads_cached_resources() {
    let mut both = Both::new();
    for (service_id, kind, config) in [
        (FOO, "database::shared::postgres", "{\"public\": true}"),
        (BAR, "secrets", "[]"),
        (FOO, "static_folder", "null"),
    ] {
        let config: serde_json::Value = serde_json::from_str(config).unwrap();
        let data = serde_json::Value::from(kind);
        let insert = "INSERT INTO resources (service_id, type, config, data) VALUES (?, ?, ?, ?)";
        let statement = Statement::new(insert)
            .bind(Param::Text(service_id.to_string()))
            .bind(Param::text(kind))
            .bind(Param::json(&config))
            .bind(Param::json(&data));
        both.runtime.block_on(bound(&statement).execute(&both.pool)).unwrap();
        both.tables.resources.push(Resource { service_id, kind: kind.to_string(), config, data });
    }
    assert_eq!(both.resources(FOO).len(), 2);
    assert_eq!(both.resources(BAR).len(), 1);
    assert_eq!(both.resources(Ulid { value: 0 }), vec![]);
}

#[test]
fn pages_are_asked_for_as_a_query_builder_would() {
    for (offset, limit) in [(0, 5), (7, 5), (1, u32::MAX)] {
        let query = DeploymentQuery::Page { service_id: FOO, offset, limit };
        let mut builder: sqlx::QueryBuilder<'_, Sqlite> =
            sqlx::QueryBuilder::new("SELECT * FROM deployments WHERE service_id = ");
        builder
            .push_bind(FOO.to_string())
            .push(" ORDER BY last_update DESC LIMIT ")
            .push_bind(limit);
        if offset > 0 {
            builder.push(" OFFSET ").push_bind(offset);
        }
        assert_eq!(query.to_sql().sql, builder.into_sql());
    }
}
