use deployer_persistence::address::{
    after_fetch, after_parse, outcome, to_address_text, AddressError, AfterFetch,
};
use deployer_persistence::command::Command;
use deployer_persistence::ids::{Timestamp, Ulid, Uuid};
use deployer_persistence::lookup::{after_insert, after_search, after_search_with, Lookup};
use deployer_persistence::persistence::Persistence;
use deployer_persistence::query::{DeploymentQuery, RunnableQuery};
use deployer_persistence::recorder::{
    next_action, report, to_broadcast, LogType, RecordAction, RecordedLog, Recording, Report,
    STATE_MESSAGE,
};
use deployer_persistence::resources::{
    after_record, record_of, to_records, AfterAnswer, AfterCache, Answer, GetResources,
    RecorderError, ResourceRecord,
};
use deployer_persistence::rows::{
    DeploymentRunnable, DeploymentState, Level, Log, Resource, Service, State,
};
use deployer_persistence::sql::{Param, Statement};
use deployer_persistence::text_order::text_before;

const SERVICE: Ulid = Ulid { value: 0x41414141414141414141414141414141 };
const SERVICE_TEXT: &str = "21850M2GA1850M2GA1850M2GA1";

#[test]
fn ulid_texts() {
    assert_eq!(SERVICE.to_string(), SERVICE_TEXT);
    assert_eq!(Ulid { value: 0 }.to_string(), "00000000000000000000000000");
    assert_eq!(Ulid { value: u128::MAX }.to_string(), "7ZZZZZZZZZZZZZZZZZZZZZZZZZ");
    assert_eq!(Ulid { value: 31 * 32 + 18 }.to_string(), "000000000000000000000000ZJ");
    for value in 0..32u128 {
        let digit = "0123456789ABCDEFGHJKMNPQRSTVWXYZ".as_bytes()[value as usize] as char;
        assert_eq!(Ulid { value }.to_string(), format!("0000000000000000000000000{digit}"));
    }
    assert_eq!(ulid::Ulid::from_string(&SERVICE.to_string()).unwrap().0, SERVICE.value);
}

#[test]
fn new_ulids_differ() {
    assert_ne!(Ulid::new(), Ulid::new());
    assert_ne!(Ulid::new(), Ulid { value: 0 });
}

#[test]
fn the_clock_goes_on() {
    // The first of January 2022.
    let past = Timestamp { secs: 1_640_995_200, nanos: 0 };
    let now = Timestamp::now();
    assert!(past.before(&now));
    assert!(now.nanos < 1_000_000_000);
    assert!(!Timestamp::now().before(&now));
    let (a, b) = (Timestamp { secs: 1, nanos: 2 }, Timestamp { secs: 1, nanos: 3 });
    assert!(a.before(&b) && !b.before(&a) && !a.before(&a));
}

#[test]
fn names_of_states_and_levels() {
    for (state, name) in [
        (State::Queued, "Queued"),
        (State::Building, "Building"),
        (State::Built, "Built"),
        (State::Loading, "Loading"),
        (State::Running, "Running"),
        (State::Completed, "Completed"),
        (State::Stopped, "Stopped"),
        (State::Crashed, "Crashed"),
    ] {
        assert_eq!(state.name(), name);
        assert_eq!(State::from_name(name), Some(state));
    }
    assert_eq!(State::from_name("running"), None);
    for (level, name) in [
        (Level::Trace, "Trace"),
        (Level::Debug, "Debug"),
        (Level::Info, "Info"),
        (Level::Warn, "Warn"),
        (Level::Error, "Error"),
    ] {
        assert_eq!(level.name(), name);
        assert_eq!(Level::from_name(name), Some(level));
    }
    assert_eq!(Level::from_name(""), None);
}

#[test]
fn order_of_texts() {
    for (a, b) in [("", "a"), ("a", "ab"), ("B", "a"), ("z", "\u{e9}"), ("\u{ffee}", "\u{1f512}")] {
        assert!(text_before(a, b));
        assert!(!text_before(b, a));
        assert!(!text_before(a, a));
    }
}

#[test]
fn statements_hold_text_and_values() {
    let state = DeploymentState {
        id: Uuid { value: 5 },
        state: State::Built,
        last_update: Timestamp { secs: 1, nanos: 2 },
    };
    assert_eq!(
        (Command::UpdateDeployment { state }).to_sql(),
        Statement {
            sql: "UPDATE deployments SET state = ?, last_update = ? WHERE id = ?".to_string(),
            values: vec![
                Param::Text("Built".to_string()),
                Param::Time(Timestamp { secs: 1, nanos: 2 }),
                Param::Uuid(Uuid { value: 5 }),
            ],
        }
    );
    assert_eq!(
        Command::CleanupInvalidStates.to_sql().values,
        ["Stopped", "Queued", "Built", "Building", "Loading"].map(Param::text)
    );
    let page = DeploymentQuery::Page { service_id: SERVICE, offset: 20, limit: 5 }.to_sql();
    assert_eq!(
        page.sql,
        "SELECT * FROM deployments WHERE service_id = ? ORDER BY last_update DESC LIMIT ? OFFSET ?"
    );
    assert_eq!(
        page.values,
        vec![Param::text(SERVICE_TEXT), Param::Number(5), Param::Number(20)]
    );
    let page = DeploymentQuery::Page { service_id: SERVICE, offset: 0, limit: 5 }.to_sql();
    assert_eq!(
        page.sql,
        "SELECT * FROM deployments WHERE service_id = ? ORDER BY last_update DESC LIMIT ?"
    );
    assert_eq!(page.values, vec![Param::text(SERVICE_TEXT), Param::Number(5)]);
    assert_eq!(
        RunnableQuery::WithId { id: Uuid { value: 5 } }.to_sql().values,
        vec![
            Param::text("Running"),
            Param::text("Stopped"),
            Param::text("Completed"),
            Param::Uuid(Uuid { value: 5 }),
        ]
    );
}

#[test]
fn stopping_and_storing_happen_now() {
    let before = Timestamp::now();
    let runnable = DeploymentRunnable {
        id: Uuid { value: 5 },
        service_name: "foo".to_string(),
        service_id: SERVICE,
        is_next: false,
    };
    match Command::stop(&runnable) {
        Command::UpdateDeployment { state } => {
            assert_eq!(state.id, runnable.id);
            assert_eq!(state.state, State::Stopped);
            assert!(!state.last_update.before(&before));
        }
        _ => panic!("a deployment is stopped by an update"),
    }
    match Command::store_secret(SERVICE, "key", "value") {
        Command::InsertSecret { secret } => {
            assert_eq!(secret.service_id, SERVICE);
            assert_eq!((secret.key.as_str(), secret.value.as_str()), ("key", "value"));
            assert!(!secret.last_update.before(&before));
        }
        _ => panic!("a secret is stored by adding it"),
    }
}

#[test]
fn lookup_takes_what_is_there() {
    let service = Service { id: SERVICE, name: "foo".to_string() };
    match after_search::<String>("foo", Ok(Some(service.clone()))) {
        Lookup::Done(result) => assert_eq!(result, Ok(service)),
        Lookup::Create(_) => panic!("the service is there"),
    }
}

#[test]
fn lookup_creates_what_is_missing() {
    let fresh = Ulid { value: 3 };
    match after_search_with::<String>("foo", Ok(None), fresh) {
        Lookup::Create(service) => {
            assert_eq!(service, Service { id: fresh, name: "foo".to_string() });
            assert_eq!(after_insert::<String>(service.clone(), Ok(())), Ok(service.clone()));
            let refused = Err("constraint".to_string());
            assert_eq!(after_insert(service, refused), Err("constraint".to_string()));
        }
        Lookup::Done(_) => panic!("there is no service"),
    }
    match after_search::<String>("foo", Ok(None)) {
        Lookup::Create(service) => assert_eq!(service.name, "foo"),
        Lookup::Done(_) => panic!("there is no service"),
    }
}

#[test]
fn lookup_passes_errors_on() {
    match after_search::<String>("foo", Err("locked".to_string())) {
        Lookup::Done(result) => assert_eq!(result, Err("locked".to_string())),
        Lookup::Create(_) => panic!("the search failed"),
    }
}

fn recorded(log_type: LogType) -> RecordedLog {
    RecordedLog {
        id: Uuid { value: 5 },
        timestamp: Timestamp { secs: 1, nanos: 2 },
        state: State::Loading,
        level: Level::Debug,
        file: Some("file.rs".to_string()),
        line: Some(5),
        target: "target".to_string(),
        fields: serde_json::Value::from("fields"),
        log_type,
    }
}

#[test]
fn recording_of_events() {
    let steps = recorded(LogType::Event).steps();
    assert_eq!(steps.len(), 1);
    assert_eq!(steps[0].failure, "failed to insert event log");
    match &steps[0].command {
        Command::InsertLog { log } => assert_eq!(
            *log,
            Log {
                id: Uuid { value: 5 },
                timestamp: Timestamp { secs: 1, nanos: 2 },
                state: State::Loading,
                level: Level::Debug,
                file: Some("file.rs".to_string()),
                line: Some(5),
                target: "target".to_string(),
                fields: serde_json::Value::from("fields"),
            }
        ),
        _ => panic!("an event is stored as a log"),
    }
}

#[test]
fn recording_of_states() {
    let steps = recorded(LogType::State).steps();
    assert_eq!(steps.len(), 2);
    assert_eq!(steps[0].failure, "failed to insert state log");
    assert_eq!(steps[1].failure, "failed to update deployment state");
    assert_eq!(STATE_MESSAGE, "NEW STATE");
    match &steps[0].command {
        Command::InsertLog { log } => {
            assert_eq!(log.target, "");
            assert_eq!(log.fields, serde_json::Value::String("NEW STATE".to_string()));
            assert_eq!((log.state, log.level, log.line), (State::Loading, Level::Debug, Some(5)));
            assert_eq!(log.file, Some("file.rs".to_string()));
        }
        _ => panic!("a change of state is stored as a log"),
    }
    match &steps[1].command {
        Command::UpdateDeployment { state } => assert_eq!(
            *state,
            DeploymentState {
                id: Uuid { value: 5 },
                state: State::Loading,
                last_update: Timestamp { secs: 1, nanos: 2 },
            }
        ),
        _ => panic!("a change of state is taken over"),
    }
}

#[test]
fn logs_are_broadcast_to_listeners_only() {
    assert_eq!(to_broadcast(recorded(LogType::State), 0), None);
    for receiver_count in [1, 2, usize::MAX] {
        let log = to_broadcast(recorded(LogType::State), receiver_count);
        assert_eq!(log, Some(recorded(LogType::State)));
    }
}

#[test]
fn failures_are_reported() {
    assert_eq!(
        report::<(), &str>(Err("locked"), "what failed"),
        Some(Report { error: "locked", message: "what failed" })
    );
    assert_eq!(report::<(), &str>(Ok(()), "what failed"), None);
}

/// Records a log, with the same outcome of each action, and tells what was done and reported.
fn run(log_type: LogType, outcome: Result<(), &'static str>) -> Vec<(&'static str, String)> {
    let mut recording = Recording::start(recorded(log_type));
    let mut taken = vec![];
    loop {
        let action = match recording.next() {
            RecordAction::Execute(step) => match step.command {
                Command::InsertLog { .. } => "insert",
                Command::UpdateDeployment { .. } => "update",
                _ => panic!("no such step"),
            },
            RecordAction::Broadcast => "broadcast",
            RecordAction::Done => return taken,
        };
        let (next, report) = recording.after(outcome);
        assert_eq!(next.log, recorded(log_type));
        let message = report.map(|report| {
            assert_eq!(report.error, "down");
            report.message.to_string()
        });
        taken.push((action, message.unwrap_or_default()));
        recording = next;
    }
}

#[test]
fn recording_ends_with_the_broadcast() {
    let nothing = String::new;
    assert_eq!(
        run(LogType::Event, Ok(())),
        [("insert", nothing()), ("broadcast", nothing())]
    );
    assert_eq!(
        run(LogType::State, Ok(())),
        [("insert", nothing()), ("update", nothing()), ("broadcast", nothing())]
    );
}

#[test]
fn recording_goes_on_after_failures() {
    assert_eq!(
        run(LogType::Event, Err("down")),
        [
            ("insert", "failed to insert event log".to_string()),
            ("broadcast", "failed to broadcast log".to_string()),
        ]
    );
    assert_eq!(
        run(LogType::State, Err("down")),
        [
            ("insert", "failed to insert state log".to_string()),
            ("update", "failed to update deployment state".to_string()),
            ("broadcast", "failed to broadcast log".to_string()),
        ]
    );
}

#[test]
fn nothing_follows_the_broadcast() {
    for taken in [3, 4, usize::MAX] {
        assert!(matches!(next_action(&recorded(LogType::State), taken), RecordAction::Done));
        let recording = Recording { log: recorded(LogType::State), taken };
        let (next, report) = recording.after::<(), &str>(Err("down"));
        assert_eq!(next.taken, taken);
        assert_eq!(report, None);
    }
    assert!(matches!(next_action(&recorded(LogType::State), 2), RecordAction::Broadcast));
    assert!(matches!(next_action(&recorded(LogType::Event), 2), RecordAction::Done));
}

fn resource() -> Resource {
    Resource {
        service_id: SERVICE,
        kind: "database::shared::postgres".to_string(),
        config: serde_json::from_str(" { \"public\" : true , \"name\" : \"h\u{e9}\" } ").unwrap(),
        data: serde_json::Value::Null,
    }
}

fn record() -> ResourceRecord {
    ResourceRecord {
        kind: "database::shared::postgres".to_string(),
        config: "{\"name\":\"h\u{e9}\",\"public\":true}".as_bytes().to_vec(),
        data: "null".as_bytes().to_vec(),
    }
}

#[test]
fn resources_are_sent_as_json_text() {
    assert_eq!(resource().to_record(), record());
    assert_eq!(to_records(&vec![resource(), resource()]), vec![record(), record()]);
    assert_eq!(
        record_of("a", "\u{e9}", ""),
        ResourceRecord { kind: "a".to_string(), config: vec![0xc3, 0xa9], data: vec![] }
    );
}

fn steps() -> GetResources {
    Persistence::new(Ulid { value: 1 }).get_resources(&SERVICE)
}

fn answer(response: &str, resource_count: usize) -> Result<Answer<String>, String> {
    Ok(Answer { response: response.to_string(), resource_count })
}

fn down(status: &str) -> Result<Answer<String>, String> {
    Err(status.to_string())
}

fn failed<T>(status: &str) -> Result<T, RecorderError<String>> {
    Err(RecorderError { status: status.to_string() })
}

#[test]
fn known_resources_stand() {
    let request = steps().request("claim");
    assert_eq!(request.message.service_id, SERVICE_TEXT);
    assert_eq!(request.claim, "claim");
    match steps().after_answer(answer("two", 2)) {
        AfterAnswer::Done(result) => assert_eq!(result, Ok("two".to_string())),
        AfterAnswer::ReadCache { .. } => panic!("the recording service knows of resources"),
    }
    match steps().after_answer(down("unavailable")) {
        AfterAnswer::Done(result) => assert_eq!(result, failed("unavailable")),
        AfterAnswer::ReadCache { .. } => panic!("the recording service failed"),
    }
}

#[test]
fn cached_resources_are_handed_over() {
    let first = match steps().after_answer(answer("none", 0)) {
        AfterAnswer::ReadCache { first, query } => {
            assert_eq!(query.service_id, SERVICE);
            first
        }
        AfterAnswer::Done(_) => panic!("the cache is not read"),
    };
    assert_eq!(first, "none");
    match steps().after_cache::<String, String, &str>(first, Ok(vec![resource()]), "claim") {
        AfterCache::HandOver(request) => {
            assert_eq!(request.message.project_id, "00000000000000000000000001");
            assert_eq!(request.message.service_id, SERVICE_TEXT);
            assert_eq!(request.message.resources, vec![record()]);
            assert_eq!(request.claim, "claim");
        }
        AfterCache::Done(_) => panic!("resources are cached"),
    }
    let again = steps().after_hand_over::<(), String, &str>(Ok(()), "claim").unwrap();
    assert_eq!(again.message.service_id, SERVICE_TEXT);
    assert_eq!(again.claim, "claim");
    assert_eq!(steps().after_second_answer(answer("one", 1)), Ok("one".to_string()));
    // The second answer stands even if it lists nothing.
    assert_eq!(steps().after_second_answer(answer("none", 0)), Ok("none".to_string()));
}

#[test]
fn failures_while_handing_over_are_passed_on() {
    let refused: Result<(), String> = Err("refused".to_string());
    assert_eq!(steps().after_hand_over(refused, "claim"), failed("refused"));
    assert_eq!(steps().after_second_answer(down("unavailable")), failed("unavailable"));
}

#[test]
fn empty_and_unreadable_caches_change_nothing() {
    let empty: Result<Vec<Resource>, String> = Ok(vec![]);
    let unreadable: Result<Vec<Resource>, String> = Err("no such table".to_string());
    for cached in [empty, unreadable] {
        match steps().after_cache("none".to_string(), cached, "claim") {
            AfterCache::Done(first) => assert_eq!(first, "none"),
            AfterCache::HandOver(_) => panic!("there is nothing to hand over"),
        }
    }
}

#[test]
fn outcomes_of_fetching_resources() {
    let cache = || -> Result<Vec<Resource>, String> { Ok(vec![resource()]) };
    let recorded = || -> Result<(), String> { Ok(()) };
    let run = |first, cached: Result<Vec<Resource>, String>, recorded: Result<(), String>, second| {
        steps().outcome(&"claim", first, cached, recorded, second)
    };
    let text = |text: &str| -> Result<String, RecorderError<String>> { Ok(text.to_string()) };

    assert_eq!(run(answer("two", 2), cache(), recorded(), answer("one", 1)), text("two"));
    assert_eq!(run(down("first"), cache(), recorded(), answer("one", 1)), failed("first"));
    assert_eq!(run(answer("none", 0), cache(), recorded(), answer("one", 1)), text("one"));
    assert_eq!(run(answer("none", 0), Ok(vec![]), recorded(), answer("one", 1)), text("none"));
    let unreadable = Err("no such table".to_string());
    assert_eq!(run(answer("none", 0), unreadable, recorded(), answer("one", 1)), text("none"));
    let refused = Err("refused".to_string());
    assert_eq!(run(answer("none", 0), cache(), refused, answer("one", 1)), failed("refused"));
    assert_eq!(run(answer("none", 0), cache(), recorded(), down("second")), failed("second"));
}

#[test]
fn requests_name_project_and_service() {
    let p = Persistence::new(Ulid { value: 1 });
    for resources in [vec![], vec![record()]] {
        let count = resources.len();
        let request = p.insert_resources(resources, &SERVICE, "claim");
        assert_eq!(request.message.project_id, "00000000000000000000000001");
        assert_eq!(request.message.service_id, SERVICE_TEXT);
        assert_eq!(request.message.resources.len(), count);
        assert!(request.message.resources.iter().all(|resource| *resource == record()));
        assert_eq!(request.claim, "claim");
    }
}

#[test]
fn answers_to_recording_are_passed_on() {
    assert_eq!(after_record::<u8, String>(Ok(7)), Ok(7));
    assert_eq!(after_record::<u8, String>(Err("refused".to_string())), failed("refused"));
}

#[test]
fn addresses_are_parsed() {
    match after_fetch::<String>(Ok(Some("10.0.0.5:12356".to_string()))) {
        Ok(AfterFetch::Parse(text)) => assert_eq!(text, "10.0.0.5:12356"),
        _ => panic!("there is an address"),
    }
    // An empty text is parsed as well, and is no address.
    match after_fetch::<String>(Ok(Some(to_address_text(None)))) {
        Ok(AfterFetch::Parse(text)) => assert_eq!(text, ""),
        _ => panic!("a deployment is running"),
    }
    assert_eq!(to_address_text(Some("10.0.0.5:1".to_string())), "10.0.0.5:1");
    assert!(matches!(after_fetch::<String>(Ok(None)), Ok(AfterFetch::Unknown)));
    assert_eq!(after_parse::<u16, String>(Ok(12356)), Ok(Some(12356)));
}

#[test]
fn addresses_that_cannot_be_told() {
    match after_fetch::<String>(Err("locked".to_string())) {
        Err(error) => assert_eq!(error, AddressError::Persistence("locked".to_string())),
        Ok(_) => panic!("the search failed"),
    }
    assert_eq!(
        after_parse::<u16, String>(Err("invalid socket address syntax".to_string())),
        Err(AddressError::Convert {
            from: "String".to_string(),
            to: "SocketAddr".to_string(),
            message: "invalid socket address syntax".to_string(),
        })
    );
}

#[test]
fn outcomes_of_address_searches() {
    let fetched = || -> Result<Option<String>, String> { Ok(Some("10.0.0.5:12356".to_string())) };
    let no_address = || -> Result<u16, String> { Err("invalid socket address syntax".to_string()) };
    assert_eq!(outcome(fetched(), Ok(12356)), Ok(Some(12356)));
    assert_eq!(outcome(Ok::<Option<String>, String>(None), no_address()), Ok(None));
    assert_eq!(
        outcome(Err("locked".to_string()), Ok(12356)),
        Err(AddressError::Persistence("locked".to_string()))
    );
    assert_eq!(
        outcome(fetched(), no_address()),
        Err(AddressError::Convert {
            from: "String".to_string(),
            to: "SocketAddr".to_string(),
            message: "invalid socket address syntax".to_string(),
        })
    );
}
