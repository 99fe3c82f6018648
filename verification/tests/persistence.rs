use chrono::TimeZone;
use deployer_persistence::address::{after_fetch, AfterFetch};
use deployer_persistence::command::Command;
use deployer_persistence::ids::{Timestamp, Ulid, Uuid};
use deployer_persistence::persistence::Persistence;
use deployer_persistence::recorder::{LogType, RecordedLog};
use deployer_persistence::rows::{
    Deployment, DeploymentBuilding, DeploymentRunnable, DeploymentState, Level, Log, Secret,
    Service, State,
};

fn new_uuid() -> Uuid {
    Uuid { value: uuid::Uuid::new_v4().as_u128() }
}

fn at(year: i32, month: u32, day: u32, hour: u32, minute: u32, second: u32) -> Timestamp {
    let time = chrono::Utc.with_ymd_and_hms(year, month, day, hour, minute, second).unwrap();
    Timestamp { secs: time.timestamp(), nanos: time.timestamp_subsec_nanos() }
}

fn message(text: &str) -> serde_json::Value {
    let mut fields = serde_json::Map::new();
    fields.insert("message".to_string(), serde_json::Value::from(text));
    serde_json::Value::Object(fields)
}

fn local(port: u16) -> String {
    format!("127.0.0.1:{port}")
}

fn deployment(service_id: Ulid, state: State, last_update: Timestamp) -> Deployment {
    Deployment {
        id: new_uuid(),
        service_id,
        state,
        last_update,
        address: None,
        is_next: false,
        git_commit_id: None,
        git_commit_msg: None,
        git_branch: None,
        git_dirty: None,
    }
}

fn add_service_named(p: &mut Persistence, name: &str) -> Ulid {
    let service_id = Ulid::new();
    let service = Service { id: service_id, name: name.to_string() };
    p.tables.execute(&Command::InsertService { service });
    service_id
}

fn add_service(p: &mut Persistence) -> Ulid {
    let name = Ulid::new().to_string();
    add_service_named(p, &name)
}

fn add_deployment(p: &mut Persistence) -> Uuid {
    let service_id = add_service(p);
    let deployment = deployment(service_id, State::Running, Timestamp::now());
    let id = deployment.id;
    p.insert_deployment(deployment);
    id
}

/// The current time, once it is later than `last`.
fn later_than(last: Timestamp) -> Timestamp {
    loop {
        let now = Timestamp::now();
        if last.before(&now) {
            return now;
        }
    }
}

#[test]
fn deployment_updates() {
    let mut p = Persistence::new_in_memory();
    let service_id = add_service(&mut p);

    let deployment = deployment(service_id, State::Queued, at(2022, 4, 25, 4, 43, 33));
    let id = deployment.id;
    let address = local(12345);

    p.insert_deployment(deployment.clone());
    assert_eq!(p.get_deployment(&id).unwrap(), deployment);

    p.update_deployment(DeploymentState {
        id,
        state: State::Built,
        last_update: Timestamp::now(),
    });

    p.set_address(&id, address.clone());
    p.set_is_next(&id, true);

    let update = p.get_deployment(&id).unwrap();
    assert_eq!(update.state, State::Built);
    assert_eq!(update.address, Some(address));
    assert!(update.is_next);
    assert_ne!(update.last_update, at(2022, 4, 25, 4, 43, 33));
}

#[test]
fn get_deployments() {
    let mut p = Persistence::new_in_memory();
    let service_id = add_service(&mut p);

    let mut last = Timestamp::now();
    let mut deployments: Vec<Deployment> = Vec::new();
    for _ in 0..10 {
        last = later_than(last);
        deployments.push(deployment(service_id, State::Running, last));
    }

    for deployment in &deployments {
        p.insert_deployment(deployment.clone());
    }

    // Reverse to match last_updated desc order
    deployments.reverse();
    assert_eq!(p.get_deployments(&service_id, 0, 5), deployments[0..5]);
    assert_eq!(p.get_deployments(&service_id, 5, 5), deployments[5..10]);
    assert_eq!(p.get_deployments(&service_id, 20, 5), vec![]);
}

#[test]
fn deployment_active() {
    let mut p = Persistence::new_in_memory();

    let xyz_id = add_service(&mut p);
    let service_id = add_service(&mut p);

    let deployment_crashed = deployment(xyz_id, State::Crashed, at(2022, 4, 25, 7, 29, 35));
    let deployment_stopped = deployment(xyz_id, State::Stopped, at(2022, 4, 25, 7, 49, 35));
    let deployment_other = deployment(service_id, State::Running, at(2022, 4, 25, 7, 39, 39));
    let deployment_running = Deployment {
        address: Some(local(9876)),
        is_next: true,
        ..deployment(xyz_id, State::Running, at(2022, 4, 25, 7, 48, 29))
    };

    for deployment in [
        &deployment_crashed,
        &deployment_stopped,
        &deployment_other,
        &deployment_running,
    ] {
        p.insert_deployment(deployment.clone());
    }

    assert_eq!(p.get_active_deployment(&xyz_id).unwrap(), deployment_running);
}

#[test]
fn deployment_order() {
    let mut p = Persistence::new_in_memory();

    let service_id = add_service(&mut p);
    let other_id = add_service(&mut p);

    let deployment_other = deployment(other_id, State::Running, at(2023, 4, 17, 1, 1, 2));
    // second
    let deployment_crashed = deployment(service_id, State::Crashed, at(2023, 4, 17, 1, 1, 2));
    // first
    let deployment_stopped = deployment(service_id, State::Stopped, at(2023, 4, 17, 1, 1, 1));
    // third
    let deployment_running = Deployment {
        address: Some(local(9876)),
        is_next: true,
        ..deployment(service_id, State::Running, at(2023, 4, 17, 1, 1, 3))
    };

    for deployment in [
        &deployment_other,
        &deployment_crashed,
        &deployment_stopped,
        &deployment_running,
    ] {
        p.insert_deployment(deployment.clone());
    }

    let actual = p.get_deployments(&service_id, 0, u32::MAX);
    let expected = vec![deployment_running, deployment_crashed, deployment_stopped];

    assert_eq!(actual, expected, "deployments should be sorted by time");
}

// Two running deployments of one service are left alone: the one that starts up last stops the
// others.
#[test]
fn cleanup_invalid_states() {
    let mut p = Persistence::new_in_memory();

    let service_id = add_service(&mut p);
    let time = Timestamp::now();
    let after = |seconds: i64| Timestamp { secs: time.secs + seconds, nanos: time.nanos };

    let deployment_crashed = deployment(service_id, State::Crashed, time);
    let deployment_stopped = deployment(service_id, State::Stopped, after(1));
    let deployment_running = Deployment {
        address: Some(local(9876)),
        ..deployment(service_id, State::Running, after(2))
    };
    let deployment_queued = deployment(service_id, State::Queued, after(3));
    let deployment_building = deployment(service_id, State::Building, after(4));
    let deployment_built = Deployment {
        is_next: true,
        ..deployment(service_id, State::Built, after(5))
    };
    let deployment_loading = deployment(service_id, State::Loading, after(6));

    for deployment in [
        &deployment_crashed,
        &deployment_stopped,
        &deployment_running,
        &deployment_queued,
        &deployment_built,
        &deployment_building,
        &deployment_loading,
    ] {
        p.insert_deployment(deployment.clone());
    }

    p.cleanup_invalid_states();

    let actual: Vec<_> = p
        .get_deployments(&service_id, 0, u32::MAX)
        .into_iter()
        .map(|deployment| (deployment.id, deployment.state))
        .collect();
    let expected = vec![
        (deployment_loading.id, State::Stopped),
        (deployment_built.id, State::Stopped),
        (deployment_building.id, State::Stopped),
        (deployment_queued.id, State::Stopped),
        (deployment_running.id, State::Running),
        (deployment_stopped.id, State::Stopped),
        (deployment_crashed.id, State::Crashed),
    ];

    assert_eq!(actual, expected, "invalid states should be moved to the stopped state");
}

#[test]
fn fetching_runnable_deployments() {
    let mut p = Persistence::new_in_memory();

    let bar_id = add_service_named(&mut p, "bar");
    let foo_id = add_service_named(&mut p, "foo");
    let service_id = add_service(&mut p);
    let service_id2 = add_service(&mut p);

    let id_1 = new_uuid();
    let id_2 = new_uuid();
    let id_3 = new_uuid();
    let id_crashed = new_uuid();

    for deployment in [
        deployment(service_id, State::Built, at(2022, 4, 25, 4, 29, 33)),
        Deployment {
            id: id_1,
            ..deployment(foo_id, State::Running, at(2022, 4, 25, 4, 29, 44))
        },
        Deployment {
            id: id_2,
            is_next: true,
            ..deployment(bar_id, State::Running, at(2022, 4, 25, 4, 33, 48))
        },
        Deployment {
            id: id_crashed,
            is_next: true,
            ..deployment(service_id2, State::Crashed, at(2022, 4, 25, 4, 38, 52))
        },
        Deployment {
            id: id_3,
            ..deployment(foo_id, State::Running, at(2022, 4, 25, 4, 42, 32))
        },
    ] {
        p.insert_deployment(deployment);
    }

    let runnable = p.get_runnable_deployment(&id_1);
    assert_eq!(
        runnable,
        Some(DeploymentRunnable {
            id: id_1,
            service_name: "foo".to_string(),
            service_id: foo_id,
            is_next: false,
        })
    );

    let runnable = p.get_runnable_deployment(&id_crashed);
    assert_eq!(runnable, None);

    let runnable = p.get_all_runnable_deployments();
    assert_eq!(
        runnable,
        [
            DeploymentRunnable {
                id: id_3,
                service_name: "foo".to_string(),
                service_id: foo_id,
                is_next: false,
            },
            DeploymentRunnable {
                id: id_2,
                service_name: "bar".to_string(),
                service_id: bar_id,
                is_next: true,
            },
            DeploymentRunnable {
                id: id_1,
                service_name: "foo".to_string(),
                service_id: foo_id,
                is_next: false,
            },
        ]
    );
}

#[test]
fn fetching_building_deployments() {
    let mut p = Persistence::new_in_memory();

    let bar_id = add_service_named(&mut p, "bar");
    let foo_id = add_service_named(&mut p, "foo");
    let service_id = add_service(&mut p);
    let service_id2 = add_service(&mut p);

    let id_1 = new_uuid();
    let id_2 = new_uuid();
    let id_3 = new_uuid();
    let id_crashed = new_uuid();

    for deployment in [
        deployment(service_id, State::Built, at(2022, 4, 25, 4, 29, 33)),
        Deployment {
            id: id_1,
            ..deployment(foo_id, State::Building, at(2022, 4, 25, 4, 29, 44))
        },
        Deployment {
            id: id_2,
            is_next: true,
            ..deployment(bar_id, State::Building, at(2022, 4, 25, 4, 33, 48))
        },
        Deployment {
            id: id_crashed,
            is_next: true,
            ..deployment(service_id2, State::Crashed, at(2022, 4, 25, 4, 38, 52))
        },
        Deployment {
            id: id_3,
            ..deployment(foo_id, State::Building, at(2022, 4, 25, 4, 42, 32))
        },
    ] {
        p.insert_deployment(deployment);
    }

    let building = p.get_building_deployment(&id_1);
    assert_eq!(
        building,
        Some(DeploymentBuilding {
            id: id_1,
            service_name: "foo".to_string(),
            service_id: foo_id,
            is_next: false,
        })
    );

    let building = p.get_building_deployment(&id_crashed);
    assert_eq!(building, None);

    let building = p.get_all_building_deployments();
    assert_eq!(
        building,
        [
            DeploymentBuilding {
                id: id_3,
                service_name: "foo".to_string(),
                service_id: foo_id,
                is_next: false,
            },
            DeploymentBuilding {
                id: id_2,
                service_name: "bar".to_string(),
                service_id: bar_id,
                is_next: true,
            },
            DeploymentBuilding {
                id: id_1,
                service_name: "foo".to_string(),
                service_id: foo_id,
                is_next: false,
            },
        ]
    );
}

#[test]
fn log_insert() {
    let mut p = Persistence::new_in_memory();
    let deployment_id = add_deployment(&mut p);

    let log = Log {
        id: deployment_id,
        timestamp: Timestamp::now(),
        state: State::Queued,
        level: Level::Info,
        file: Some("queue.rs".to_string()),
        line: Some(12),
        target: "tests::log_insert".to_string(),
        fields: message("job queued"),
    };

    p.insert_log(log.clone());

    let logs = p.get_deployment_logs(&deployment_id);
    assert!(!logs.is_empty(), "there should be one log");

    assert_eq!(logs.first().unwrap(), &log);
}

#[test]
fn logs_for_deployment() {
    let mut p = Persistence::new_in_memory();
    let deployment_a = add_deployment(&mut p);
    let deployment_b = add_deployment(&mut p);

    let log_a1 = Log {
        id: deployment_a,
        timestamp: Timestamp::now(),
        state: State::Queued,
        level: Level::Info,
        file: Some("file.rs".to_string()),
        line: Some(5),
        target: "tests::logs_for_deployment".to_string(),
        fields: message("job queued"),
    };
    let log_b = Log {
        id: deployment_b,
        timestamp: Timestamp::now(),
        state: State::Queued,
        level: Level::Info,
        file: Some("file.rs".to_string()),
        line: Some(5),
        target: "tests::logs_for_deployment".to_string(),
        fields: message("job queued"),
    };
    let log_a2 = Log {
        id: deployment_a,
        timestamp: Timestamp::now(),
        state: State::Building,
        level: Level::Warn,
        file: None,
        line: None,
        target: String::new(),
        fields: message("unused Result"),
    };

    for log in [log_a1.clone(), log_b, log_a2.clone()] {
        p.insert_log(log);
    }

    let logs = p.get_deployment_logs(&deployment_a);
    assert!(!logs.is_empty(), "there should be two logs");

    assert_eq!(logs, vec![log_a1, log_a2]);
}

#[test]
fn log_recorder_event() {
    let mut p = Persistence::new_in_memory();
    let deployment_id = add_deployment(&mut p);

    let event = RecordedLog {
        id: deployment_id,
        timestamp: Timestamp::now(),
        state: State::Queued,
        level: Level::Info,
        file: Some("file.rs".to_string()),
        line: Some(5),
        target: "tests::log_recorder_event".to_string(),
        fields: message("job queued"),
        log_type: LogType::Event,
    };

    p.record(event);

    let logs = p.get_deployment_logs(&deployment_id);

    assert!(!logs.is_empty(), "there should be one log");

    let log = logs.first().unwrap();
    assert_eq!(log.id, deployment_id);
    assert_eq!(log.state, State::Queued);
    assert_eq!(log.level, Level::Info);
    assert_eq!(log.file, Some("file.rs".to_string()));
    assert_eq!(log.line, Some(5));
    assert_eq!(log.fields, message("job queued"));
}

#[test]
fn log_recorder_state() {
    let mut p = Persistence::new_in_memory();

    let id = new_uuid();
    let service_id = add_service(&mut p);

    p.insert_deployment(Deployment {
        id,
        // Should be different from the state recorded below
        ..deployment(service_id, State::Queued, at(2022, 4, 29, 2, 39, 39))
    });
    let state = RecordedLog {
        id,
        timestamp: at(2022, 4, 29, 2, 39, 59),
        state: State::Running,
        level: Level::Info,
        file: None,
        line: None,
        target: String::new(),
        fields: serde_json::Value::Null,
        log_type: LogType::State,
    };

    p.record(state);

    let logs = p.get_deployment_logs(&id);

    assert!(!logs.is_empty(), "state change should be logged");

    let log = logs.first().unwrap();
    assert_eq!(log.id, id);
    assert_eq!(log.state, State::Running);
    assert_eq!(log.level, Level::Info);
    assert_eq!(log.fields, serde_json::Value::String("NEW STATE".to_string()));

    assert_eq!(
        p.get_deployment(&id).unwrap(),
        Deployment {
            id,
            ..deployment(service_id, State::Running, at(2022, 4, 29, 2, 39, 59))
        }
    );
}

#[test]
fn secrets() {
    let mut p = Persistence::new_in_memory();

    let service_id = add_service(&mut p);
    let service_id2 = add_service(&mut p);

    p.insert_secret(&service_id, "key1", "value1");
    p.insert_secret(&service_id2, "key2", "value2");
    p.insert_secret(&service_id, "key3", "value3");
    p.insert_secret(&service_id, "key1", "value1_updated");

    let reset = Timestamp { secs: 0, nanos: 0 };
    let actual: Vec<_> = p
        .get_secrets(&service_id)
        .into_iter()
        .map(|mut i| {
            // Reset dates for test
            i.last_update = reset;
            i
        })
        .collect();
    let expected = vec![
        Secret {
            service_id,
            key: "key1".to_string(),
            value: "value1_updated".to_string(),
            last_update: reset,
        },
        Secret {
            service_id,
            key: "key3".to_string(),
            value: "value3".to_string(),
            last_update: reset,
        },
    ];

    assert_eq!(actual, expected);
}

#[test]
fn service() {
    let mut p = Persistence::new_in_memory();

    let service = p.get_or_create_service("dummy-service");
    let service2 = p.get_or_create_service("dummy-service");

    assert_eq!(service, service2, "service should only be added once");

    let get_result = p.get_service_by_name("dummy-service").unwrap();
    assert_eq!(service, get_result);

    p.delete_service(&service.id);
    assert!(p.get_service_by_name("dummy-service").is_none());
}

#[test]
fn address_getter() {
    let mut p = Persistence::new_in_memory();
    let service_id = add_service_named(&mut p, "service-name");
    let service_other_id = add_service_named(&mut p, "other-name");

    // This running item should match
    p.insert_deployment(Deployment {
        address: Some("10.0.0.5:12356".to_string()),
        ..deployment(service_id, State::Running, Timestamp::now())
    });
    // A stopped item should not match
    p.insert_deployment(Deployment {
        address: Some("10.0.0.5:9876".to_string()),
        ..deployment(service_id, State::Stopped, Timestamp::now())
    });
    // Another service should not match
    p.insert_deployment(Deployment {
        address: Some("10.0.0.5:5678".to_string()),
        ..deployment(service_other_id, State::Running, Timestamp::now())
    });

    let next = after_fetch::<String>(Ok(p.get_address_for_service("service-name")));
    match next.unwrap() {
        AfterFetch::Parse(text) => assert_eq!(text, "10.0.0.5:12356"),
        AfterFetch::Unknown => panic!("the service is running"),
    }
}

#[test]
fn active_deployment_getter() {
    let mut p = Persistence::new_in_memory();
    let service_id = add_service_named(&mut p, "service-name");
    let id_1 = new_uuid();
    let id_2 = new_uuid();

    for deployment in [
        deployment(service_id, State::Built, at(2022, 4, 25, 4, 29, 33)),
        deployment(service_id, State::Stopped, at(2022, 4, 25, 4, 29, 44)),
        Deployment {
            id: id_1,
            ..deployment(service_id, State::Running, at(2022, 4, 25, 4, 33, 48))
        },
        deployment(service_id, State::Crashed, at(2022, 4, 25, 4, 38, 52)),
        Deployment {
            id: id_2,
            is_next: true,
            ..deployment(service_id, State::Running, at(2022, 4, 25, 4, 42, 32))
        },
    ] {
        p.insert_deployment(deployment);
    }

    let actual = p.get_active_deployments(&service_id);

    assert_eq!(actual, vec![id_1, id_2]);
}

#[test]
fn stopped_deployment_is_no_longer_active() {
    let mut p = Persistence::new_in_memory();
    let service_id = add_service_named(&mut p, "service-name");
    let first = deployment(service_id, State::Running, at(2022, 4, 25, 4, 33, 48));
    let second = deployment(service_id, State::Running, at(2022, 4, 25, 4, 42, 32));
    p.insert_deployment(first.clone());
    p.insert_deployment(second.clone());

    let before = Timestamp::now();
    let listed = p.get_runnable_deployment(&first.id).unwrap();
    assert!(p.get_all_runnable_deployments().contains(&listed));
    p.stop_running_deployment(listed.clone());

    assert_eq!(p.get_active_deployments(&service_id), vec![second.id]);
    assert_eq!(p.get_active_deployment(&service_id), Some(second));
    let stopped = p.get_deployment(&first.id).unwrap();
    assert_eq!(stopped.state, State::Stopped);
    assert!(!stopped.last_update.before(&before));
    // A stopped deployment can be started again, but is not listed among the running ones.
    assert_eq!(p.get_runnable_deployment(&first.id), Some(listed.clone()));
    assert!(!p.get_all_runnable_deployments().contains(&listed));
    assert_eq!(p.get_all_runnable_deployments().len(), 1);
}

#[test]
fn stopping_at_a_time() {
    let mut p = Persistence::new_in_memory();
    let service_id = add_service_named(&mut p, "service-name");
    let row = deployment(service_id, State::Running, at(2022, 4, 25, 4, 33, 48));
    p.insert_deployment(row.clone());

    let now = at(2022, 4, 26, 0, 0, 0);
    let runnable = p.get_runnable_deployment(&row.id).unwrap();
    p.stop_running_deployment_at(runnable, now);

    assert_eq!(
        p.get_deployment(&row.id),
        Some(Deployment { state: State::Stopped, last_update: now, ..row })
    );
}

#[test]
fn updates_of_unknown_deployments_change_nothing() {
    let mut p = Persistence::new_in_memory();
    let service_id = add_service(&mut p);
    let row = deployment(service_id, State::Queued, at(2022, 4, 25, 4, 33, 48));
    p.insert_deployment(row.clone());

    let unknown = new_uuid();
    p.set_address(&unknown, local(1));
    p.set_is_next(&unknown, true);
    p.update_deployment(DeploymentState {
        id: unknown,
        state: State::Crashed,
        last_update: Timestamp::now(),
    });

    assert_eq!(p.get_deployment(&unknown), None);
    assert_eq!(p.get_deployments(&service_id, 0, 10), vec![row]);
}

#[test]
fn pages_at_their_edges() {
    let mut p = Persistence::new_in_memory();
    let service_id = add_service(&mut p);
    let rows: Vec<Deployment> = (0..3)
        .map(|i| deployment(service_id, State::Stopped, at(2023, 1, 1, 0, 0, i)))
        .collect();
    for row in &rows {
        p.insert_deployment(row.clone());
    }

    assert_eq!(p.get_deployments(&service_id, 0, 0), vec![]);
    assert_eq!(p.get_deployments(&service_id, 2, u32::MAX), vec![rows[0].clone()]);
    assert_eq!(p.get_deployments(&service_id, 3, 1), vec![]);
    assert_eq!(p.get_deployments(&service_id, u32::MAX, u32::MAX), vec![]);

    let mut pages = p.get_deployments(&service_id, 0, 2);
    pages.extend(p.get_deployments(&service_id, 2, 2));
    assert_eq!(pages, p.get_deployments(&service_id, 0, 4));
}

#[test]
fn cleanup_twice_is_cleanup_once() {
    let mut p = Persistence::new_in_memory();
    let service_id = add_service(&mut p);
    for state in [State::Queued, State::Running, State::Completed] {
        p.insert_deployment(deployment(service_id, state, at(2023, 1, 1, 0, 0, 0)));
    }
    let active = p.get_active_deployments(&service_id);
    p.cleanup_invalid_states();
    let once = p.get_deployments(&service_id, 0, 10);
    p.cleanup_invalid_states();
    assert_eq!(p.get_deployments(&service_id, 0, 10), once);
    assert_eq!(p.get_active_deployments(&service_id), active);
    let states: Vec<State> = once.iter().map(|row| row.state).collect();
    assert_eq!(states, vec![State::Stopped, State::Running, State::Completed]);
}

#[test]
fn runnable_and_building_states() {
    let mut p = Persistence::new_in_memory();
    let service_id = add_service_named(&mut p, "foo");
    for (state, runnable, building) in [
        (State::Queued, false, false),
        (State::Building, false, true),
        (State::Built, false, false),
        (State::Loading, false, false),
        (State::Running, true, false),
        (State::Completed, true, false),
        (State::Stopped, true, false),
        (State::Crashed, false, false),
    ] {
        let row = deployment(service_id, state, at(2023, 1, 1, 0, 0, 0));
        p.insert_deployment(row.clone());
        assert_eq!(p.get_runnable_deployment(&row.id).is_some(), runnable);
        assert_eq!(p.get_building_deployment(&row.id).is_some(), building);
    }
    assert_eq!(p.get_all_runnable_deployments().len(), 1);
    assert_eq!(p.get_all_building_deployments().len(), 1);
}

#[test]
fn deployments_of_removed_services_are_not_runnable() {
    let mut p = Persistence::new_in_memory();
    let service_id = add_service_named(&mut p, "foo");
    let row = deployment(service_id, State::Running, at(2023, 1, 1, 0, 0, 0));
    p.insert_deployment(row.clone());
    assert_eq!(p.get_all_runnable_deployments().len(), 1);

    p.delete_service(&service_id);

    assert_eq!(p.get_all_runnable_deployments(), []);
    assert_eq!(p.get_runnable_deployment(&row.id), None);
    assert_eq!(p.get_address_for_service("foo"), None);
    // The deployment itself stays.
    assert_eq!(p.get_deployment(&row.id), Some(row));
}

#[test]
fn services_are_kept_apart_by_name() {
    let mut p = Persistence::new_in_memory();
    let foo = p.get_or_create_service("foo");
    let bar = p.get_or_create_service("bar");
    assert_ne!(foo.id, bar.id);
    assert_eq!(foo.name, "foo");
    assert_eq!(p.get_all_services(), vec![foo.clone(), bar.clone()]);

    p.delete_service(&foo.id);
    assert_eq!(p.get_service_by_name("foo"), None);
    assert_eq!(p.get_service_by_name("bar"), Some(bar.clone()));
    assert_eq!(p.get_all_services(), vec![bar]);

    let fresh = Ulid { value: 7 };
    let again = p.get_or_create_service_with("foo", fresh);
    assert_eq!(again, Service { id: fresh, name: "foo".to_string() });
    assert_eq!(p.get_or_create_service_with("foo", Ulid { value: 8 }), again);
}

#[test]
fn address_of_services() {
    let mut p = Persistence::new_in_memory();
    assert_eq!(p.get_address_for_service("foo"), None);

    let service_id = add_service_named(&mut p, "foo");
    assert_eq!(p.get_address_for_service("foo"), None);

    // Of several running deployments the one with the earliest update counts.
    let late = Deployment {
        address: Some(local(2)),
        ..deployment(service_id, State::Running, at(2023, 1, 1, 0, 0, 2))
    };
    let early = deployment(service_id, State::Running, at(2023, 1, 1, 0, 0, 1));
    p.insert_deployment(late.clone());
    assert_eq!(p.get_address_for_service("foo"), Some(local(2)));
    p.insert_deployment(early.clone());
    // Without an address its text is empty.
    assert_eq!(p.get_address_for_service("foo"), Some(String::new()));
    p.set_address(&early.id, local(1));
    assert_eq!(p.get_address_for_service("foo"), Some(local(1)));
    p.set_address(&late.id, local(3));
    assert_eq!(p.get_address_for_service("foo"), Some(local(1)));
}

#[test]
fn secrets_by_key() {
    let mut p = Persistence::new_in_memory();
    let service_id = add_service(&mut p);
    let other_id = add_service(&mut p);
    let time = at(2023, 1, 1, 0, 0, 0);

    for key in ["b", "", "ab", "a", "B", "\u{e9}", "z"] {
        p.insert_secret_at(&service_id, key, "value", time);
    }
    p.insert_secret_at(&other_id, "a", "other", time);

    let keys: Vec<String> = p.get_secrets(&service_id).into_iter().map(|row| row.key).collect();
    assert_eq!(keys, ["", "B", "a", "ab", "b", "z", "\u{e9}"]);
    assert_eq!(
        p.get_secrets(&other_id),
        vec![Secret {
            service_id: other_id,
            key: "a".to_string(),
            value: "other".to_string(),
            last_update: time,
        }]
    );
    assert_eq!(p.get_secrets(&Ulid { value: 0 }), vec![]);
}

#[test]
fn last_secret_wins() {
    let time = at(2023, 1, 1, 0, 0, 0);
    let service_id = Ulid { value: 1 };

    let mut twice = Persistence::new(Ulid { value: 9 });
    twice.insert_secret_at(&service_id, "key", "first", time);
    twice.insert_secret_at(&service_id, "key", "second", time);
    let mut once = Persistence::new(Ulid { value: 9 });
    once.insert_secret_at(&service_id, "key", "second", time);

    assert_eq!(twice.get_secrets(&service_id), once.get_secrets(&service_id));
    assert_eq!(once.get_secrets(&service_id).len(), 1);
    assert_eq!(once.get_secrets(&service_id)[0].value, "second");
}

#[test]
fn logs_come_earliest_first() {
    let mut p = Persistence::new_in_memory();
    let id = new_uuid();
    let log = |second: u32, target: &str| Log {
        id,
        timestamp: at(2023, 1, 1, 0, 0, second),
        state: State::Running,
        level: Level::Error,
        file: None,
        line: None,
        target: target.to_string(),
        fields: serde_json::Value::Null,
    };
    for row in [log(2, "c"), log(1, "a"), log(2, "d"), log(1, "b")] {
        p.insert_log(row);
    }
    let targets: Vec<String> =
        p.get_deployment_logs(&id).into_iter().map(|row| row.target).collect();
    assert_eq!(targets, ["a", "b", "c", "d"]);
}

#[test]
fn project_and_empty_tables() {
    let project_id = Ulid { value: 42 };
    let p = Persistence::new(project_id);
    assert_eq!(p.project_id(), project_id);
    assert_eq!(p.get_all_services(), vec![]);
    assert_eq!(p.get_deployment(&new_uuid()), None);
    assert_eq!(p.get_active_deployment(&project_id), None);
    assert_eq!(p.get_active_deployments(&project_id), vec![]);
    assert_eq!(p.get_all_runnable_deployments(), []);
    assert_eq!(p.get_all_building_deployments(), []);
    assert_eq!(p.get_deployment_logs(&new_uuid()), vec![]);
    assert_eq!(p.cached_resources(&project_id), vec![]);
}

#[test]
fn listed_deployments_are_found_by_their_identifiers() {
    let mut p = Persistence::new_in_memory();
    let foo = add_service_named(&mut p, "foo");
    let bar = add_service_named(&mut p, "bar");
    for (second, service_id) in [(1, foo), (2, bar), (3, foo)] {
        for state in [State::Running, State::Building, State::Completed] {
            p.insert_deployment(deployment(service_id, state, at(2023, 1, 1, 0, 0, second)));
        }
    }

    let runnable = p.get_all_runnable_deployments();
    assert_eq!(runnable.len(), 3);
    for row in runnable {
        assert_eq!(p.get_building_deployment(&row.id), None);
        assert_eq!(p.get_runnable_deployment(&row.id), Some(row));
    }
    let building = p.get_all_building_deployments();
    assert_eq!(building.len(), 3);
    for row in building {
        assert_eq!(p.get_runnable_deployment(&row.id), None);
        assert_eq!(p.get_building_deployment(&row.id), Some(row));
    }
    let active = p.get_active_deployment(&foo).unwrap();
    assert_eq!(p.get_deployment(&active.id), Some(active.clone()));
    assert_eq!(p.get_active_deployments(&foo).len(), 2);
    assert!(p.get_active_deployments(&foo).contains(&active.id));
}
