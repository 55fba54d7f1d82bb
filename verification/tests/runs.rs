use cloud_sql_tracker::commands::mutate::{
    adc_env_or_failure, check_message, restart, start, stop, Batch, Event, Stage, TargetOutcome,
    TargetResult, TargetState,
};
use cloud_sql_tracker::commands::select::Selector;
use cloud_sql_tracker::commands::status::StatusCommandError;
use cloud_sql_tracker::config::Config;
use cloud_sql_tracker::env::{Credentials, ProxyBinError};
use cloud_sql_tracker::model::{
    Connection, ErrorCode, HealthState, Source, StatusError, StatusRow,
};
use cloud_sql_tracker::supervisor::{
    CallError, EnvVar, ExecOutcome, SupervisorError, UnitActiveState, UnitResult, UnitSnapshot,
    SERVICE_UNKNOWN,
};

fn connection(id: &str, enabled: bool) -> Connection {
    Connection {
        id: id.to_string(),
        name: id.to_string(),
        group: "fe".to_string(),
        instance: "proj:region:inst".to_string(),
        address: "127.0.0.1".to_string(),
        port: 15432,
        private_ip: false,
        auto_iam_authn: false,
        extra_args: Vec::new(),
        enabled,
    }
}

fn config(ids: &[&str]) -> Config {
    Config {
        proxy_bin: "cloud-sql-proxy".to_string(),
        connections: ids.iter().map(|id| connection(id, true)).collect(),
    }
}

fn row(state: HealthState, source: Source, error: Option<StatusError>) -> StatusRow {
    StatusRow {
        id: "a".to_string(),
        name: "a".to_string(),
        group: "fe".to_string(),
        instance: "proj:region:inst".to_string(),
        address: "127.0.0.1".to_string(),
        port: 15432,
        private_ip: false,
        enabled: true,
        state,
        source,
        pid: None,
        unit: None,
        port_open: state == HealthState::Running,
        uptime_sec: None,
        error,
    }
}

fn stopped() -> Event {
    Event::Observed(Ok(row(HealthState::Stopped, Source::NoUnit, None)))
}

fn starting() -> Event {
    Event::Observed(Ok(row(HealthState::Starting, Source::Unit, None)))
}

fn running() -> Event {
    Event::Observed(Ok(row(HealthState::Running, Source::Unit, None)))
}

fn failed(code: ErrorCode) -> Event {
    Event::Observed(Ok(row(
        HealthState::Error,
        Source::NoUnit,
        Some(StatusError {
            code,
            detail: "why".to_string(),
        }),
    )))
}

fn credentials(readable: bool) -> Event {
    Event::Credentials(Credentials {
        home: Some("/home/me".to_string()),
        gac_env: None,
        readable,
        exists: readable,
    })
}

fn loaded() -> Event {
    Event::UnitShown(Ok(UnitSnapshot::Loaded {
        active_state: UnitActiveState::Inactive,
        sub_state: "dead".to_string(),
        main_pid: None,
        result: UnitResult::Success,
        exec_outcome: ExecOutcome::NotExited,
        started_at_monotonic_usec: None,
    }))
}

fn absent() -> Event {
    Event::UnitShown(Ok(UnitSnapshot::Absent))
}

fn bus_down() -> SupervisorError {
    SupervisorError::Bus {
        detail: "no bus".to_string(),
    }
}

fn stage(batch: &Batch, index: usize) -> &Stage {
    match &batch.runs[index].state {
        TargetState::Waiting(stage) => stage,
        state => panic!("the run does not wait: {state:?}"),
    }
}

fn only_result(batch: &Batch) -> TargetResult {
    let outcome = batch.outcome();
    assert_eq!(outcome.targets.len(), 1);
    outcome.targets[0].result.clone()
}

fn outcome_ids(batch: &Batch) -> Vec<String> {
    batch
        .outcome()
        .targets
        .into_iter()
        .map(|target| target.id)
        .collect()
}

fn start_one() -> Batch {
    start(&config(&["a"]), &Selector::All, 1_000).expect("All always resolves")
}

fn stop_one() -> Batch {
    stop(&config(&["a"]), &Selector::All, 1_000).expect("All always resolves")
}

fn restart_one() -> Batch {
    restart(&config(&["a"]), &Selector::All, 1_000, false).expect("All always resolves")
}

#[test]
fn a_start_goes_from_observation_to_confirmation() {
    let mut batch = start_one();
    assert_eq!(*stage(&batch, 0), Stage::CheckBeforeStart);
    batch.advance(0, stopped(), 0);
    assert_eq!(*stage(&batch, 0), Stage::FindProxyBin);
    batch.advance(0, Event::ProxyBin(Ok("/bin/p".to_string())), 0);
    batch.advance(0, credentials(true), 0);
    match stage(&batch, 0) {
        Stage::StartUnit { unit } => {
            assert_eq!(unit.unit.as_str(), "cloud-sql-proxy-a.service");
            assert_eq!(unit.description, "Cloud SQL Auth Proxy (a)");
            assert_eq!(unit.program, "/bin/p");
            assert_eq!(unit.argv[0], "/bin/p");
            assert_eq!(unit.service_type, "exec");
            assert_eq!(unit.kill_mode, "control-group");
            assert_eq!(unit.restart, "no");
            assert_eq!(unit.timeout_stop_usec, 30_000_000);
            assert_eq!(
                unit.environment,
                vec![
                    "HOME=/home/me",
                    "GOOGLE_APPLICATION_CREDENTIALS=/home/me/.config/gcloud/application_default_credentials.json",
                ]
            );
        }
        stage => panic!("unexpected stage: {stage:?}"),
    }
    batch.advance(0, Event::UnitStarted(Ok(())), 5);
    assert_eq!(
        *stage(&batch, 0),
        Stage::StartPoll {
            deadline: 1_000_000_005
        }
    );
    batch.advance(0, starting(), 100_000_005);
    assert_eq!(
        *stage(&batch, 0),
        Stage::StartPause {
            deadline: 1_000_000_005,
            nanos: 200_000_000
        }
    );
    batch.advance(0, Event::Woke, 300_000_005);
    batch.advance(0, running(), 300_000_006);
    assert_eq!(only_result(&batch), TargetResult::Succeeded);
    assert_eq!(batch.next_waiting(), None);
}

#[test]
fn a_start_settles_at_once_where_there_is_nothing_to_start() {
    let mut batch = start_one();
    batch.advance(0, running(), 0);
    assert_eq!(only_result(&batch), TargetResult::Succeeded);
    let mut batch = start_one();
    batch.advance(0, failed(ErrorCode::PortInUse), 0);
    assert_eq!(
        only_result(&batch),
        TargetResult::Failed {
            code: ErrorCode::PortInUse,
            message: "why".to_string()
        }
    );
}

#[test]
fn a_start_under_way_is_waited_for_and_not_repeated() {
    let mut batch = start_one();
    batch.advance(0, starting(), 7);
    assert_eq!(
        *stage(&batch, 0),
        Stage::StartPoll {
            deadline: 1_000_000_007
        }
    );
}

#[test]
fn a_failed_unit_is_started_again() {
    let mut batch = start_one();
    batch.advance(0, failed(ErrorCode::UnitFailed), 0);
    assert_eq!(*stage(&batch, 0), Stage::FindProxyBin);
}

#[test]
fn a_start_needs_the_binary_and_credentials() {
    let mut batch = start_one();
    batch.advance(0, stopped(), 0);
    batch.advance(
        0,
        Event::ProxyBin(Err(ProxyBinError::NotFound {
            name: "cloud-sql-proxy".to_string(),
        })),
        0,
    );
    assert_eq!(
        only_result(&batch),
        TargetResult::Dependency {
            message: "cloud-sql-proxy not found on PATH (Install cloud-sql-proxy, or set \"proxy_bin\" in connections.json to its absolute path.)".to_string()
        }
    );
    let mut batch = start_one();
    batch.advance(0, stopped(), 0);
    batch.advance(0, Event::ProxyBin(Ok("/bin/p".to_string())), 0);
    batch.advance(0, credentials(false), 0);
    assert!(matches!(
        only_result(&batch),
        TargetResult::Failed {
            code: ErrorCode::Auth,
            ..
        }
    ));
}

#[test]
fn a_start_fails_when_systemd_does_and_when_time_is_over() {
    let mut batch = start_one();
    batch.advance(0, stopped(), 0);
    batch.advance(0, Event::ProxyBin(Ok("/bin/p".to_string())), 0);
    batch.advance(0, credentials(true), 0);
    batch.advance(
        0,
        Event::UnitStarted(Err(SupervisorError::Call(CallError {
            name: None,
            detail: "UnitExists".to_string(),
        }))),
        0,
    );
    assert_eq!(
        only_result(&batch),
        TargetResult::Failed {
            code: ErrorCode::Unknown,
            message: "systemd D-Bus call failed: UnitExists".to_string()
        }
    );
    let mut batch = start_one();
    batch.advance(0, starting(), 0);
    batch.advance(0, starting(), 999_999_999);
    assert_eq!(
        *stage(&batch, 0),
        Stage::StartPause {
            deadline: 1_000_000_000,
            nanos: 1
        }
    );
    batch.advance(0, Event::Woke, 1_000_000_000);
    batch.advance(0, starting(), 1_000_000_000);
    assert_eq!(
        only_result(&batch),
        TargetResult::Failed {
            code: ErrorCode::StartTimeout,
            message: "connection `a` did not confirm within 1000ms".to_string()
        }
    );
}

#[test]
fn a_missing_user_manager_is_a_failure_of_the_environment() {
    let mut batch = start_one();
    batch.advance(
        0,
        Event::Observed(Err(StatusCommandError::Supervisor {
            id: "a".to_string(),
            source: SupervisorError::Call(CallError {
                name: Some(SERVICE_UNKNOWN.to_string()),
                detail: "nobody".to_string(),
            }),
        })),
        0,
    );
    assert_eq!(
        only_result(&batch),
        TargetResult::Dependency {
            message: "systemd D-Bus call failed: nobody".to_string()
        }
    );
}

#[test]
fn a_stop_waits_until_the_unit_is_unloaded() {
    let mut batch = stop_one();
    batch.advance(0, running(), 0);
    match stage(&batch, 0) {
        Stage::StopUnit { unit, then_start } => {
            assert_eq!(unit.as_str(), "cloud-sql-proxy-a.service");
            assert!(!then_start);
        }
        stage => panic!("unexpected stage: {stage:?}"),
    }
    batch.advance(0, Event::UnitStopped(Ok(())), 0);
    batch.advance(0, loaded(), 10);
    assert!(matches!(stage(&batch, 0), Stage::StopPause { .. }));
    batch.advance(0, Event::Woke, 200_000_010);
    batch.advance(0, absent(), 200_000_011);
    assert_eq!(only_result(&batch), TargetResult::Succeeded);
}

#[test]
fn a_stop_gives_up_at_its_deadline() {
    let mut batch = stop_one();
    batch.advance(0, running(), 0);
    batch.advance(0, Event::UnitStopped(Ok(())), 0);
    batch.advance(0, loaded(), 1_000_000_000);
    assert_eq!(
        only_result(&batch),
        TargetResult::Failed {
            code: ErrorCode::Unknown,
            message: "unit `cloud-sql-proxy-a.service` did not finish stopping within 1000ms"
                .to_string()
        }
    );
}

#[test]
fn a_stop_of_a_stopped_connection_asks_for_nothing() {
    let mut batch = stop_one();
    batch.advance(0, stopped(), 0);
    assert_eq!(only_result(&batch), TargetResult::Succeeded);
}

#[test]
fn a_disabled_connection_is_stopped_like_any_other() {
    let mut config = config(&[]);
    config.connections.push(connection("a", false));
    let batch = stop(&config, &Selector::All, 1_000).expect("All always resolves");
    assert_eq!(*stage(&batch, 0), Stage::CheckBeforeStop);
}

#[test]
fn a_restart_stops_first_and_starts_only_an_unloaded_unit() {
    let mut batch = restart_one();
    assert!(matches!(
        stage(&batch, 0),
        Stage::StopUnit {
            then_start: true,
            ..
        }
    ));
    batch.advance(0, Event::UnitStopped(Ok(())), 0);
    batch.advance(0, loaded(), 0);
    assert!(matches!(stage(&batch, 0), Stage::StopPause { .. }));
    batch.advance(0, Event::Woke, 0);
    batch.advance(0, absent(), 0);
    assert_eq!(*stage(&batch, 0), Stage::CheckBeforeStart);
}

#[test]
fn a_restart_whose_stop_fails_does_not_start() {
    let mut batch = restart_one();
    batch.advance(0, Event::UnitStopped(Err(bus_down())), 0);
    assert_eq!(
        only_result(&batch),
        TargetResult::Dependency {
            message: "could not reach the systemd user bus: no bus".to_string()
        }
    );
    batch.advance(0, absent(), 0);
    assert_eq!(batch.outcome().targets.len(), 1);
    assert_eq!(batch.next_waiting(), None);
}

#[test]
fn an_id_without_a_unit_name_cannot_be_stopped() {
    let batch =
        restart(&config(&["---"]), &Selector::All, 1_000, false).expect("All always resolves");
    assert_eq!(
        only_result(&batch),
        TargetResult::Failed {
            code: ErrorCode::Config,
            message: "connection id sanitizes to an empty unit name".to_string()
        }
    );
}

#[test]
fn ids_that_differ_in_dashes_have_units_of_their_own() {
    let batch = restart(
        &config(&["a", "a-", "a-b", "a--b"]),
        &Selector::All,
        1_000,
        false,
    )
    .expect("All always resolves");
    let units: Vec<&str> = (0..4)
        .map(|index| match stage(&batch, index) {
            Stage::StopUnit { unit, .. } => unit.as_str(),
            stage => panic!("unexpected stage: {stage:?}"),
        })
        .collect();
    assert_eq!(
        units,
        vec![
            "cloud-sql-proxy-a.service",
            "cloud-sql-proxy-a-.service",
            "cloud-sql-proxy-a-b.service",
            "cloud-sql-proxy-a--b.service",
        ]
    );
}

#[test]
fn an_event_of_another_kind_changes_nothing() {
    let mut batch = start_one();
    batch.advance(0, Event::Woke, 0);
    batch.advance(0, absent(), 0);
    batch.advance(0, credentials(true), 0);
    assert_eq!(*stage(&batch, 0), Stage::CheckBeforeStart);
}

#[test]
fn one_failure_does_not_touch_the_other_targets() {
    let mut batch =
        start(&config(&["a", "b", "c"]), &Selector::All, 1_000).expect("All always resolves");
    assert_eq!(batch.next_waiting(), Some(0));
    batch.advance(0, running(), 0);
    assert_eq!(batch.next_waiting(), Some(1));
    batch.advance(1, failed(ErrorCode::PortInUse), 0);
    assert_eq!(batch.next_waiting(), Some(2));
    batch.advance(2, running(), 0);
    assert_eq!(outcome_ids(&batch), vec!["a", "b", "c"]);
    assert_eq!(batch.outcome().succeeded_count(), 2);
    assert_eq!(batch.outcome().failed_count(), 1);
}

#[test]
fn a_finished_start_has_one_outcome_per_connection() {
    let mut config = config(&["c", "a", "b"]);
    config.connections[1].enabled = false;
    let mut batch = start(&config, &Selector::All, 1_000).expect("All always resolves");
    batch.advance(2, running(), 0);
    assert_eq!(outcome_ids(&batch), vec!["a", "b"]);
    assert_eq!(batch.next_waiting(), Some(0));
    batch.advance(0, stopped(), 0);
    batch.advance(
        0,
        Event::ProxyBin(Err(ProxyBinError::NotFound {
            name: "cloud-sql-proxy".to_string(),
        })),
        0,
    );
    assert_eq!(batch.next_waiting(), None);
    assert_eq!(outcome_ids(&batch), vec!["c", "a", "b"]);
}

#[test]
fn a_finished_stop_has_one_outcome_per_connection() {
    let mut batch =
        stop(&config(&["b", "a"]), &Selector::All, 1_000).expect("All always resolves");
    batch.advance(1, stopped(), 0);
    batch.advance(0, running(), 0);
    batch.advance(0, Event::UnitStopped(Err(bus_down())), 0);
    assert_eq!(batch.next_waiting(), None);
    assert_eq!(outcome_ids(&batch), vec!["b", "a"]);
}

#[test]
fn a_finished_restart_has_one_outcome_per_connection() {
    let mut batch = restart(&config(&["b", "---", "a"]), &Selector::All, 1_000, false)
        .expect("All always resolves");
    batch.advance(2, Event::UnitStopped(Err(bus_down())), 0);
    batch.advance(0, Event::UnitStopped(Ok(())), 0);
    batch.advance(0, absent(), 0);
    assert_eq!(outcome_ids(&batch), vec!["---", "a"]);
    batch.advance(0, running(), 0);
    assert_eq!(batch.next_waiting(), None);
    assert_eq!(outcome_ids(&batch), vec!["b", "---", "a"]);
}

#[test]
fn only_failed_connections_are_restarted_and_order_is_kept() {
    let mut config = config(&["a", "b", "c", "d"]);
    config.connections[2].enabled = false;
    let mut batch = restart(&config, &Selector::All, 1_000, true).expect("All always resolves");
    for index in [0, 1, 3] {
        assert_eq!(*stage(&batch, index), Stage::Gather);
    }
    batch.advance(0, running(), 0);
    batch.advance(1, failed(ErrorCode::UnitFailed), 0);
    batch.advance(
        3,
        Event::Observed(Err(StatusCommandError::Supervisor {
            id: "d".to_string(),
            source: bus_down(),
        })),
        0,
    );
    assert_eq!(batch.next_waiting(), None);
    let mut batch = batch.restart_failed_only();
    assert_eq!(batch.runs[0].state, TargetState::LeftAlone);
    assert_eq!(batch.next_waiting(), Some(1));
    batch.advance(1, Event::UnitStopped(Ok(())), 0);
    batch.advance(1, absent(), 0);
    batch.advance(1, running(), 0);
    assert_eq!(
        batch.outcome().targets,
        vec![
            TargetOutcome {
                id: "b".to_string(),
                result: TargetResult::Succeeded
            },
            TargetOutcome {
                id: "c".to_string(),
                result: TargetResult::SkippedDisabled
            },
            TargetOutcome {
                id: "d".to_string(),
                result: TargetResult::Dependency {
                    message: "could not reach the systemd user bus: no bus".to_string()
                }
            },
        ]
    );
}

#[test]
fn the_environment_is_handed_on_as_it_is() {
    let with_key = Credentials {
        home: None,
        gac_env: Some("/keys/key.json".to_string()),
        readable: true,
        exists: true,
    };
    assert_eq!(
        adc_env_or_failure(&with_key),
        Ok(vec![EnvVar {
            name: "GOOGLE_APPLICATION_CREDENTIALS".to_string(),
            value: "/keys/key.json".to_string()
        }])
    );
    assert_eq!(check_message("a", Some("b")), "a (b)");
    assert_eq!(check_message("a", None), "a");
}
