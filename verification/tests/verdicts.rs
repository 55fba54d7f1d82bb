use cloud_sql_tracker::clock::Timestamp;
use cloud_sql_tracker::model::{
    Connection, ErrorCode, HealthState, PortObservation, PortProbe, Source,
};
use cloud_sql_tracker::reconcile::{
    failure_detail, listener_matches_unit, reconcile, uptime_since, within_start_window,
    FailureKind, FailureSignal, Observation, UnitObservation, UnitResult, UnitState,
};

fn connection(enabled: bool) -> Connection {
    Connection {
        id: "fe-dev".to_string(),
        name: "Frontend".to_string(),
        group: "fe".to_string(),
        instance: "proj:region:inst".to_string(),
        address: "127.0.0.1".to_string(),
        port: 15432,
        private_ip: true,
        auto_iam_authn: false,
        extra_args: Vec::new(),
        enabled,
    }
}

fn now() -> Timestamp {
    Timestamp::new(1_000_000, 500_000_000)
}

fn failed(result: UnitResult, exec_main_status: i32) -> UnitState {
    UnitState::Failed(FailureSignal {
        result,
        exec_main_status,
    })
}

/// Every combination of the signals that the truth table tells apart.
fn observations() -> Vec<Observation> {
    let mut all = Vec::new();
    for state in [
        UnitState::Idle,
        UnitState::Activating,
        UnitState::Active,
        UnitState::Deactivating,
        failed(UnitResult::Success, 0),
        failed(UnitResult::ExitCode, 1),
        failed(UnitResult::Signal, 15),
        failed(UnitResult::ExecCondition, 0),
    ] {
        for main_pid in [None, Some(7)] {
            for started_at in [
                None,
                Some(Timestamp::new(999_995, 0)),
                Some(Timestamp::new(999_000, 0)),
                Some(Timestamp::new(2_000_000, 0)),
            ] {
                for probe in [PortProbe::Open, PortProbe::Closed, PortProbe::Unreachable] {
                    for listener_pid in [None, Some(7), Some(8)] {
                        all.push(Observation {
                            unit: UnitObservation {
                                state,
                                main_pid,
                                started_at,
                            },
                            port: PortObservation {
                                probe,
                                listener_pid,
                                listener_name: None,
                            },
                        });
                    }
                }
            }
        }
    }
    all
}

#[test]
fn rows_keep_their_promises_on_every_combination() {
    let all = observations();
    assert_eq!(all.len(), 8 * 2 * 4 * 3 * 3);
    for observation in &all {
        let row = reconcile(&connection(true), observation, now());
        assert_eq!(row.error.is_some(), row.state == HealthState::Error);
        match row.state {
            HealthState::Running => {
                assert!(row.port_open);
                assert_eq!(row.source, Source::Unit);
            }
            HealthState::Stopped => assert!(!row.port_open),
            HealthState::Starting => {
                assert!(!row.port_open);
                assert!(within_start_window(observation.unit.started_at, now()));
            }
            HealthState::Error => {}
        }
        if row.source == Source::NoUnit {
            assert_eq!(row.pid, None);
            assert_eq!(row.uptime_sec, None);
        } else {
            assert_eq!(row.pid, observation.unit.main_pid);
        }
        let mut disabled = reconcile(&connection(false), observation, now());
        assert!(!disabled.enabled);
        disabled.enabled = true;
        assert_eq!(disabled, row);
    }
}

#[test]
fn foreign_holders_are_conflicts_unless_the_unit_is_on_its_way_out() {
    for observation in &observations() {
        let foreign = observation.port.probe == PortProbe::Open
            && !listener_matches_unit(
                observation.unit.main_pid,
                observation.port.listener_pid,
            );
        let row = reconcile(&connection(true), observation, now());
        if foreign {
            match observation.unit.state {
                UnitState::Idle | UnitState::Activating | UnitState::Active => {
                    assert_eq!(
                        row.error.expect("a conflict is an error").code,
                        ErrorCode::PortInUse
                    );
                }
                UnitState::Deactivating => assert_eq!(row.state, HealthState::Running),
                UnitState::Failed(_) => assert_eq!(row.state, HealthState::Error),
            }
        }
    }
}

#[test]
fn failed_units_are_never_healthy() {
    for observation in &observations() {
        if let UnitState::Failed(signal) = observation.unit.state {
            let row = reconcile(&connection(true), observation, now());
            assert_ne!(row.state, HealthState::Running);
            assert_ne!(row.state, HealthState::Starting);
            if signal.result == UnitResult::ExecCondition {
                assert_eq!(row.error.expect("an error").code, ErrorCode::ExecFailed);
            }
        }
    }
}

#[test]
fn uptime_is_in_whole_seconds() {
    assert_eq!(uptime_since(None, now()), None);
    assert_eq!(uptime_since(Some(now()), now()), Some(0));
    assert_eq!(
        uptime_since(Some(Timestamp::new(999_990, 600_000_000)), now()),
        Some(9)
    );
    assert_eq!(
        uptime_since(Some(Timestamp::new(999_990, 500_000_000)), now()),
        Some(10)
    );
    assert_eq!(
        uptime_since(Some(Timestamp::new(2_000_000, 0)), now()),
        Some(0)
    );
}

#[test]
fn the_start_window_is_ten_seconds_to_the_nanosecond() {
    assert!(within_start_window(
        Some(Timestamp::new(999_990, 500_000_000)),
        now()
    ));
    assert!(!within_start_window(
        Some(Timestamp::new(999_990, 499_999_999)),
        now()
    ));
    assert!(within_start_window(
        Some(Timestamp::new(i64::MAX, 0)),
        now()
    ));
    assert!(!within_start_window(None, now()));
}

#[test]
fn failures_are_put_into_words() {
    assert_eq!(
        failure_detail(FailureKind::ExecFailed),
        "unit failed to exec the proxy binary"
    );
    assert_eq!(
        failure_detail(FailureKind::Crashed),
        "unit crashed or was killed unexpectedly"
    );
    assert_eq!(
        failure_detail(FailureKind::CleanStop),
        "unit reported a clean stop but a process is still attributed"
    );
}
