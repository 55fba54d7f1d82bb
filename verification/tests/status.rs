use cloud_sql_tracker::clock::{format_rfc3339, Timestamp};
use cloud_sql_tracker::commands::status::{
    assemble_document, map_unit_snapshot, started_at_from_monotonic,
};
use cloud_sql_tracker::model::{
    ErrorCode, GroupCounts, HealthState, Source, StatusDocument, StatusError, StatusRow,
};
use cloud_sql_tracker::reconcile::{FailureSignal, UnitResult, UnitState};
use cloud_sql_tracker::supervisor::{
    ExecOutcome, UnitActiveState, UnitResult as SupervisorUnitResult, UnitSnapshot,
};

fn now() -> Timestamp {
    Timestamp::new(1_000_000, 0)
}

#[test]
fn map_unit_snapshot_absent_is_idle_with_no_pid_or_start_time() {
    let observation = map_unit_snapshot(&UnitSnapshot::Absent, now(), Some(1_000_000_000));
    assert_eq!(observation.state, UnitState::Idle);
    assert_eq!(observation.main_pid, None);
    assert_eq!(observation.started_at, None);
}

#[test]
fn map_unit_snapshot_active_with_pid_and_start_time_five_seconds_ago() {
    let snapshot = UnitSnapshot::Loaded {
        active_state: UnitActiveState::Active,
        sub_state: "running".to_string(),
        main_pid: Some(111),
        result: SupervisorUnitResult::Success,
        exec_outcome: ExecOutcome::NotExited,
        started_at_monotonic_usec: Some(5_000_000),
    };
    let observation = map_unit_snapshot(&snapshot, now(), Some(10_000_000));
    assert_eq!(observation.state, UnitState::Active);
    assert_eq!(observation.main_pid, Some(111));
    assert_eq!(observation.started_at, Some(Timestamp::new(999_995, 0)));
}

#[test]
fn map_unit_snapshot_failed_with_a_clean_stop_signal() {
    let snapshot = UnitSnapshot::Loaded {
        active_state: UnitActiveState::Failed,
        sub_state: "failed".to_string(),
        main_pid: None,
        result: SupervisorUnitResult::Signal,
        exec_outcome: ExecOutcome::Signal(15),
        started_at_monotonic_usec: None,
    };
    let observation = map_unit_snapshot(&snapshot, now(), None);
    assert_eq!(
        observation.state,
        UnitState::Failed(FailureSignal {
            result: UnitResult::Signal,
            exec_main_status: 15,
        })
    );
}

#[test]
fn map_unit_snapshot_failed_with_exit_code_zero_is_a_clean_stop_signal() {
    let snapshot = UnitSnapshot::Loaded {
        active_state: UnitActiveState::Failed,
        sub_state: "failed".to_string(),
        main_pid: None,
        result: SupervisorUnitResult::ExitCode,
        exec_outcome: ExecOutcome::ExitCode(0),
        started_at_monotonic_usec: None,
    };
    let observation = map_unit_snapshot(&snapshot, now(), None);
    assert_eq!(
        observation.state,
        UnitState::Failed(FailureSignal {
            result: UnitResult::ExitCode,
            exec_main_status: 0,
        })
    );
}

#[test]
fn map_unit_snapshot_missing_monotonic_now_leaves_started_at_unknown() {
    let snapshot = UnitSnapshot::Loaded {
        active_state: UnitActiveState::Active,
        sub_state: "running".to_string(),
        main_pid: Some(111),
        result: SupervisorUnitResult::Success,
        exec_outcome: ExecOutcome::NotExited,
        started_at_monotonic_usec: Some(5_000_000),
    };
    let observation = map_unit_snapshot(&snapshot, now(), None);
    assert_eq!(observation.started_at, None);
}

#[test]
fn map_unit_snapshot_unknown_active_state_is_never_healthy() {
    let snapshot = UnitSnapshot::Loaded {
        active_state: UnitActiveState::Unknown("reloading".to_string()),
        sub_state: "reloading".to_string(),
        main_pid: Some(111),
        result: SupervisorUnitResult::Success,
        exec_outcome: ExecOutcome::NotExited,
        started_at_monotonic_usec: None,
    };
    let observation = map_unit_snapshot(&snapshot, now(), None);
    assert!(
        matches!(observation.state, UnitState::Failed(_)),
        "an unrecognized ActiveState must never map to Idle/Activating/Active/Deactivating"
    );
}

#[test]
fn map_unit_snapshot_unknown_result_is_never_a_clean_stop() {
    let snapshot = UnitSnapshot::Loaded {
        active_state: UnitActiveState::Failed,
        sub_state: "failed".to_string(),
        main_pid: None,
        result: SupervisorUnitResult::Unknown("oom-kill".to_string()),
        exec_outcome: ExecOutcome::Signal(9),
        started_at_monotonic_usec: None,
    };
    let observation = map_unit_snapshot(&snapshot, now(), None);
    let UnitState::Failed(signal) = observation.state else {
        panic!("expected a Failed state");
    };
    assert_eq!(signal.result, UnitResult::Timeout);
}

#[test]
fn started_at_from_monotonic_subtracts_the_age() {
    let started_at = started_at_from_monotonic(5_000_000, 12_000_000, now());
    assert_eq!(started_at, Some(Timestamp::new(999_993, 0)));
}

#[test]
fn started_at_from_monotonic_is_none_when_the_clock_looks_like_it_went_backwards() {
    let started_at = started_at_from_monotonic(12_000_000, 5_000_000, now());
    assert_eq!(started_at, None);
}

fn row(id: &str, group: &str, state: HealthState) -> StatusRow {
    StatusRow {
        id: id.to_string(),
        name: id.to_string(),
        group: group.to_string(),
        instance: "proj:region:inst".to_string(),
        address: "127.0.0.1".to_string(),
        port: 15432,
        private_ip: false,
        enabled: true,
        state,
        source: Source::NoUnit,
        pid: None,
        unit: None,
        port_open: state == HealthState::Running,
        uptime_sec: None,
        error: if state == HealthState::Error {
            Some(StatusError {
                code: ErrorCode::PortInUse,
                detail: "port held by someone else".to_string(),
            })
        } else {
            None
        },
    }
}

fn group(doc: &StatusDocument, name: &str) -> Option<GroupCounts> {
    doc.groups
        .iter()
        .find(|entry| entry.name == name)
        .map(|entry| entry.counts)
}

#[test]
fn assemble_document_is_empty_for_zero_rows() {
    let doc = assemble_document(Vec::new(), now(), "0.1.0".to_string());
    assert_eq!(doc.version, 1);
    assert_eq!(doc.total, 0);
    assert_eq!(doc.running, 0);
    assert!(doc.groups.is_empty());
    assert!(doc.connections.is_empty());
}

#[test]
fn assemble_document_counts_states_and_groups() {
    let rows = vec![
        row("a", "fe", HealthState::Running),
        row("b", "fe", HealthState::Error),
        row("c", "backend", HealthState::Stopped),
        row("d", "backend", HealthState::Starting),
    ];
    let doc = assemble_document(rows, now(), "0.1.0".to_string());

    assert_eq!(doc.running, 1);
    assert_eq!(doc.error, 1);
    assert_eq!(doc.stopped, 1);
    assert_eq!(doc.starting, 1);
    assert_eq!(doc.total, 4);

    let fe = group(&doc, "fe").expect("fe group present");
    assert_eq!(fe.running, 1);
    assert_eq!(fe.error, 1);
    assert_eq!(fe.total, 2);

    let backend = group(&doc, "backend").expect("backend group present");
    assert_eq!(backend.stopped, 1);
    assert_eq!(backend.starting, 1);
    assert_eq!(backend.total, 2);

    let group_total_sum: u32 = doc.groups.iter().map(|g| g.counts.total).sum();
    assert_eq!(group_total_sum, doc.total);
    assert_eq!(
        doc.running + doc.starting + doc.error + doc.stopped,
        doc.total
    );
}

#[test]
fn format_rfc3339_formats_the_unix_epoch() {
    assert_eq!(
        format_rfc3339(Timestamp::new(0, 0)),
        "1970-01-01T00:00:00Z"
    );
}

#[test]
fn format_rfc3339_formats_a_known_recent_date() {
    let t = Timestamp::new(1_704_067_200, 0);
    assert_eq!(format_rfc3339(t), "2024-01-01T00:00:00Z");
}

#[test]
fn format_rfc3339_formats_a_date_with_a_nonzero_time_of_day() {
    let t = Timestamp::new(1_613_826_296, 0);
    assert_eq!(format_rfc3339(t), "2021-02-20T13:04:56Z");
}

#[test]
fn format_rfc3339_formats_the_last_second_of_a_leap_year() {
    let t = Timestamp::new(946_684_799, 0);
    assert_eq!(format_rfc3339(t), "1999-12-31T23:59:59Z");
}

