use cloud_sql_tracker::commands::mutate::{
    disabled_policy, is_running, resolve_proxy_bin_or_failure, restart, start,
    start_idempotent_or_conflict, status_command_result, stop, stop_idempotent, stop_succeeded,
    supervisor_result, terminal_error_result, unit_safely_recreatable, wait_step, BatchOutcome,
    TargetOutcome, TargetResult,
};
use cloud_sql_tracker::commands::select::{SelectError, Selector};
use cloud_sql_tracker::commands::status::StatusCommandError;
use cloud_sql_tracker::config::Config;
use cloud_sql_tracker::env::{bin_candidates, resolve_bin, Candidate, FileFacts};
use cloud_sql_tracker::model::{
    Connection, ErrorCode, HealthState, Source, StatusError, StatusRow, UnitNameError,
};
use cloud_sql_tracker::supervisor::{
    ExecOutcome, SupervisorError, UnitActiveState, UnitResult, UnitSnapshot,
};

fn connection(id: &str, enabled: bool) -> Connection {
    Connection {
        id: id.to_string(),
        name: id.to_string(),
        group: "fe".to_string(),
        instance: "proj:region:inst".to_string(),
        address: "127.0.0.1".to_string(),
        port: 15432,
        private_ip: false,
        auto_iam_authn: false,
        extra_args: Vec::new(),
        enabled,
    }
}

fn config(connections: Vec<Connection>) -> Config {
    Config {
        proxy_bin: "cloud-sql-proxy".to_string(),
        connections,
    }
}

fn row(state: HealthState, source: Source, error: Option<StatusError>) -> StatusRow {
    StatusRow {
        id: "a".to_string(),
        name: "a".to_string(),
        group: "fe".to_string(),
        instance: "proj:region:inst".to_string(),
        address: "127.0.0.1".to_string(),
        port: 15432,
        private_ip: false,
        enabled: true,
        state,
        source,
        pid: None,
        unit: None,
        port_open: state == HealthState::Running,
        uptime_sec: None,
        error,
    }
}

#[test]
fn disabled_policy_is_none_for_an_enabled_connection() {
    assert_eq!(disabled_policy(&connection("a", true), true), None);
    assert_eq!(disabled_policy(&connection("a", true), false), None);
}

#[test]
fn disabled_policy_refuses_a_single_id_target() {
    assert_eq!(
        disabled_policy(&connection("a", false), true),
        Some(TargetResult::RefusedDisabled)
    );
}

#[test]
fn disabled_policy_skips_a_multi_target_selector() {
    assert_eq!(
        disabled_policy(&connection("a", false), false),
        Some(TargetResult::SkippedDisabled)
    );
}

#[test]
fn start_idempotent_or_conflict_is_a_success_no_op_when_already_running_via_unit() {
    let row = row(HealthState::Running, Source::Unit, None);
    assert_eq!(
        start_idempotent_or_conflict(&row),
        Some(TargetResult::Succeeded)
    );
}

#[test]
fn start_idempotent_or_conflict_fails_when_the_port_is_held_by_a_foreign_process() {
    let row = row(
        HealthState::Error,
        Source::NoUnit,
        Some(StatusError {
            code: ErrorCode::PortInUse,
            detail: "held by pid 999".to_string(),
        }),
    );
    let result =
        start_idempotent_or_conflict(&row).expect("port_in_use must not proceed to start");
    assert_eq!(
        result,
        TargetResult::Failed {
            code: ErrorCode::PortInUse,
            message: "held by pid 999".to_string(),
        }
    );
}

#[test]
fn start_idempotent_or_conflict_proceeds_to_start_when_stopped() {
    let row = row(HealthState::Stopped, Source::NoUnit, None);
    assert_eq!(start_idempotent_or_conflict(&row), None);
}

#[test]
fn start_idempotent_or_conflict_proceeds_to_start_when_running_without_our_unit() {
    let row = row(HealthState::Running, Source::NoUnit, None);
    assert_eq!(start_idempotent_or_conflict(&row), None);
}

#[test]
fn stop_idempotent_is_a_success_no_op_when_already_stopped() {
    let row = row(HealthState::Stopped, Source::NoUnit, None);
    assert_eq!(stop_idempotent(&row), Some(TargetResult::Succeeded));
}

#[test]
fn stop_idempotent_proceeds_to_stop_when_running() {
    let row = row(HealthState::Running, Source::Unit, None);
    assert_eq!(stop_idempotent(&row), None);
}

#[test]
fn batch_outcome_counts_succeeded_skipped_and_failed_separately() {
    let batch = BatchOutcome {
        targets: vec![
            TargetOutcome {
                id: "a".to_string(),
                result: TargetResult::Succeeded,
            },
            TargetOutcome {
                id: "b".to_string(),
                result: TargetResult::SkippedDisabled,
            },
            TargetOutcome {
                id: "c".to_string(),
                result: TargetResult::Failed {
                    code: ErrorCode::Unknown,
                    message: "boom".to_string(),
                },
            },
            TargetOutcome {
                id: "d".to_string(),
                result: TargetResult::Dependency {
                    message: "no bus".to_string(),
                },
            },
        ],
    };
    assert_eq!(batch.succeeded_count(), 1);
    assert_eq!(batch.skipped_count(), 1);
    assert_eq!(batch.failed_count(), 1);
    assert_eq!(batch.dependency_count(), 1);
}

#[test]
fn batch_outcome_does_not_count_a_disabled_refusal_as_a_batch_failure() {
    let batch = BatchOutcome {
        targets: vec![TargetOutcome {
            id: "a".to_string(),
            result: TargetResult::RefusedDisabled,
        }],
    };
    assert_eq!(batch.failed_count(), 0);
    assert_eq!(batch.succeeded_count(), 0);
    assert_eq!(batch.skipped_count(), 0);
    assert_eq!(batch.dependency_count(), 0);
}

#[test]
fn start_on_all_with_zero_connections_is_an_empty_successful_batch() {
    let config = config(Vec::new());
    let batch = start(&config, &Selector::All, 10_000).expect("All always resolves").outcome();
    assert!(batch.targets.is_empty());
}

#[test]
fn stop_on_all_with_zero_connections_is_an_empty_successful_batch() {
    let config = config(Vec::new());
    let batch = stop(&config, &Selector::All, 10_000).expect("All always resolves").outcome();
    assert!(batch.targets.is_empty());
}

#[test]
fn restart_failed_on_all_with_zero_connections_is_an_empty_successful_batch() {
    let config = config(Vec::new());
    let batch = restart(&config, &Selector::All, 10_000, true).expect("All always resolves").outcome();
    assert!(batch.targets.is_empty());
}

#[test]
fn start_with_an_unknown_id_propagates_the_selector_error() {
    let config = config(Vec::new());
    let err = start(&config, &Selector::Id("nope".to_string()), 10_000)
        .expect_err("nope is not in the config");
    assert_eq!(err, SelectError::UnknownId("nope".to_string()));
}

#[test]
fn start_skips_a_disabled_connection_in_an_all_selector_without_any_io() {
    let config = config(vec![connection("a", false)]);
    let batch = start(&config, &Selector::All, 10_000).expect("All always resolves").outcome();
    assert_eq!(
        batch.targets,
        vec![TargetOutcome {
            id: "a".to_string(),
            result: TargetResult::SkippedDisabled,
        }]
    );
}

#[test]
fn start_refuses_a_single_disabled_id_without_any_io() {
    let config = config(vec![connection("a", false)]);
    let batch =
        start(&config, &Selector::Id("a".to_string()), 10_000).expect("a is in the config").outcome();
    assert_eq!(
        batch.targets,
        vec![TargetOutcome {
            id: "a".to_string(),
            result: TargetResult::RefusedDisabled,
        }]
    );
}

#[test]
fn restart_skips_a_disabled_connection_in_an_all_selector_without_any_io() {
    let config = config(vec![connection("a", false)]);
    let batch = restart(&config, &Selector::All, 10_000, false).expect("All always resolves").outcome();
    assert_eq!(
        batch.targets,
        vec![TargetOutcome {
            id: "a".to_string(),
            result: TargetResult::SkippedDisabled,
        }]
    );
}

#[test]
fn restart_refuses_a_single_disabled_id_without_any_io() {
    let config = config(vec![connection("a", false)]);
    let batch = restart(&config, &Selector::Id("a".to_string()), 10_000, false)
        .expect("a is in the config").outcome();
    assert_eq!(
        batch.targets,
        vec![TargetOutcome {
            id: "a".to_string(),
            result: TargetResult::RefusedDisabled,
        }]
    );
}

#[test]
fn restart_failed_refuses_a_single_disabled_id_without_any_io() {
    let config = config(vec![connection("a", false)]);
    let batch = restart(&config, &Selector::Id("a".to_string()), 10_000, true)
        .expect("a is in the config").outcome();
    assert_eq!(
        batch.targets,
        vec![TargetOutcome {
            id: "a".to_string(),
            result: TargetResult::RefusedDisabled,
        }]
    );
}

#[test]
fn restart_failed_skips_a_disabled_connection_in_an_all_selector_without_any_io() {
    let config = config(vec![connection("a", false)]);
    let batch = restart(&config, &Selector::All, 10_000, true).expect("All always resolves").outcome();
    assert_eq!(
        batch.targets,
        vec![TargetOutcome {
            id: "a".to_string(),
            result: TargetResult::SkippedDisabled,
        }]
    );
}

#[test]
fn restart_failed_preserves_selector_order_across_multiple_disabled_ids() {
    let config = config(vec![
        connection("a", false),
        connection("b", false),
        connection("c", false),
    ]);
    let batch = restart(&config, &Selector::All, 10_000, true).expect("All always resolves").outcome();
    let ids: Vec<&str> = batch.targets.iter().map(|t| t.id.as_str()).collect();
    assert_eq!(ids, vec!["a", "b", "c"]);
    assert!(batch
        .targets
        .iter()
        .all(|target| target.result == TargetResult::SkippedDisabled));
}

#[test]
fn stop_succeeded_is_true_only_for_a_genuine_success() {
    assert!(stop_succeeded(&TargetResult::Succeeded));
}

#[test]
fn stop_succeeded_is_false_for_a_per_connection_failure() {
    let result = TargetResult::Failed {
        code: ErrorCode::Unknown,
        message: "boom".to_string(),
    };
    assert!(!stop_succeeded(&result));
}

#[test]
fn stop_succeeded_is_false_for_a_dependency_failure() {
    let result = TargetResult::Dependency {
        message: "no bus".to_string(),
    };
    assert!(!stop_succeeded(&result));
}

#[test]
fn supervisor_result_classifies_a_bus_failure_as_dependency() {
    let err = SupervisorError::Bus {
        detail: "no bus".to_string(),
    };
    let message = err.message();
    assert_eq!(supervisor_result(&err), TargetResult::Dependency { message });
}

#[test]
fn supervisor_result_classifies_every_other_variant_as_a_per_connection_failure() {
    let err = SupervisorError::MissingProperty {
        property: "MainPID",
    };
    let message = err.message();
    assert_eq!(
        supervisor_result(&err),
        TargetResult::Failed {
            code: ErrorCode::Unknown,
            message,
        }
    );
}

#[test]
fn resolve_proxy_bin_or_failure_is_a_dependency_not_a_per_connection_failure() {
    let candidates = bin_candidates("this-binary-does-not-exist-anywhere", "/usr/bin:/bin");
    let looked_at: Vec<Candidate> = candidates
        .into_iter()
        .map(|path| Candidate {
            path,
            facts: FileFacts {
                is_file: false,
                mode: 0,
            },
        })
        .collect();
    let resolved = resolve_bin("this-binary-does-not-exist-anywhere", &looked_at);
    let result = resolve_proxy_bin_or_failure(resolved).expect_err("the binary cannot resolve");
    assert!(matches!(result, TargetResult::Dependency { .. }));
}

#[test]
fn status_command_result_unwraps_a_bus_failure_from_inside_a_supervisor_error() {
    let source = SupervisorError::Bus {
        detail: "no bus".to_string(),
    };
    let message = source.message();
    let err = StatusCommandError::Supervisor {
        id: "a".to_string(),
        source,
    };
    assert_eq!(
        status_command_result(&err),
        TargetResult::Dependency { message }
    );
}

#[test]
fn status_command_result_treats_a_unit_name_error_as_a_per_connection_failure() {
    let err = StatusCommandError::UnitName {
        id: "a".to_string(),
        source: UnitNameError::Empty,
    };
    let message = err.message();
    assert_eq!(
        status_command_result(&err),
        TargetResult::Failed {
            code: ErrorCode::Unknown,
            message,
        }
    );
}

fn loaded_snapshot(active_state: UnitActiveState, main_pid: Option<u32>) -> UnitSnapshot {
    UnitSnapshot::Loaded {
        active_state,
        sub_state: "n/a".to_string(),
        main_pid,
        result: UnitResult::Success,
        exec_outcome: ExecOutcome::NotExited,
        started_at_monotonic_usec: None,
    }
}

#[test]
fn unit_safely_recreatable_is_true_only_when_absent() {
    assert!(unit_safely_recreatable(&UnitSnapshot::Absent));
}

#[test]
fn unit_safely_recreatable_is_false_when_inactive_because_the_unit_is_still_loaded() {
    let snapshot = loaded_snapshot(UnitActiveState::Inactive, None);
    assert!(!unit_safely_recreatable(&snapshot));
}

#[test]
fn unit_safely_recreatable_is_false_while_deactivating() {
    let snapshot = loaded_snapshot(UnitActiveState::Deactivating, Some(123));
    assert!(!unit_safely_recreatable(&snapshot));
}

#[test]
fn unit_safely_recreatable_is_false_while_active() {
    let snapshot = loaded_snapshot(UnitActiveState::Active, Some(123));
    assert!(!unit_safely_recreatable(&snapshot));
}

#[test]
fn unit_safely_recreatable_is_false_while_activating() {
    let snapshot = loaded_snapshot(UnitActiveState::Activating, None);
    assert!(!unit_safely_recreatable(&snapshot));
}

#[test]
fn unit_safely_recreatable_is_false_when_failed_with_no_live_process_because_the_unit_is_still_loaded(
) {
    let snapshot = loaded_snapshot(UnitActiveState::Failed, None);
    assert!(!unit_safely_recreatable(&snapshot));
}

#[test]
fn unit_safely_recreatable_is_false_when_failed_with_a_live_process() {
    let snapshot = loaded_snapshot(UnitActiveState::Failed, Some(123));
    assert!(!unit_safely_recreatable(&snapshot));
}

#[test]
fn unit_safely_recreatable_is_false_for_an_unknown_active_state() {
    let snapshot = loaded_snapshot(UnitActiveState::Unknown("reloading".to_string()), None);
    assert!(!unit_safely_recreatable(&snapshot));
}

#[test]
fn terminal_error_result_is_none_for_a_healthy_row() {
    let row = row(HealthState::Running, Source::Unit, None);
    assert_eq!(terminal_error_result(&row), None);
}

#[test]
fn terminal_error_result_surfaces_the_rows_own_code_and_detail() {
    let row = row(
        HealthState::Error,
        Source::NoUnit,
        Some(StatusError {
            code: ErrorCode::PortInUse,
            detail: "held by pid 999".to_string(),
        }),
    );
    assert_eq!(
        terminal_error_result(&row),
        Some(TargetResult::Failed {
            code: ErrorCode::PortInUse,
            message: "held by pid 999".to_string(),
        })
    );
}

#[test]
fn wait_step_succeeds_immediately_once_is_done() {
    let row = row(HealthState::Running, Source::Unit, None);
    let result = wait_step(
        &row,
        is_running(&row),
        5_000_000_000,
        10_000,
        "a",
        ErrorCode::StartTimeout,
    );
    assert_eq!(result, Some(TargetResult::Succeeded));
}

#[test]
fn wait_step_short_circuits_on_a_terminal_error_even_with_time_remaining() {
    let row = row(
        HealthState::Error,
        Source::NoUnit,
        Some(StatusError {
            code: ErrorCode::PortInUse,
            detail: "held by pid 999".to_string(),
        }),
    );
    let result = wait_step(
        &row,
        is_running(&row),
        5_000_000_000,
        10_000,
        "a",
        ErrorCode::StartTimeout,
    );
    assert_eq!(
        result,
        Some(TargetResult::Failed {
            code: ErrorCode::PortInUse,
            message: "held by pid 999".to_string(),
        })
    );
}

#[test]
fn wait_step_keeps_waiting_when_not_done_and_time_remains() {
    let row = row(HealthState::Starting, Source::Unit, None);
    let result = wait_step(
        &row,
        is_running(&row),
        5_000_000_000,
        10_000,
        "a",
        ErrorCode::StartTimeout,
    );
    assert_eq!(result, None);
}

#[test]
fn wait_step_times_out_with_the_given_code_when_remaining_is_zero() {
    let row = row(HealthState::Starting, Source::Unit, None);
    let result = wait_step(
        &row,
        is_running(&row),
        0,
        10_000,
        "a",
        ErrorCode::StartTimeout,
    );
    assert_eq!(
        result,
        Some(TargetResult::Failed {
            code: ErrorCode::StartTimeout,
            message: "connection `a` did not confirm within 10000ms".to_string(),
        })
    );
}
