use cloud_sql_tracker::cli::{
    check_lines, exit_for_batch, logs_error_exit, print_batch, print_status_text, resolve_selector,
    run, run_logs, run_mutate, run_status, select_error_exit, usage_exit, write_doctor_json,
    write_status_json, Output, SelectorArgs, UsageError,
};
use cloud_sql_tracker::clock::Timestamp;
use cloud_sql_tracker::commands::logs::LogsCommandError;
use cloud_sql_tracker::commands::mutate::{start, BatchOutcome, TargetOutcome, TargetResult};
use cloud_sql_tracker::commands::select::{SelectError, Selector};
use cloud_sql_tracker::commands::status::{assemble_document, StatusCommandError};
use cloud_sql_tracker::config::Config;
use cloud_sql_tracker::journal::{Dump, JournalError};
use cloud_sql_tracker::model::{
    ErrorCode, HealthState, Source, StatusError, StatusRow, UnitNameError,
};
use cloud_sql_tracker::supervisor::SupervisorError;

fn line(text: &str) -> Output {
    Output::Line(text.to_string())
}

fn error_line(text: &str) -> Output {
    Output::ErrorLine(text.to_string())
}

fn empty_config() -> Config {
    Config {
        proxy_bin: "cloud-sql-proxy".to_string(),
        connections: Vec::new(),
    }
}

#[test]
fn version_prints_the_bare_cargo_package_version() {
    let command = run(true, false, "0.1.0").expect("nothing else is run");
    assert_eq!(command.exit, 0);
    assert_eq!(command.outputs, vec![line("0.1.0")]);
}

#[test]
fn a_version_comes_before_any_command() {
    let command = run(true, true, "0.1.0").expect("nothing else is run");
    assert_eq!(command.outputs, vec![line("0.1.0")]);
    assert_eq!(run(false, true, "0.1.0"), None);
}

#[test]
fn no_command_is_a_usage_error() {
    let command = run(false, false, "0.1.0").expect("there is nothing to run");
    assert_eq!(command.exit, 2);
    assert_eq!(
        command.outputs,
        vec![error_line("error: a subcommand is required (see --help)")]
    );
}

#[test]
fn start_with_an_unknown_id_exits_usage() {
    let error = start(
        &empty_config(),
        &Selector::Id("does-not-exist".to_string()),
        10_000,
    )
    .expect_err("the id is unknown");
    let command = select_error_exit(&error);
    assert_eq!(command.exit, 2);
    assert_eq!(run_mutate(&Err(error)), command);
}

#[test]
fn start_without_a_target_exits_usage() {
    let error = resolve_selector(
        SelectorArgs {
            id: None,
            group: None,
            all: false,
        },
        true,
    )
    .expect_err("a target is required");
    assert_eq!(usage_exit(&error).exit, 2);
}

#[test]
fn start_with_an_id_and_all_is_a_mutual_exclusion_usage_error() {
    let error = resolve_selector(
        SelectorArgs {
            id: Some("fe-dev".to_string()),
            group: None,
            all: true,
        },
        true,
    )
    .expect_err("they cannot combine");
    let command = usage_exit(&error);
    assert_eq!(command.exit, 2);
    match &command.outputs[..] {
        [Output::ErrorLine(message)] => assert!(message.contains("cannot combine")),
        other => panic!("unexpected outputs: {other:?}"),
    }
}

fn row(id: &str, state: HealthState, error: Option<&str>) -> StatusRow {
    StatusRow {
        id: id.to_string(),
        name: id.to_string(),
        group: "fe".to_string(),
        instance: "proj:region:inst".to_string(),
        address: "127.0.0.1".to_string(),
        port: 15432,
        private_ip: false,
        enabled: true,
        state,
        source: if state == HealthState::Running {
            Source::Unit
        } else {
            Source::NoUnit
        },
        pid: None,
        unit: None,
        port_open: false,
        uptime_sec: None,
        error: error.map(|detail| StatusError {
            code: ErrorCode::Unknown,
            detail: detail.to_string(),
        }),
    }
}

#[test]
fn status_text_is_aligned_in_columns() {
    let document = assemble_document(
        vec![
            row("fe-dev", HealthState::Running, None),
            row("an-id-that-is-longer-than-its-column", HealthState::Error, Some("why")),
        ],
        Timestamp::new(0, 0),
        "0.1.0".to_string(),
    );
    let expected = vec![
        line("1 running, 0 starting, 1 error, 0 stopped (of 2)"),
        line("fe-dev               running   15432  unit  -"),
        line("an-id-that-is-longer-than-its-column error     15432  none  why"),
    ];
    assert_eq!(print_status_text(&document), expected);
    let command = run_status(&Ok(document), None);
    assert_eq!(command.exit, 0);
    assert_eq!(command.outputs, expected);
}

#[test]
fn status_errors_tell_usage_from_environment() {
    let select = StatusCommandError::Select(SelectError::UnknownId("x".to_string()));
    assert_eq!(run_status(&Err(select), None).exit, 2);
    let unit = StatusCommandError::UnitName {
        id: "x".to_string(),
        source: UnitNameError::Empty,
    };
    assert_eq!(run_status(&Err(unit), Some("{}")).exit, 2);
    let supervisor = StatusCommandError::Supervisor {
        id: "x".to_string(),
        source: SupervisorError::MissingProperty {
            property: "MainPID",
        },
    };
    let command = run_status(&Err(supervisor), Some("{}"));
    assert_eq!(command.exit, 3);
    assert_eq!(
        command.outputs,
        vec![error_line(
            "error: connection `x`: systemd did not report the `MainPID` property for a Unit"
        )]
    );
}

fn batch(results: &[TargetResult]) -> BatchOutcome {
    BatchOutcome {
        targets: results
            .iter()
            .map(|result| TargetOutcome {
                id: "a".to_string(),
                result: result.clone(),
            })
            .collect(),
    }
}

fn every_result() -> Vec<TargetResult> {
    vec![
        TargetResult::Succeeded,
        TargetResult::SkippedDisabled,
        TargetResult::RefusedDisabled,
        TargetResult::Failed {
            code: ErrorCode::PortInUse,
            message: "why".to_string(),
        },
        TargetResult::Dependency {
            message: "no bus".to_string(),
        },
    ]
}

#[test]
fn batches_print_successes_apart_from_everything_else() {
    let outcome = batch(&every_result());
    let expected = vec![
        line("a: ok"),
        error_line("a: skipped (disabled)"),
        error_line("a: refused \u{2014} connection is disabled"),
        error_line("a: failed (port_in_use): why"),
        error_line("a: dependency error: no bus"),
        line("1 succeeded, 1 skipped, 2 failed"),
    ];
    assert_eq!(print_batch(&outcome), expected);
    let command = run_mutate(&Ok(outcome));
    assert_eq!(command.exit, 2);
    assert_eq!(command.outputs, expected);
}

#[test]
fn every_pair_of_results_has_its_exit_code() {
    for a in every_result() {
        for b in every_result() {
            let has = |wanted: &TargetResult| a == *wanted || b == *wanted;
            let all = every_result();
            let expected = if has(&all[2]) {
                2
            } else if has(&all[4]) {
                3
            } else if !has(&all[3]) {
                0
            } else if has(&all[0]) {
                1
            } else {
                4
            };
            let pair = [a.clone(), b.clone()];
            assert_eq!(exit_for_batch(&batch(&pair)), expected);
            let with_skip = [a.clone(), b.clone(), TargetResult::SkippedDisabled];
            assert_eq!(exit_for_batch(&batch(&with_skip)), expected);
        }
    }
}

#[test]
fn documents_end_with_a_newline() {
    assert_eq!(write_status_json("{}"), Ok("{}\n".to_string()));
    assert_eq!(write_doctor_json(""), Ok("\n".to_string()));
}

#[test]
fn logs_need_at_least_one_line() {
    assert_eq!(
        check_lines(0),
        Err(UsageError("--lines must be an integer >= 1".to_string()))
    );
    assert_eq!(check_lines(1), Ok(()));
}

#[test]
fn logs_are_printed_unchanged_or_hinted_at() {
    let command = run_logs("fe-dev", Ok(Dump::Bytes(vec![0xff, b'\n'])));
    assert_eq!(command.exit, 0);
    assert_eq!(command.outputs, vec![Output::Bytes(vec![0xff, b'\n'])]);
    let command = run_logs("fe-dev", Ok(Dump::Empty));
    assert_eq!(command.exit, 0);
    assert_eq!(
        command.outputs,
        vec![error_line(
            "no journal entries for unit cloud-sql-proxy-fe-dev.service (never started, vacuumed, or empty)"
        )]
    );
    assert_eq!(
        run_logs("--", Ok(Dump::Empty)).outputs,
        vec![error_line(
            "no journal entries for `--` (never started, vacuumed, or empty)"
        )]
    );
}

#[test]
fn only_a_journal_that_cannot_be_read_points_to_doctor() {
    let journal = LogsCommandError::Journal(JournalError::NotFound);
    assert_eq!(logs_error_exit(&journal), 3);
    assert_eq!(
        run_logs("a", Err(journal)).outputs,
        vec![error_line(
            "error: journalctl not found on PATH (run `cloud-sql-tracker doctor` for details)"
        )]
    );
    let unknown = LogsCommandError::UnknownId("a".to_string());
    let command = run_logs("a", Err(unknown));
    assert_eq!(command.exit, 2);
    assert_eq!(
        command.outputs,
        vec![error_line("error: unknown connection id `a`")]
    );
    let unit = LogsCommandError::UnitName {
        id: "--".to_string(),
        source: UnitNameError::Empty,
    };
    let command = run_logs("--", Err(unit));
    assert_eq!(command.exit, 2);
    assert_eq!(
        command.outputs,
        vec![error_line(
            "error: connection `--`: connection id sanitizes to an empty unit name"
        )]
    );
}
