use cloud_sql_tracker::cli::{
    error_code_label, exit_for_batch, resolve_selector, source_label, state_label,
    write_doctor_json, write_status_json, OutputCapError, SelectorArgs, DOCTOR_MAX_BYTES,
    STATUS_MAX_BYTES,
};
use cloud_sql_tracker::commands::mutate::{BatchOutcome, TargetOutcome, TargetResult};
use cloud_sql_tracker::commands::select::Selector;
use cloud_sql_tracker::model::{ErrorCode, HealthState, Source};

fn selector_args(id: Option<&str>, group: Option<&str>, all: bool) -> SelectorArgs {
    SelectorArgs {
        id: id.map(str::to_string),
        group: group.map(str::to_string),
        all,
    }
}

#[test]
fn resolve_selector_with_an_id_resolves_to_selector_id() {
    let selector = resolve_selector(selector_args(Some("fe-dev"), None, false), true)
        .expect("a lone id resolves");
    assert_eq!(selector, Selector::Id("fe-dev".to_string()));
}

#[test]
fn resolve_selector_with_a_group_resolves_to_selector_group() {
    let selector = resolve_selector(selector_args(None, Some("fe"), false), true)
        .expect("a lone group resolves");
    assert_eq!(selector, Selector::Group("fe".to_string()));
}

#[test]
fn resolve_selector_with_all_resolves_to_selector_all() {
    let selector =
        resolve_selector(selector_args(None, None, true), true).expect("a lone --all resolves");
    assert_eq!(selector, Selector::All);
}

#[test]
fn resolve_selector_defaults_to_all_when_not_required_and_omitted() {
    let selector = resolve_selector(selector_args(None, None, false), false)
        .expect("status defaults to All");
    assert_eq!(selector, Selector::All);
}

#[test]
fn resolve_selector_errors_when_required_and_omitted() {
    resolve_selector(selector_args(None, None, false), true)
        .expect_err("start/stop/restart require an explicit target");
}

#[test]
fn resolve_selector_errors_when_id_and_all_both_given() {
    resolve_selector(selector_args(Some("fe-dev"), None, true), true)
        .expect_err("id and --all cannot combine");
}

#[test]
fn resolve_selector_errors_when_id_and_group_both_given() {
    resolve_selector(selector_args(Some("fe-dev"), Some("fe"), false), true)
        .expect_err("id and --group cannot combine");
}

#[test]
fn resolve_selector_errors_when_group_and_all_both_given() {
    resolve_selector(selector_args(None, Some("fe"), true), true)
        .expect_err("--group and --all cannot combine");
}

fn outcome(results: Vec<TargetResult>) -> BatchOutcome {
    BatchOutcome {
        targets: results
            .into_iter()
            .enumerate()
            .map(|(index, result)| TargetOutcome {
                id: format!("id-{index}"),
                result,
            })
            .collect(),
    }
}

#[test]
fn exit_for_batch_is_zero_when_everything_succeeds() {
    let outcome = outcome(vec![TargetResult::Succeeded, TargetResult::Succeeded]);
    assert_eq!(exit_for_batch(&outcome), 0);
}

#[test]
fn exit_for_batch_is_zero_for_an_empty_batch() {
    assert_eq!(exit_for_batch(&outcome(vec![])), 0);
}

#[test]
fn exit_for_batch_is_zero_when_only_skips_and_successes_mix() {
    let outcome = outcome(vec![TargetResult::Succeeded, TargetResult::SkippedDisabled]);
    assert_eq!(exit_for_batch(&outcome), 0);
}

#[test]
fn exit_for_batch_is_one_when_some_succeed_and_some_fail() {
    let outcome = outcome(vec![
        TargetResult::Succeeded,
        TargetResult::Failed {
            code: ErrorCode::Unknown,
            message: "boom".to_string(),
        },
    ]);
    assert_eq!(exit_for_batch(&outcome), 1);
}

#[test]
fn exit_for_batch_is_four_when_every_attempted_target_fails() {
    let outcome = outcome(vec![TargetResult::Failed {
        code: ErrorCode::Unknown,
        message: "boom".to_string(),
    }]);
    assert_eq!(exit_for_batch(&outcome), 4);
}

#[test]
fn exit_for_batch_is_two_for_a_single_refused_disabled_target() {
    let outcome = outcome(vec![TargetResult::RefusedDisabled]);
    assert_eq!(exit_for_batch(&outcome), 2);
}

#[test]
fn exit_for_batch_prefers_three_for_any_dependency_failure() {
    let outcome = outcome(vec![
        TargetResult::Succeeded,
        TargetResult::Dependency {
            message: "no bus".to_string(),
        },
    ]);
    assert_eq!(exit_for_batch(&outcome), 3);
}

#[test]
fn error_code_label_matches_the_status_document_wire_catalog() {
    assert_eq!(error_code_label(ErrorCode::PortInUse), "port_in_use");
    assert_eq!(error_code_label(ErrorCode::StartTimeout), "start_timeout");
    assert_eq!(error_code_label(ErrorCode::UnitFailed), "unit_failed");
    assert_eq!(error_code_label(ErrorCode::ExecFailed), "exec_failed");
    assert_eq!(error_code_label(ErrorCode::BinMissing), "bin_missing");
    assert_eq!(error_code_label(ErrorCode::Auth), "auth");
    assert_eq!(error_code_label(ErrorCode::Config), "config");
    assert_eq!(error_code_label(ErrorCode::Unknown), "unknown");
}

#[test]
fn state_label_matches_the_status_document_wire_catalog() {
    assert_eq!(state_label(HealthState::Stopped), "stopped");
    assert_eq!(state_label(HealthState::Starting), "starting");
    assert_eq!(state_label(HealthState::Running), "running");
    assert_eq!(state_label(HealthState::Error), "error");
}

#[test]
fn source_label_matches_the_status_document_wire_catalog() {
    assert_eq!(source_label(Source::Unit), "unit");
    assert_eq!(source_label(Source::NoUnit), "none");
}

/// A JSON object with one text field.
fn json_with_text(field: &str, text: String) -> serde_json::Value {
    let mut object = serde_json::Map::new();
    object.insert(field.to_string(), serde_json::Value::String(text));
    serde_json::Value::Object(object)
}

fn pretty(value: &serde_json::Value) -> String {
    serde_json::to_string_pretty(value).expect("a JSON value always serializes")
}

#[test]
fn write_status_json_rejects_document_over_max_bytes_and_writes_zero_bytes() {
    let over_cap = pretty(&json_with_text("detail", "x".repeat(300_000)));
    let written = write_status_json(&over_cap);
    assert_eq!(
        written,
        Err(OutputCapError::CapExceeded {
            cap: STATUS_MAX_BYTES
        })
    );
}

#[test]
fn write_doctor_json_rejects_report_over_max_bytes_and_writes_zero_bytes() {
    let over_cap = pretty(&json_with_text("detail", "d".repeat(70_000)));
    let written = write_doctor_json(&over_cap);
    assert_eq!(
        written,
        Err(OutputCapError::CapExceeded {
            cap: DOCTOR_MAX_BYTES
        })
    );
}
