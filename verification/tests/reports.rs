use cloud_sql_tracker::cli::{
    config_exit, run_doctor, run_status, Output, DOCTOR_MAX_BYTES, STATUS_MAX_BYTES,
};
use cloud_sql_tracker::clock::Timestamp;
use cloud_sql_tracker::commands::doctor::{doctor, ports_check, Findings, PortScan};
use cloud_sql_tracker::commands::select::{SelectError, Selector};
use cloud_sql_tracker::commands::status::{
    assemble_document, observe_and_reconcile, status, Probe, StatusCommandError,
};
use cloud_sql_tracker::config::{parse, Config, ConfigError, RawConfig, RawConnection};
use cloud_sql_tracker::env::version_probe::ProxyVersionError;
use cloud_sql_tracker::env::{Credentials, ProxyBinError};
use cloud_sql_tracker::journal::{JournalctlOutput, SpawnFailure};
use cloud_sql_tracker::model::{
    CheckStatus, Connection, DoctorReport, ErrorCode, HealthState, PortObservation, PortProbe,
    Source, StatusDocument, UnitNameError,
};
use cloud_sql_tracker::supervisor::{
    ExecOutcome, SupervisorError, UnitActiveState, UnitResult, UnitSnapshot,
};
use serde_json::Value;

fn now() -> Timestamp {
    Timestamp::new(1_000_000, 0)
}

fn raw_connection(id: &str, group: &str, port: u16) -> RawConnection {
    RawConnection {
        id: id.to_string(),
        name: id.to_string(),
        group: group.to_string(),
        instance: format!("proj:region:{id}"),
        port,
        address: None,
        private_ip: None,
        auto_iam_authn: None,
        extra_args: None,
        enabled: None,
    }
}

fn config(connections: Vec<RawConnection>) -> Config {
    parse(&RawConfig {
        version: 1,
        proxy_bin: None,
        defaults: None,
        connections,
    })
    .expect("the document is valid")
}

fn closed() -> PortObservation {
    PortObservation {
        probe: PortProbe::Closed,
        listener_pid: None,
        listener_name: None,
    }
}

fn open(listener_pid: Option<u32>) -> PortObservation {
    PortObservation {
        probe: PortProbe::Open,
        listener_pid,
        listener_name: None,
    }
}

fn active(pid: u32) -> UnitSnapshot {
    UnitSnapshot::Loaded {
        active_state: UnitActiveState::Active,
        sub_state: "running".to_string(),
        main_pid: Some(pid),
        result: UnitResult::Success,
        exec_outcome: ExecOutcome::NotExited,
        started_at_monotonic_usec: Some(40_000_000),
    }
}

fn bus_down() -> SupervisorError {
    SupervisorError::Bus {
        detail: "no bus".to_string(),
    }
}

fn three_connections() -> Config {
    config(vec![
        raw_connection("b", "beta", 20_001),
        raw_connection("a", "alpha", 20_002),
        raw_connection("c", "beta", 20_003),
    ])
}

#[test]
fn status_reports_every_selected_connection_in_order() {
    let probes = vec![
        Probe::Seen {
            snapshot: active(7),
            port: open(Some(7)),
        },
        Probe::InvalidAddress {
            detail: "invalid IP address syntax".to_string(),
        },
        Probe::Seen {
            snapshot: UnitSnapshot::Absent,
            port: closed(),
        },
    ];
    let document = status(
        &three_connections(),
        &Selector::All,
        probes,
        now(),
        Some(100_000_000),
        "0.1.0".to_string(),
    )
    .expect("nothing blocks the document");
    assert_eq!(document.version, 1);
    assert_eq!(document.ts, "1970-01-12T13:46:40Z");
    assert_eq!(document.cli_version, "0.1.0");
    let ids: Vec<&str> = document
        .connections
        .iter()
        .map(|row| row.id.as_str())
        .collect();
    assert_eq!(ids, vec!["b", "a", "c"]);
    assert_eq!(document.connections[0].state, HealthState::Running);
    assert_eq!(document.connections[0].pid, Some(7));
    assert_eq!(document.connections[0].uptime_sec, Some(60));
    let invalid = &document.connections[1];
    assert_eq!(invalid.state, HealthState::Error);
    assert_eq!(invalid.source, Source::NoUnit);
    let error = invalid.error.as_ref().expect("an invalid address is an error");
    assert_eq!(error.code, ErrorCode::Config);
    assert_eq!(
        error.detail,
        "connection `a` has an invalid address `127.0.0.1`: invalid IP address syntax"
    );
    assert_eq!(document.connections[2].state, HealthState::Stopped);
    let names: Vec<&str> = document
        .groups
        .iter()
        .map(|group| group.name.as_str())
        .collect();
    assert_eq!(names, vec!["alpha", "beta"]);
    assert_eq!(document.groups[1].counts.total, 2);
    assert_eq!(document.groups[1].counts.running, 1);
    assert_eq!(document.groups[1].counts.stopped, 1);
    assert_eq!(
        document.running + document.starting + document.error + document.stopped,
        document.total
    );
    assert_eq!(
        document
            .groups
            .iter()
            .map(|group| group.counts.total)
            .sum::<u32>(),
        document.total
    );
}

#[test]
fn status_stops_at_the_first_connection_that_cannot_be_read() {
    let seen = || Probe::Seen {
        snapshot: UnitSnapshot::Absent,
        port: closed(),
    };
    let result = status(
        &three_connections(),
        &Selector::All,
        vec![
            seen(),
            Probe::SupervisorFailed(bus_down()),
            Probe::SupervisorFailed(bus_down()),
        ],
        now(),
        None,
        "0.1.0".to_string(),
    );
    let error = result.expect_err("the second connection cannot be read");
    assert_eq!(
        error,
        StatusCommandError::Supervisor {
            id: "a".to_string(),
            source: bus_down()
        }
    );
    assert_eq!(
        error.message(),
        "connection `a`: could not reach the systemd user bus: no bus"
    );
}

#[test]
fn nothing_needs_to_be_looked_at_behind_a_failure() {
    let result = status(
        &three_connections(),
        &Selector::All,
        vec![Probe::SupervisorFailed(bus_down())],
        now(),
        None,
        "0.1.0".to_string(),
    );
    assert_eq!(
        result,
        Err(StatusCommandError::Supervisor {
            id: "b".to_string(),
            source: bus_down()
        })
    );
}

#[test]
fn status_refuses_unknown_targets() {
    let config = three_connections();
    let result = status(
        &config,
        &Selector::Group("gamma".to_string()),
        Vec::new(),
        now(),
        None,
        "0.1.0".to_string(),
    );
    assert_eq!(
        result,
        Err(StatusCommandError::Select(SelectError::UnknownGroup(
            "gamma".to_string()
        )))
    );
}

#[test]
fn an_id_without_a_unit_name_comes_before_everything_else() {
    let mut connection: Connection = three_connections().connections.remove(0);
    connection.id = "...".to_string();
    let result = observe_and_reconcile(
        &connection,
        Probe::SupervisorFailed(bus_down()),
        now(),
        None,
    );
    let error = result.expect_err("the id has no unit name");
    assert_eq!(
        error,
        StatusCommandError::UnitName {
            id: "...".to_string(),
            source: UnitNameError::Empty
        }
    );
    assert_eq!(
        error.message(),
        "connection `...`: connection id sanitizes to an empty unit name"
    );
}

fn number(n: u32) -> Value {
    Value::from(n)
}

fn text(s: &str) -> Value {
    Value::from(s)
}

/// The JSON of a document, as far as its size matters here.
fn status_json(document: &StatusDocument) -> String {
    let mut groups = serde_json::Map::new();
    for group in &document.groups {
        let mut counts = serde_json::Map::new();
        counts.insert("running".to_string(), number(group.counts.running));
        counts.insert("starting".to_string(), number(group.counts.starting));
        counts.insert("error".to_string(), number(group.counts.error));
        counts.insert("stopped".to_string(), number(group.counts.stopped));
        counts.insert("total".to_string(), number(group.counts.total));
        groups.insert(group.name.clone(), Value::Object(counts));
    }
    let rows: Vec<Value> = document
        .connections
        .iter()
        .map(|row| {
            let error = row.error.as_ref().expect("every row is in error");
            let mut object = serde_json::Map::new();
            object.insert("id".to_string(), text(&row.id));
            object.insert("name".to_string(), text(&row.name));
            object.insert("group".to_string(), text(&row.group));
            object.insert("instance".to_string(), text(&row.instance));
            object.insert("address".to_string(), text(&row.address));
            object.insert("port".to_string(), Value::from(row.port));
            object.insert("private_ip".to_string(), Value::from(row.private_ip));
            object.insert("enabled".to_string(), Value::from(row.enabled));
            object.insert("state".to_string(), text("error"));
            object.insert("source".to_string(), text("none"));
            object.insert("pid".to_string(), Value::Null);
            let unit = row.unit.as_ref().expect("every id has a unit name");
            object.insert("unit".to_string(), text(unit.as_str()));
            object.insert("port_open".to_string(), Value::from(row.port_open));
            object.insert("uptime_sec".to_string(), Value::Null);
            let mut fault = serde_json::Map::new();
            fault.insert("code".to_string(), text("config"));
            fault.insert("detail".to_string(), text(&error.detail));
            object.insert("error".to_string(), Value::Object(fault));
            Value::Object(object)
        })
        .collect();
    let mut root = serde_json::Map::new();
    root.insert("version".to_string(), number(document.version));
    root.insert("ts".to_string(), text(&document.ts));
    root.insert("cli_version".to_string(), text(&document.cli_version));
    root.insert("running".to_string(), number(document.running));
    root.insert("starting".to_string(), number(document.starting));
    root.insert("error".to_string(), number(document.error));
    root.insert("stopped".to_string(), number(document.stopped));
    root.insert("total".to_string(), number(document.total));
    root.insert("groups".to_string(), Value::Object(groups));
    root.insert("connections".to_string(), Value::Array(rows));
    serde_json::to_string_pretty(&Value::Object(root)).expect("a JSON value always serializes")
}

fn only_text(outputs: &[Output]) -> &str {
    match outputs {
        [Output::Text(text)] => text,
        other => panic!("unexpected outputs: {other:?}"),
    }
}

#[test]
fn status_json_stdout_32_row_max_config_input_coverage_stays_under_cap() {
    let rows: Vec<RawConnection> = (0..32)
        .map(|i| {
            let id = format!("c{i:063}");
            assert_eq!(id.len(), 64);
            let name = format!("\"\\{}", "a".repeat(62));
            assert_eq!(name.len(), 64);
            let group = format!("g{i:031}");
            assert_eq!(group.len(), 32);
            let instance = format!("proj:reg{i}:{}", "i".repeat(256 - 9 - format!("{i}").len()));
            assert_eq!(instance.len(), 256);
            let extra_args: Vec<String> = (0..16).map(|_| "x".repeat(128)).collect();
            let address = format!("invalid.local.host{}", "a".repeat(253 - 18));
            assert_eq!(address.len(), 253);
            RawConnection {
                id,
                name,
                group,
                instance,
                port: 20000 + i,
                address: Some(address),
                private_ip: None,
                auto_iam_authn: None,
                extra_args: Some(extra_args),
                enabled: None,
            }
        })
        .collect();
    let config = config(rows);
    let probes: Vec<Probe> = (0..32)
        .map(|_| Probe::InvalidAddress {
            detail: "invalid IP address syntax".to_string(),
        })
        .collect();
    let result = status(
        &config,
        &Selector::All,
        probes,
        now(),
        None,
        "0.1.0".to_string(),
    );
    let document = result.as_ref().expect("every row is there");
    assert_eq!(document.total, 32);
    assert_eq!(document.error, 32);
    let json = status_json(document);
    let command = run_status(&result, Some(&json));
    assert_eq!(command.exit, 0);
    let stdout = only_text(&command.outputs);
    assert!(stdout.len() <= 262_144);
    assert!(stdout.ends_with('\n'));
    let parsed: Value = serde_json::from_str(stdout).expect("stdout is JSON");
    assert_eq!(parsed["total"], 32);
}

#[test]
fn an_empty_document_is_a_success() {
    let result = status(
        &config(Vec::new()),
        &Selector::All,
        Vec::new(),
        now(),
        None,
        "0.1.0".to_string(),
    );
    assert_eq!(
        result,
        Ok(assemble_document(Vec::new(), now(), "0.1.0".to_string()))
    );
    assert_eq!(
        run_status(&result, None).outputs,
        vec![Output::Line(
            "0 running, 0 starting, 0 error, 0 stopped (of 0)".to_string()
        )]
    );
}

#[test]
fn a_document_may_fill_its_cap_to_the_last_byte() {
    let result = status(
        &config(Vec::new()),
        &Selector::All,
        Vec::new(),
        now(),
        None,
        "0.1.0".to_string(),
    );
    let fits = "x".repeat(STATUS_MAX_BYTES - 1);
    let command = run_status(&result, Some(&fits));
    assert_eq!(command.exit, 0);
    assert_eq!(only_text(&command.outputs).len(), STATUS_MAX_BYTES);
    let command = run_status(&result, Some(&format!("{fits}x")));
    assert_eq!(command.exit, 3);
    assert_eq!(
        command.outputs,
        vec![Output::ErrorLine(
            "error: status document exceeds maximum allowed output size (262144 bytes)".to_string()
        )]
    );
    let wide = "é".repeat(STATUS_MAX_BYTES / 2);
    assert_eq!(run_status(&result, Some(&wide)).exit, 3);
}

#[test]
fn over_limit_config_field_rejects_with_exit_code_2() {
    let mut connection = raw_connection("a", "g", 15432);
    connection.id = "a".repeat(65);
    let error = parse(&RawConfig {
        version: 1,
        proxy_bin: None,
        defaults: None,
        connections: vec![connection],
    })
    .expect_err("the id is too long");
    assert_eq!(config_exit(&error).exit, 2);
}

fn journal_output(success: bool) -> JournalctlOutput {
    JournalctlOutput {
        success,
        status: "exit status: 1".to_string(),
        stdout: Vec::new(),
        stderr: Vec::new(),
    }
}

fn sound_findings(config: Config, ports: Vec<PortScan>) -> Findings {
    Findings {
        loaded: Ok(config),
        proxy_bin: Ok("/bin/p".to_string()),
        proxy_version: Ok("2.25.2".to_string()),
        manager_version: Ok("257".to_string()),
        credentials: Credentials {
            home: Some("/home/me".to_string()),
            gac_env: None,
            readable: true,
            exists: true,
        },
        journal: Ok(journal_output(true)),
        ports,
    }
}

fn broken_findings() -> Findings {
    Findings {
        loaded: Err(ConfigError::Io {
            path: "/c.json".to_string(),
            detail: "No such file or directory (os error 2)".to_string(),
        }),
        proxy_bin: Err(ProxyBinError::NotFound {
            name: "cloud-sql-proxy".to_string(),
        }),
        proxy_version: Err(ProxyVersionError::TimedOut),
        manager_version: Err(bus_down()),
        credentials: Credentials {
            home: None,
            gac_env: None,
            readable: false,
            exists: false,
        },
        journal: Err(SpawnFailure::NotFound),
        ports: Vec::new(),
    }
}

fn check_ids(report: &DoctorReport) -> Vec<&str> {
    report.checks.iter().map(|row| row.id.as_str()).collect()
}

const CHECKS: [&str; 6] = [
    "config",
    "proxy_bin",
    "systemd_user",
    "adc",
    "journal_user",
    "ports",
];

#[test]
fn a_sound_environment_passes_every_check() {
    let report = doctor(
        "/c.json",
        sound_findings(config(Vec::new()), Vec::new()),
        "0.1.0".to_string(),
    );
    assert!(report.ok);
    assert_eq!(report.version, 1);
    assert_eq!(report.cli_version, "0.1.0");
    assert_eq!(check_ids(&report), CHECKS);
    assert_eq!(report.checks[0].detail, "/c.json (0 connections)");
    assert_eq!(report.checks[1].detail, "/bin/p (2.25.2)");
    for row in &report.checks {
        assert_eq!(row.status, CheckStatus::Pass);
        assert_eq!(row.hint, None);
    }
    let command = run_doctor(&report, None);
    assert_eq!(command.exit, 0);
    assert_eq!(command.outputs.len(), 7);
    assert_eq!(
        command.outputs[2],
        Output::Line("[PASS] systemd_user: user bus ok (systemd 257)".to_string())
    );
    assert_eq!(command.outputs[6], Output::Line("ok".to_string()));
}

#[test]
fn a_broken_environment_still_gets_every_check_with_hints() {
    let report = doctor("/c.json", broken_findings(), "0.1.0".to_string());
    assert!(!report.ok);
    assert_eq!(check_ids(&report), CHECKS);
    for row in &report.checks[..5] {
        assert_eq!(row.status, CheckStatus::Fail);
        assert!(row.hint.is_some(), "{}", row.id);
    }
    assert_eq!(report.checks[5].status, CheckStatus::Pass);
    assert_eq!(report.checks[5].detail, "skipped: config not loaded");
    assert_eq!(
        report.checks[0].detail,
        "/c.json: failed to read config file /c.json: No such file or directory (os error 2)"
    );
    let command = run_doctor(&report, None);
    assert_eq!(command.exit, 3);
    assert_eq!(command.outputs[6], Output::Line("FAILED".to_string()));
    let json = run_doctor(&report, Some("{}"));
    assert_eq!(json.exit, 3);
    assert_eq!(only_text(&json.outputs), "{}\n");
}

#[test]
fn one_failing_check_fails_the_report() {
    let mut findings = sound_findings(config(Vec::new()), Vec::new());
    findings.journal = Ok(journal_output(false));
    let report = doctor("/c.json", findings, "0.1.0".to_string());
    assert!(!report.ok);
    assert_eq!(
        report.checks[4].detail,
        "journalctl failed: journalctl exited with status exit status: 1"
    );
}

#[test]
fn doctor_json_stdout_max_config_input_coverage_stays_under_cap() {
    let path = format!("/tmp/{}/conn.json", "d".repeat(200));
    let report = doctor(&path, broken_findings(), "0.1.0".to_string());
    let checks: Vec<Value> = report
        .checks
        .iter()
        .map(|row| {
            let mut object = serde_json::Map::new();
            object.insert("id".to_string(), text(&row.id));
            object.insert("detail".to_string(), text(&row.detail));
            let hint = row.hint.as_deref().map_or(Value::Null, text);
            object.insert("hint".to_string(), hint);
            Value::Object(object)
        })
        .collect();
    let mut root = serde_json::Map::new();
    root.insert("ok".to_string(), Value::from(report.ok));
    root.insert("checks".to_string(), Value::Array(checks));
    let json = serde_json::to_string_pretty(&Value::Object(root)).expect("JSON");
    let command = run_doctor(&report, Some(&json));
    assert_eq!(command.exit, 3);
    let stdout = only_text(&command.outputs);
    assert!(stdout.len() <= 65_536);
    let parsed: Value = serde_json::from_str(stdout).expect("stdout is JSON");
    assert_eq!(parsed["ok"], false);
    assert_eq!(parsed["checks"].as_array().expect("a list").len(), 6);
}

#[test]
fn a_report_that_is_too_large_is_not_printed() {
    let report = doctor(
        "/c.json",
        sound_findings(config(Vec::new()), Vec::new()),
        "0.1.0".to_string(),
    );
    let command = run_doctor(&report, Some(&"x".repeat(DOCTOR_MAX_BYTES)));
    assert_eq!(command.exit, 3);
    assert_eq!(
        command.outputs,
        vec![Output::ErrorLine(
            "error: doctor report exceeds maximum allowed output size (65536 bytes)".to_string()
        )]
    );
}

#[test]
fn port_conflicts_are_listed_and_only_warned_about() {
    let config = three_connections();
    let scans = vec![
        PortScan::Probed {
            observation: open(Some(7)),
            shown: Ok(active(7)),
        },
        PortScan::Probed {
            observation: open(Some(8)),
            shown: Ok(active(7)),
        },
        PortScan::Probed {
            observation: open(None),
            shown: Err(bus_down()),
        },
    ];
    let row = ports_check(Some(&config), &scans);
    assert_eq!(row.status, CheckStatus::Warn);
    assert_eq!(
        row.detail,
        "a port 20002 held by pid 8; not our unit; \
         c port 20003 held by an unrecognized process; not our unit"
    );
    assert!(row.hint.is_some());
    let report = doctor("/c.json", sound_findings(config, scans), "0.1.0".to_string());
    assert!(report.ok);
    let unprobed = vec![PortScan::NotProbed, PortScan::NotProbed, PortScan::NotProbed];
    let row = ports_check(Some(&three_connections()), &unprobed);
    assert_eq!(row.status, CheckStatus::Pass);
}
