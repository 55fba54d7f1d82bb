use cloud_sql_tracker::commands::doctor::{classify_port, config_check, ports_check, PortScan};
use cloud_sql_tracker::config::{Config, ConfigError};
use cloud_sql_tracker::model::{CheckStatus, Connection, PortObservation, PortProbe};
use cloud_sql_tracker::supervisor::UnitSnapshot;

fn connection(id: &str, port: u16) -> Connection {
    Connection {
        id: id.to_string(),
        name: id.to_string(),
        group: "fe".to_string(),
        instance: "proj:region:inst".to_string(),
        address: "127.0.0.1".to_string(),
        port,
        private_ip: false,
        auto_iam_authn: false,
        extra_args: Vec::new(),
        enabled: true,
    }
}

fn config(connections: Vec<Connection>) -> Config {
    Config {
        proxy_bin: "cloud-sql-proxy".to_string(),
        connections,
    }
}

fn port_observation(probe: PortProbe, listener_pid: Option<u32>) -> PortObservation {
    PortObservation {
        probe,
        listener_pid,
        listener_name: None,
    }
}

#[test]
fn config_check_passes_with_the_path_and_connection_count() {
    let loaded = Ok(config(vec![connection("a", 15432), connection("b", 15433)]));
    let row = config_check("/tmp/connections.json", &loaded);

    assert_eq!(row.id, "config");
    assert_eq!(row.status, CheckStatus::Pass);
    assert!(row.detail.contains("/tmp/connections.json"));
    assert!(row.detail.contains('2'));
    assert_eq!(row.hint, None);
}

#[test]
fn config_check_fails_with_a_hint_when_config_is_invalid() {
    let loaded: Result<Config, ConfigError> = Err(ConfigError::EmptyProxyBin);
    let row = config_check("/tmp/connections.json", &loaded);

    assert_eq!(row.id, "config");
    assert_eq!(row.status, CheckStatus::Fail);
    assert!(row.detail.contains("proxy_bin"));
    assert!(row.hint.is_some());
}

#[test]
fn ports_check_is_pass_with_a_skipped_detail_when_config_is_not_loaded() {
    let row = ports_check(None, &Vec::new());

    assert_eq!(row.id, "ports");
    assert_eq!(row.status, CheckStatus::Pass);
    assert!(row.detail.contains("skipped"));
    assert_eq!(row.hint, None);
}

#[test]
fn ports_check_is_pass_with_no_conflicts_for_an_empty_connection_list() {
    let row = ports_check(Some(&config(Vec::new())), &Vec::new());

    assert_eq!(row.status, CheckStatus::Pass);
    assert_eq!(row.detail, "no port conflicts");
}

#[test]
fn ports_check_is_pass_when_the_only_configured_port_is_closed() {
    let scans = vec![PortScan::Probed {
        observation: port_observation(PortProbe::Closed, None),
        shown: Ok(UnitSnapshot::Absent),
    }];

    let row = ports_check(Some(&config(vec![connection("fe-dev", 15432)])), &scans);

    assert_eq!(row.status, CheckStatus::Pass);
    assert_eq!(row.detail, "no port conflicts");
}

#[test]
fn classify_port_is_ok_when_probe_is_closed() {
    let observation = port_observation(PortProbe::Closed, Some(111));
    let verdict = classify_port(&connection("fe-dev", 15432), &observation, None);
    assert_eq!(verdict, None);
}

#[test]
fn classify_port_is_ok_when_probe_is_unreachable() {
    let observation = port_observation(PortProbe::Unreachable, None);
    let verdict = classify_port(&connection("fe-dev", 15432), &observation, None);
    assert_eq!(verdict, None);
}

#[test]
fn classify_port_is_ok_when_the_listener_is_our_units_main_pid() {
    let observation = port_observation(PortProbe::Open, Some(111));
    let verdict = classify_port(&connection("fe-dev", 15432), &observation, Some(111));
    assert_eq!(verdict, None);
}

#[test]
fn classify_port_is_a_conflict_when_the_listener_is_a_different_pid() {
    let observation = port_observation(PortProbe::Open, Some(111));
    let verdict = classify_port(&connection("fe-dev", 15432), &observation, Some(222));
    assert!(verdict.unwrap().contains("111"));
}

#[test]
fn classify_port_is_a_conflict_when_our_unit_has_no_live_process() {
    let observation = port_observation(PortProbe::Open, Some(111));
    let verdict = classify_port(&connection("fe-dev", 15432), &observation, None);
    assert!(verdict.is_some());
}

#[test]
fn classify_port_is_a_conflict_when_the_listener_pid_is_unknown() {
    let observation = port_observation(PortProbe::Open, None);
    let verdict = classify_port(&connection("fe-dev", 15432), &observation, Some(111));
    assert!(verdict.unwrap().contains("unrecognized"));
}

#[test]
fn classify_port_detail_includes_the_holder_name_when_known() {
    let observation = PortObservation {
        probe: PortProbe::Open,
        listener_pid: Some(4321),
        listener_name: Some("docker-proxy".to_string()),
    };
    let verdict = classify_port(&connection("fe-dev", 15432), &observation, None).unwrap();

    assert!(verdict.contains("fe-dev"));
    assert!(verdict.contains("15432"));
    assert!(verdict.contains("docker-proxy"));
    assert!(verdict.contains("4321"));
}

