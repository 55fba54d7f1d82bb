use cloud_sql_tracker::commands::select::{expand, filter_failed, SelectError, Selector};
use cloud_sql_tracker::config::Config;
use cloud_sql_tracker::model::{Connection, HealthState, Source, StatusRow};

fn connection(id: &str, group: &str, enabled: bool) -> Connection {
    Connection {
        id: id.to_string(),
        name: id.to_string(),
        group: group.to_string(),
        instance: "proj:region:inst".to_string(),
        address: "127.0.0.1".to_string(),
        port: 15432,
        private_ip: false,
        auto_iam_authn: false,
        extra_args: Vec::new(),
        enabled,
    }
}

fn config(connections: Vec<Connection>) -> Config {
    Config {
        proxy_bin: "cloud-sql-proxy".to_string(),
        connections,
    }
}

fn three_connection_config() -> Config {
    config(vec![
        connection("a", "fe", true),
        connection("b", "backend", true),
        connection("c", "fe", true),
    ])
}

#[test]
fn expand_all_returns_every_connection_in_config_order() {
    let config = three_connection_config();
    let expanded = expand(&config, &Selector::All).expect("All always resolves");
    let ids: Vec<&str> = expanded.iter().map(|c| c.id.as_str()).collect();
    assert_eq!(ids, vec!["a", "b", "c"]);
}

#[test]
fn expand_all_includes_disabled_connections() {
    let config = config(vec![
        connection("a", "fe", true),
        connection("b", "fe", false),
    ]);
    let expanded = expand(&config, &Selector::All).expect("All always resolves");
    let ids: Vec<&str> = expanded.iter().map(|c| c.id.as_str()).collect();
    assert_eq!(ids, vec!["a", "b"]);
}

#[test]
fn expand_id_returns_the_matching_connection() {
    let config = three_connection_config();
    let expanded = expand(&config, &Selector::Id("b".to_string())).expect("b is in the config");
    assert_eq!(expanded.len(), 1);
    assert_eq!(expanded[0].id, "b");
}

#[test]
fn expand_id_errors_for_an_unknown_id() {
    let config = three_connection_config();
    let err = expand(&config, &Selector::Id("nope".to_string()))
        .expect_err("nope is not in the config");
    assert_eq!(err, SelectError::UnknownId("nope".to_string()));
}

#[test]
fn expand_id_includes_a_disabled_connection() {
    let config = config(vec![connection("a", "fe", false)]);
    let expanded = expand(&config, &Selector::Id("a".to_string())).expect("a is in the config");
    assert_eq!(expanded.len(), 1);
}

#[test]
fn expand_group_returns_every_connection_in_that_group_in_config_order() {
    let config = three_connection_config();
    let expanded =
        expand(&config, &Selector::Group("fe".to_string())).expect("fe has connections");
    let ids: Vec<&str> = expanded.iter().map(|c| c.id.as_str()).collect();
    assert_eq!(ids, vec!["a", "c"]);
}

#[test]
fn expand_group_errors_for_an_unknown_group() {
    let config = three_connection_config();
    let err = expand(&config, &Selector::Group("nope".to_string()))
        .expect_err("nope is not a configured group");
    assert_eq!(err, SelectError::UnknownGroup("nope".to_string()));
}

fn row(id: &str, state: HealthState) -> StatusRow {
    StatusRow {
        id: id.to_string(),
        name: id.to_string(),
        group: "fe".to_string(),
        instance: "proj:region:inst".to_string(),
        address: "127.0.0.1".to_string(),
        port: 15432,
        private_ip: false,
        enabled: true,
        state,
        source: Source::NoUnit,
        pid: None,
        unit: None,
        port_open: false,
        uptime_sec: None,
        error: None,
    }
}

#[test]
fn filter_failed_keeps_only_error_rows() {
    let rows = vec![
        row("a", HealthState::Running),
        row("b", HealthState::Error),
        row("c", HealthState::Stopped),
        row("d", HealthState::Error),
    ];
    let failed = filter_failed(&rows);
    let ids: Vec<&str> = failed.iter().map(|r| r.id.as_str()).collect();
    assert_eq!(ids, vec!["b", "d"]);
}

#[test]
fn filter_failed_is_empty_when_nothing_is_in_error() {
    let rows = vec![
        row("a", HealthState::Running),
        row("b", HealthState::Stopped),
    ];
    assert!(filter_failed(&rows).is_empty());
}
