use cloud_sql_tracker::commands::logs::{resolve_unit, LogsCommandError};
use cloud_sql_tracker::config::Config;
use cloud_sql_tracker::model::Connection;

fn connection(id: &str) -> Connection {
    Connection {
        id: id.to_string(),
        name: id.to_string(),
        group: "fe".to_string(),
        instance: "proj:region:inst".to_string(),
        address: "127.0.0.1".to_string(),
        port: 15432,
        private_ip: false,
        auto_iam_authn: false,
        extra_args: Vec::new(),
        enabled: true,
    }
}

fn config(connections: Vec<Connection>) -> Config {
    Config {
        proxy_bin: "cloud-sql-proxy".to_string(),
        connections,
    }
}

#[test]
fn resolve_unit_returns_the_matching_connections_unit_name() {
    let config = config(vec![connection("fe-dev")]);

    let unit = resolve_unit(&config, "fe-dev").expect("fe-dev is in the config");

    assert_eq!(unit.as_str(), "cloud-sql-proxy-fe-dev.service");
}

#[test]
fn resolve_unit_errors_for_an_unknown_id() {
    let config = config(vec![connection("fe-dev")]);

    let err = resolve_unit(&config, "nope").expect_err("nope is not in the config");

    assert_eq!(err.message(), "unknown connection id `nope`");
    assert!(matches!(err, LogsCommandError::UnknownId(id) if id == "nope"));
}

#[test]
fn resolve_unit_finds_a_connection_even_when_others_do_not_match() {
    let config = config(vec![connection("backend-dev"), connection("fe-dev")]);

    let unit = resolve_unit(&config, "fe-dev").expect("fe-dev is in the config");

    assert_eq!(unit.as_str(), "cloud-sql-proxy-fe-dev.service");
}
