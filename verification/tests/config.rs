use cloud_sql_tracker::config::{
    by_id, default_path, parse, require_non_empty, validate_group, validate_id, validate_instance,
    validate_port, ConfigError, RawConfig, RawConnection, RawDefaults,
};
use serde_json::Value;

/// A config with seven connections in three groups.
const GOLDEN: &str = r#"{
    "version": 1,
    "proxy_bin": "cloud-sql-proxy",
    "defaults": {"address": "127.0.0.1", "private_ip": false},
    "connections": [
        {"id": "backend-dev", "name": "Backend Dev", "group": "backend", "instance": "acme-dev:europe-west1:backend-db-1", "port": 15432},
        {"id": "backend-prod", "name": "Backend Prod", "group": "backend", "instance": "acme-prod:europe-west1:backend-db-1", "port": 15433},
        {"id": "fe-dev", "name": "Frontend Dev", "group": "fe", "instance": "acme-dev:europe-west1:fe-db-1", "port": 15434},
        {"id": "fe-prod", "name": "Frontend Prod", "group": "fe", "instance": "acme-prod:europe-west1:fe-db-1", "port": 15435},
        {"id": "fe-rw-prod", "name": "Frontend RW Prod", "group": "fe", "instance": "acme-prod:europe-west1:fe-rw-db-1", "port": 15436},
        {"id": "iot-dev", "name": "IoT Dev", "group": "iot", "instance": "acme-dev:europe-west1:iot-db-1", "port": 15437},
        {"id": "iot-prod", "name": "IoT Prod", "group": "iot", "instance": "acme-prod:europe-west1:iot-db-1", "port": 15438}
    ]
}"#;

fn text_of(value: &Value, key: &str) -> Option<String> {
    value.get(key).and_then(Value::as_str).map(str::to_string)
}

fn flag_of(value: &Value, key: &str) -> Option<bool> {
    value.get(key).and_then(Value::as_bool)
}

fn args_of(value: &Value, key: &str) -> Option<Vec<String>> {
    value.get(key).and_then(Value::as_array).map(|args| {
        args.iter()
            .map(|arg| arg.as_str().expect("an argument is text").to_string())
            .collect()
    })
}

/// The raw document that a JSON text of the right shape stands for.
fn raw(json: &str) -> RawConfig {
    let value: Value = serde_json::from_str(json).expect("the fixture is JSON");
    let defaults = value.get("defaults").map(|defaults| RawDefaults {
        address: text_of(defaults, "address"),
        private_ip: flag_of(defaults, "private_ip"),
        auto_iam_authn: flag_of(defaults, "auto_iam_authn"),
        extra_args: args_of(defaults, "extra_args"),
        enabled: flag_of(defaults, "enabled"),
    });
    let connections = value["connections"]
        .as_array()
        .expect("connections is an array")
        .iter()
        .map(|connection| RawConnection {
            id: text_of(connection, "id").expect("id is given"),
            name: text_of(connection, "name").expect("name is given"),
            group: text_of(connection, "group").expect("group is given"),
            instance: text_of(connection, "instance").expect("instance is given"),
            port: connection["port"].as_u64().expect("port is given") as u16,
            address: text_of(connection, "address"),
            private_ip: flag_of(connection, "private_ip"),
            auto_iam_authn: flag_of(connection, "auto_iam_authn"),
            extra_args: args_of(connection, "extra_args"),
            enabled: flag_of(connection, "enabled"),
        })
        .collect();
    RawConfig {
        version: value["version"].as_i64().expect("version is given"),
        proxy_bin: text_of(&value, "proxy_bin"),
        defaults,
        connections,
    }
}


#[test]
fn parse_loads_the_golden_config() {
    let config = parse(&raw(GOLDEN)).expect("golden config is valid");
    assert_eq!(config.proxy_bin, "cloud-sql-proxy");
    assert_eq!(config.connections.len(), 7);

    let backend_dev =
        by_id(&config, "backend-dev").expect("backend-dev is in the golden config");
    assert_eq!(backend_dev.name, "Backend Dev");
    assert_eq!(backend_dev.group, "backend");
    assert_eq!(backend_dev.instance, "acme-dev:europe-west1:backend-db-1");
    assert_eq!(backend_dev.port, 15432);
    assert_eq!(backend_dev.address, "127.0.0.1");
    assert!(!backend_dev.private_ip);
    assert!(!backend_dev.auto_iam_authn);
    assert!(backend_dev.extra_args.is_empty());
    assert!(backend_dev.enabled);
}

#[test]
fn parse_rejects_a_duplicate_id() {
    let json = r#"{
        "version": 1,
        "connections": [
            {"id": "a", "name": "A", "group": "g", "instance": "p:r:i1", "port": 15432},
            {"id": "a", "name": "A2", "group": "g", "instance": "p:r:i2", "port": 15433}
        ]
    }"#;
    let err = parse(&raw(&json)).expect_err("duplicate id must reject");
    assert_eq!(err.message(), "duplicate connection id `a`");
}

#[test]
fn parse_rejects_a_duplicate_port() {
    let json = r#"{
        "version": 1,
        "connections": [
            {"id": "a", "name": "A", "group": "g", "instance": "p:r:i1", "port": 15432},
            {"id": "b", "name": "B", "group": "g", "instance": "p:r:i2", "port": 15432}
        ]
    }"#;
    let err = parse(&raw(&json)).expect_err("duplicate port must reject");
    assert_eq!(err.message(), "duplicate port 15432");
}

#[test]
fn parse_rejects_a_duplicate_instance() {
    let json = r#"{
        "version": 1,
        "connections": [
            {"id": "a", "name": "A", "group": "g", "instance": "p:r:i", "port": 15432},
            {"id": "b", "name": "B", "group": "g", "instance": "p:r:i", "port": 15433}
        ]
    }"#;
    let err = parse(&raw(&json)).expect_err("duplicate instance must reject");
    assert_eq!(err.message(), "duplicate instance `p:r:i`");
}

#[test]
fn parse_rejects_reserved_ports() {
    for port in [1, 1023, 5432, 3306, 1433] {
        let json = format!(
            r#"{{"version": 1, "connections": [{{"id": "a", "name": "A", "group": "g", "instance": "p:r:i", "port": {port}}}]}}"#
        );
        let err = parse(&raw(&json)).expect_err("reserved/privileged port must reject");
        assert!(
            matches!(err, ConfigError::InvalidConnection { .. }),
            "port {port}"
        );
    }
}

#[test]
fn parse_accepts_the_lowest_and_highest_unprivileged_ports() {
    let json = r#"{
        "version": 1,
        "connections": [
            {"id": "a", "name": "A", "group": "g", "instance": "p:r:i1", "port": 1024},
            {"id": "b", "name": "B", "group": "g", "instance": "p:r:i2", "port": 65535}
        ]
    }"#;
    let config = parse(&raw(&json)).expect("1024 and 65535 are both allowed");
    assert_eq!(config.connections[0].port, 1024);
    assert_eq!(config.connections[1].port, 65535);
}

#[test]
fn parse_rejects_an_invalid_id_charset() {
    let json = r#"{
        "version": 1,
        "connections": [
            {"id": "-a", "name": "A", "group": "g", "instance": "p:r:i", "port": 15432}
        ]
    }"#;
    let err = parse(&raw(&json)).expect_err("id starting with a dash must reject");
    assert!(matches!(err, ConfigError::InvalidConnection { .. }));
}

#[test]
fn parse_rejects_a_group_starting_with_a_dash() {
    let json = r#"{
        "version": 1,
        "connections": [
            {"id": "a", "name": "A", "group": "-legacy", "instance": "p:r:i", "port": 15432}
        ]
    }"#;
    let err = parse(&raw(&json)).expect_err("a group starting with '-' must reject");
    assert_eq!(
        err.message(),
        "connection `a`: group `-legacy` must not start with '-'"
    );
}

#[test]
fn parse_accepts_a_free_text_group_with_spaces_and_parens() {
    let json = r#"{
        "version": 1,
        "connections": [
            {"id": "a", "name": "A", "group": "Prod EU (read only)", "instance": "p:r:i", "port": 15432}
        ]
    }"#;
    let config = parse(&raw(&json)).expect("free-text group must load");
    assert_eq!(config.connections[0].group, "Prod EU (read only)");
}

#[test]
fn parse_accepts_a_group_with_a_multi_byte_first_character() {
    let json = r#"{
        "version": 1,
        "connections": [
            {"id": "a", "name": "A", "group": "über", "instance": "p:r:i1", "port": 15432},
            {"id": "b", "name": "B", "group": "–legacy", "instance": "p:r:i2", "port": 15433}
        ]
    }"#;
    let config = parse(&raw(&json)).expect("multi-byte first character must load");
    assert_eq!(config.connections[0].group, "über");
    assert_eq!(config.connections[1].group, "–legacy");
}

#[test]
fn parse_accepts_a_group_containing_a_newline() {
    let json = r#"{
        "version": 1,
        "connections": [
            {"id": "a", "name": "A", "group": "line1\nline2", "instance": "p:r:i", "port": 15432}
        ]
    }"#;
    let config = parse(&raw(&json)).expect("a group containing a newline must load");
    assert_eq!(config.connections[0].group, "line1\nline2");
}

#[test]
fn parse_rejects_an_empty_group() {
    let json = r#"{
        "version": 1,
        "connections": [
            {"id": "a", "name": "A", "group": "", "instance": "p:r:i", "port": 15432}
        ]
    }"#;
    let err = parse(&raw(&json)).expect_err("an empty group must reject");
    assert_eq!(err.message(), "connection `a`: group must not be empty");
}

#[test]
fn parse_rejects_an_empty_name() {
    let json = r#"{
        "version": 1,
        "connections": [
            {"id": "a", "name": "", "group": "g", "instance": "p:r:i", "port": 15432}
        ]
    }"#;
    let err = parse(&raw(&json)).expect_err("an empty name must reject");
    assert_eq!(err.message(), "connection `a`: name must not be empty");
}

#[test]
fn parse_rejects_an_empty_address() {
    let json = r#"{
        "version": 1,
        "connections": [
            {"id": "a", "name": "A", "group": "g", "instance": "p:r:i", "port": 15432, "address": ""}
        ]
    }"#;
    let err = parse(&raw(&json)).expect_err("an empty address must reject");
    assert_eq!(err.message(), "connection `a`: address must not be empty");
}

#[test]
fn parse_rejects_an_invalid_instance_shape() {
    let json = r#"{
        "version": 1,
        "connections": [
            {"id": "a", "name": "A", "group": "g", "instance": "not-three-segments", "port": 15432}
        ]
    }"#;
    let err =
        parse(&raw(&json)).expect_err("a non project:region:instance shape must reject");
    assert!(matches!(err, ConfigError::InvalidConnection { .. }));
}

fn connections_json(count: usize) -> String {
    let rows: Vec<String> = (0..count)
        .map(|i| {
            let enabled = if i == 0 { "false" } else { "true" };
            format!(
                r#"{{"id": "c{i}", "name": "C{i}", "group": "g", "instance": "p:r:i{i}", "port": {port}, "enabled": {enabled}}}"#,
                port = 20000 + i
            )
        })
        .collect();
    format!(r#"{{"version": 1, "connections": [{}]}}"#, rows.join(","))
}

#[test]
fn parse_rejects_a_config_with_more_than_32_connections() {
    let json = connections_json(33);
    let err = parse(&raw(&json)).expect_err("33 connections must reject");
    assert_eq!(
        err.message(),
        "config holds 33 connections, the maximum is 32"
    );
}

#[test]
fn parse_accepts_a_config_with_exactly_32_connections() {
    let json = connections_json(32);
    let config = parse(&raw(&json)).expect("32 connections is valid");
    assert_eq!(config.connections.len(), 32);
    assert!(!config.connections[0].enabled, "row 0 stays disabled");
}

#[test]
fn parse_rejects_an_unsupported_version() {
    let json = r#"{"version": 2, "connections": []}"#;
    let err = parse(&raw(&json)).expect_err("version 2 must reject");
    assert_eq!(
        err.message(),
        "config version 2 is not supported (expected 1)"
    );
}

#[test]
fn parse_accepts_an_empty_connections_array() {
    let json = r#"{"version": 1, "connections": []}"#;
    let config = parse(&raw(&json)).expect("an empty inventory is valid");
    assert!(config.connections.is_empty());
}

#[test]
fn parse_applies_built_in_defaults_when_nothing_else_is_set() {
    let json = r#"{
        "version": 1,
        "connections": [
            {"id": "a", "name": "A", "group": "g", "instance": "p:r:i", "port": 15432}
        ]
    }"#;
    let config = parse(&raw(&json)).expect("built-in defaults fill the rest");
    let connection = &config.connections[0];
    assert_eq!(connection.address, "127.0.0.1");
    assert!(!connection.private_ip);
    assert!(!connection.auto_iam_authn);
    assert!(connection.extra_args.is_empty());
    assert!(connection.enabled);
}

#[test]
fn parse_applies_file_defaults_over_built_ins() {
    let json = r#"{
        "version": 1,
        "defaults": {"address": "0.0.0.0", "enabled": false},
        "connections": [
            {"id": "a", "name": "A", "group": "g", "instance": "p:r:i", "port": 15432}
        ]
    }"#;
    let config = parse(&raw(&json)).expect("file defaults apply");
    let connection = &config.connections[0];
    assert_eq!(connection.address, "0.0.0.0");
    assert!(!connection.enabled);
}

#[test]
fn parse_lets_a_connection_override_file_defaults() {
    let json = r#"{
        "version": 1,
        "defaults": {"address": "0.0.0.0"},
        "connections": [
            {"id": "a", "name": "A", "group": "g", "instance": "p:r:i", "port": 15432, "address": "10.0.0.1"}
        ]
    }"#;
    let config = parse(&raw(&json)).expect("a connection can override a default");
    assert_eq!(config.connections[0].address, "10.0.0.1");
}

#[test]
fn parse_defaults_proxy_bin_when_absent() {
    let json = r#"{"version": 1, "connections": []}"#;
    let config = parse(&raw(&json)).expect("empty inventory is valid");
    assert_eq!(config.proxy_bin, "cloud-sql-proxy");
}

#[test]
fn parse_honors_an_explicit_proxy_bin() {
    let json = r#"{"version": 1, "proxy_bin": "/opt/bin/cloud-sql-proxy", "connections": []}"#;
    let config = parse(&raw(&json)).expect("explicit proxy_bin is honored");
    assert_eq!(config.proxy_bin, "/opt/bin/cloud-sql-proxy");
}

#[test]
fn parse_rejects_an_empty_proxy_bin() {
    let json = r#"{"version": 1, "proxy_bin": "", "connections": []}"#;
    let err = parse(&raw(&json)).expect_err("an empty proxy_bin must reject");
    assert_eq!(err.message(), "proxy_bin must not be empty");
}

#[test]
fn by_id_returns_none_for_an_unknown_id() {
    let config = parse(&raw(GOLDEN)).expect("golden config is valid");
    assert!(by_id(&config, "does-not-exist").is_none());
}


#[test]
fn default_path_prefers_xdg_config_home() {
    let path = default_path(&Some("/tmp/xdg-test-home".to_string()), "/home/me");
    assert_eq!(path, "/tmp/xdg-test-home/cloud-sql-tracker/connections.json");
}

#[test]
fn default_path_falls_back_to_the_home_directory() {
    let expected = "/home/me/.config/cloud-sql-tracker/connections.json";
    assert_eq!(default_path(&None, "/home/me"), expected);
    assert_eq!(default_path(&Some(String::new()), "/home/me"), expected);
    assert_eq!(default_path(&None, "/home/me/"), expected);
    assert_eq!(
        default_path(&None, ""),
        ".config/cloud-sql-tracker/connections.json"
    );
}

#[test]
fn every_validation_error_says_what_is_wrong() {
    let long = "a".repeat(65);
    assert_eq!(
        validate_id(&long),
        Err(format!(
            "id `{long}` must match ^[a-zA-Z0-9][a-zA-Z0-9_-]*$ and be at most 64 bytes"
        ))
    );
    assert_eq!(validate_id(&"a".repeat(64)), Ok(()));
    assert!(validate_id("").is_err());
    assert!(validate_id("_a").is_err());
    assert!(validate_id("ä").is_err());
    assert_eq!(validate_id("0_-Z"), Ok(()));
    assert_eq!(
        validate_port(1023),
        Err("port 1023 is privileged (must be >= 1024)".to_string())
    );
    assert_eq!(validate_port(5432), Err("port 5432 is reserved".to_string()));
    assert_eq!(validate_port(3306), Err("port 3306 is reserved".to_string()));
    assert_eq!(validate_port(1433), Err("port 1433 is reserved".to_string()));
    assert_eq!(validate_port(5433), Ok(()));
    assert_eq!(
        validate_instance("p:r"),
        Err("instance `p:r` must be project:region:instance (three non-empty segments)".to_string())
    );
    assert!(validate_instance("p::i").is_err());
    assert!(validate_instance("p:r:i:x").is_err());
    assert!(validate_instance("p:r r:i").is_err());
    assert!(validate_instance("p:r\u{a0}:i").is_err());
    assert_eq!(validate_instance("p:r:i"), Ok(()));
    assert_eq!(
        validate_group("-x"),
        Err("group `-x` must not start with '-'".to_string())
    );
    assert_eq!(
        require_non_empty("field", ""),
        Err("field must not be empty".to_string())
    );
}

#[test]
fn config_errors_have_their_own_words() {
    let io = ConfigError::Io {
        path: "/x".to_string(),
        detail: "gone".to_string(),
    };
    assert_eq!(io.message(), "failed to read config file /x: gone");
    let json = ConfigError::Json {
        detail: "bad".to_string(),
    };
    assert_eq!(json.message(), "invalid config JSON: bad");
    let version = ConfigError::UnsupportedVersion { found: -3 };
    assert_eq!(
        version.message(),
        "config version -3 is not supported (expected 1)"
    );
    let lowest = ConfigError::UnsupportedVersion { found: i64::MIN };
    assert_eq!(
        lowest.message(),
        "config version -9223372036854775808 is not supported (expected 1)"
    );
}

#[test]
fn merging_keeps_arguments_and_flags() {
    let json = r#"{
        "version": 1,
        "defaults": {"extra_args": ["--a"], "private_ip": true, "auto_iam_authn": true},
        "connections": [
            {"id": "a", "name": "A", "group": "g", "instance": "p:r:i1", "port": 15432},
            {"id": "b", "name": "B", "group": "g", "instance": "p:r:i2", "port": 15433, "extra_args": ["--b", "--c"], "private_ip": false}
        ]
    }"#;
    let config = parse(&raw(json)).expect("both connections are valid");
    assert_eq!(config.connections[0].extra_args, vec!["--a"]);
    assert!(config.connections[0].private_ip);
    assert!(config.connections[0].auto_iam_authn);
    assert_eq!(config.connections[1].extra_args, vec!["--b", "--c"]);
    assert!(!config.connections[1].private_ip);
}

#[test]
fn the_first_thing_wrong_is_reported() {
    let json = r#"{
        "version": 1,
        "proxy_bin": "",
        "connections": [
            {"id": "a", "name": "A", "group": "g", "instance": "p:r:i", "port": 15432},
            {"id": "a", "name": "", "group": "g", "instance": "p:r:i", "port": 15432}
        ]
    }"#;
    let err = parse(&raw(json)).expect_err("the second connection has no name");
    assert_eq!(err.message(), "connection `a`: name must not be empty");
}

#[test]
fn parsed_ids_find_their_connections() {
    let config = parse(&raw(GOLDEN)).expect("golden config is valid");
    for connection in &config.connections {
        let found = by_id(&config, &connection.id).expect("the id is in the config");
        assert_eq!(found, connection);
    }
}
