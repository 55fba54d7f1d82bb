use cloud_sql_tracker::config::validate_id;
use cloud_sql_tracker::model::{
    collapse_repeated_dashes, is_plain_id, sanitize_unit_id, unit_name, Connection, UnitNameError,
};
use cloud_sql_tracker::supervisor::{
    is_no_such_unit, is_service_unknown, read_snapshot, show, start_transient, stop,
    systemd_user_check, CallError, EnvVar, ExecOutcome, Property, PropertyValue, SupervisorError,
    UnitActiveState, UnitResult, UnitSnapshot, NO_SUCH_UNIT, SERVICE_UNKNOWN,
};

#[test]
fn sanitizing_is_done_after_one_pass() {
    for id in ["a", "..a--b..", "a b/c", "é-x", "-._:,-", "A__b"] {
        if let Ok(once) = sanitize_unit_id(id) {
            assert_eq!(sanitize_unit_id(&once), Ok(once.clone()), "{id}");
            assert!(!once.contains("--"));
            assert!(!once.starts_with(['.', '-']));
            assert!(!once.ends_with(['.', '-']));
            let name = unit_name(id).expect("something is left of the id");
            assert_eq!(name.as_str(), format!("cloud-sql-proxy-{once}.service"));
        }
    }
    assert_eq!(sanitize_unit_id("..a--b.."), Ok("a-b".to_string()));
    assert_eq!(sanitize_unit_id(""), Err(UnitNameError::Empty));
    assert_eq!(collapse_repeated_dashes("--a---b-"), "-a-b-");
}

#[test]
fn valid_ids_pass_through_unchanged() {
    for id in ["a--b", "a-", "a---", "0_-", "a-b", "a", "A__b--"] {
        assert!(is_plain_id(id));
        assert_eq!(validate_id(id), Ok(()));
        let name = unit_name(id).expect("a valid id has a unit name");
        assert_eq!(name.as_str(), format!("cloud-sql-proxy-{id}.service"));
    }
    let longest = format!("a{}", "-".repeat(63));
    assert_eq!(validate_id(&longest), Ok(()));
    let name = unit_name(&longest).expect("a valid id has a unit name");
    assert_eq!(name.as_str(), format!("cloud-sql-proxy-{longest}.service"));
}

#[test]
fn different_valid_ids_have_different_units() {
    let ids = ["a", "a-", "a--", "a-b", "a--b", "a_b", "A-b"];
    for a in ids {
        for b in ids {
            assert_eq!(unit_name(a) == unit_name(b), a == b, "{a} {b}");
        }
    }
}

#[test]
fn ids_off_the_pattern_are_sanitized() {
    for (id, unit) in [
        ("a--b!", "cloud-sql-proxy-a-b.service"),
        ("-a--b", "cloud-sql-proxy-a-b.service"),
        ("_a--b", "cloud-sql-proxy-_a-b.service"),
        ("a.b--c", "cloud-sql-proxy-a.b-c.service"),
        ("a-.", "cloud-sql-proxy-a.service"),
    ] {
        assert!(!is_plain_id(id));
        assert!(validate_id(id).is_err());
        assert_eq!(unit_name(id).expect("something is left").as_str(), unit);
    }
    assert!(!is_plain_id(""));
}

#[test]
fn unit_names_have_a_limit() {
    let longest = "a".repeat(231);
    assert_eq!(
        unit_name(&longest)
            .expect("255 characters are allowed")
            .as_str()
            .len(),
        255
    );
    let error = unit_name(&"a".repeat(232)).expect_err("256 characters are too many");
    assert_eq!(error, UnitNameError::TooLong { len: 256, max: 255 });
    assert_eq!(
        error.message(),
        "unit name is 256 bytes, exceeds the systemd limit of 255"
    );
}

fn text(name: &str, value: &str) -> Property {
    Property {
        name: name.to_string(),
        value: PropertyValue::Text(value.to_string()),
    }
}

fn property(name: &str, value: PropertyValue) -> Property {
    Property {
        name: name.to_string(),
        value,
    }
}

fn unit_properties() -> Vec<Property> {
    vec![
        text("Id", "cloud-sql-proxy-a.service"),
        text("ActiveState", "active"),
        text("SubState", "running"),
    ]
}

fn service_properties(pid: u32, started: u64) -> Vec<Property> {
    vec![
        property("MainPID", PropertyValue::U32(pid)),
        text("Result", "success"),
        property("ExecMainCode", PropertyValue::I32(1)),
        property("ExecMainStatus", PropertyValue::I32(143)),
        property("ExecMainStartTimestampMonotonic", PropertyValue::U64(started)),
        property("Environment", PropertyValue::Other),
    ]
}

#[test]
fn properties_make_a_snapshot() {
    assert_eq!(
        read_snapshot(&unit_properties(), &service_properties(42, 9)),
        Ok(UnitSnapshot::Loaded {
            active_state: UnitActiveState::Active,
            sub_state: "running".to_string(),
            main_pid: Some(42),
            result: UnitResult::Success,
            exec_outcome: ExecOutcome::ExitCode(143),
            started_at_monotonic_usec: Some(9),
        })
    );
}

#[test]
fn zero_means_that_there_is_none() {
    match read_snapshot(&unit_properties(), &service_properties(0, 0)) {
        Ok(UnitSnapshot::Loaded {
            main_pid,
            started_at_monotonic_usec,
            ..
        }) => {
            assert_eq!(main_pid, None);
            assert_eq!(started_at_monotonic_usec, None);
        }
        other => panic!("unexpected snapshot: {other:?}"),
    }
}

#[test]
fn a_missing_or_malformed_property_is_reported_by_name() {
    let mut incomplete = service_properties(42, 9);
    incomplete.remove(3);
    let error = read_snapshot(&unit_properties(), &incomplete).expect_err("it is missing");
    assert_eq!(
        error,
        SupervisorError::MissingProperty {
            property: "ExecMainStatus"
        }
    );
    assert_eq!(
        error.message(),
        "systemd did not report the `ExecMainStatus` property for a Unit"
    );
    let mut mistyped = service_properties(42, 9);
    mistyped[0].value = PropertyValue::I32(42);
    let error = read_snapshot(&unit_properties(), &mistyped).expect_err("it is mistyped");
    assert_eq!(
        error,
        SupervisorError::MalformedProperty {
            property: "MainPID"
        }
    );
    assert_eq!(
        error.message(),
        "systemd reported an unexpected type for the `MainPID` property"
    );
    assert_eq!(
        read_snapshot(&Vec::new(), &Vec::new()),
        Err(SupervisorError::MissingProperty {
            property: "ActiveState"
        })
    );
}

fn call_error(name: Option<&str>) -> CallError {
    CallError {
        name: name.map(str::to_string),
        detail: "why".to_string(),
    }
}

#[test]
fn an_unknown_unit_is_absent_and_already_stopped() {
    assert_eq!(show(call_error(Some(NO_SUCH_UNIT))), Ok(UnitSnapshot::Absent));
    assert_eq!(stop(Err(call_error(Some(NO_SUCH_UNIT)))), Ok(()));
    assert_eq!(stop(Ok(())), Ok(()));
    assert!(is_no_such_unit(&call_error(Some(NO_SUCH_UNIT))));
    for name in [None, Some(SERVICE_UNKNOWN), Some("other")] {
        assert!(!is_no_such_unit(&call_error(name)));
        assert_eq!(
            show(call_error(name)),
            Err(SupervisorError::Call(call_error(name)))
        );
        assert_eq!(
            stop(Err(call_error(name))),
            Err(SupervisorError::Call(call_error(name)))
        );
    }
}

#[test]
fn a_bus_without_a_user_manager_is_a_failing_dependency() {
    assert!(is_service_unknown(&call_error(Some(SERVICE_UNKNOWN))));
    assert!(SupervisorError::Call(call_error(Some(SERVICE_UNKNOWN))).is_dependency());
    assert!(!SupervisorError::Call(call_error(Some("other"))).is_dependency());
    assert!(!SupervisorError::Call(call_error(None)).is_dependency());
}

#[test]
fn the_manager_check_shows_the_version_or_the_error() {
    let row = systemd_user_check(&Ok("257".to_string()));
    assert_eq!(row.id, "systemd_user");
    assert_eq!(row.detail, "user bus ok (systemd 257)");
    assert_eq!(row.hint, None);
    let row = systemd_user_check(&Err(SupervisorError::Bus {
        detail: "no bus".to_string(),
    }));
    assert_eq!(row.detail, "could not reach the systemd user bus: no bus");
    assert!(row.hint.is_some());
}

#[test]
fn a_transient_unit_is_fully_spelled_out() {
    let mut connection = Connection {
        id: "fe dev".to_string(),
        name: "Frontend".to_string(),
        group: "fe".to_string(),
        instance: "proj:region:inst".to_string(),
        address: "127.0.0.1".to_string(),
        port: 15432,
        private_ip: false,
        auto_iam_authn: true,
        extra_args: vec!["--debug".to_string()],
        enabled: true,
    };
    let env = vec![EnvVar {
        name: "HOME".to_string(),
        value: "/home/me".to_string(),
    }];
    let unit = start_transient(&connection, "/bin/p", &env).expect("the id has a unit name");
    assert_eq!(unit.unit.as_str(), "cloud-sql-proxy-fe-dev.service");
    assert_eq!(unit.description, "Cloud SQL Auth Proxy (fe dev)");
    assert_eq!(unit.environment, vec!["HOME=/home/me"]);
    assert_eq!(
        unit.argv,
        vec![
            "/bin/p",
            "--address=127.0.0.1",
            "--port=15432",
            "--auto-iam-authn",
            "--debug",
            "--exit-zero-on-sigterm",
            "proj:region:inst",
        ]
    );
    connection.id = "--".to_string();
    assert_eq!(
        start_transient(&connection, "/bin/p", &env),
        Err(SupervisorError::UnitName(UnitNameError::Empty))
    );
}
