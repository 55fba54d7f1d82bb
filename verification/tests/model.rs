use cloud_sql_tracker::model::{unit_name, UnitNameError};

#[test]
fn unit_name_formats_a_plain_id() {
    let name = unit_name("fe-dev").expect("fe-dev is a valid id");
    assert_eq!(name.as_str(), "cloud-sql-proxy-fe-dev.service");
}

#[test]
fn unit_name_maps_disallowed_characters_to_a_dash() {
    let name = unit_name("fe dev!").expect("sanitizing should not fail");
    assert_eq!(name.as_str(), "cloud-sql-proxy-fe-dev.service");
}

#[test]
fn unit_name_collapses_repeated_dashes_from_sanitizing() {
    let name = unit_name("a!!!b").expect("sanitizing should not fail");
    assert_eq!(name.as_str(), "cloud-sql-proxy-a-b.service");
}

#[test]
fn unit_name_trims_leading_and_trailing_dot_or_dash() {
    let name = unit_name(".-a.b-.").expect("sanitizing should not fail");
    assert_eq!(name.as_str(), "cloud-sql-proxy-a.b.service");
}

#[test]
fn unit_name_rejects_an_id_that_sanitizes_to_nothing() {
    let err = unit_name("---").expect_err("an all-dash id sanitizes to nothing");
    assert_eq!(err, UnitNameError::Empty);
}

#[test]
fn unit_name_rejects_an_id_that_makes_the_unit_name_too_long() {
    let long_id = "a".repeat(232);
    let err = unit_name(&long_id).expect_err("256 bytes exceeds the systemd limit");
    assert_eq!(err, UnitNameError::TooLong { len: 256, max: 255 });
}

#[test]
fn unit_name_accepts_every_golden_config_id_unchanged() {
    for id in [
        "backend-dev",
        "backend-prod",
        "fe-dev",
        "fe-prod",
        "fe-rw-prod",
        "iot-dev",
        "iot-prod",
    ] {
        let name = unit_name(id).expect("golden ids are already unit-safe");
        assert_eq!(name.as_str(), format!("cloud-sql-proxy-{id}.service"));
    }
}
