use cloud_sql_tracker::model::{Connection, UnitNameError};
use cloud_sql_tracker::supervisor::{
    exec_outcome, map_active_state, map_unit_result, proxy_argv, ExecOutcome, SupervisorError,
    UnitActiveState, UnitResult, CLD_DUMPED, CLD_EXITED, CLD_KILLED,
};

#[test]
fn is_dependency_is_true_for_a_bus_failure() {
    let err = SupervisorError::Bus {
        detail: "no bus".to_string(),
    };
    assert!(err.is_dependency());
}

#[test]
fn is_dependency_is_false_for_a_missing_property() {
    let err = SupervisorError::MissingProperty {
        property: "MainPID",
    };
    assert!(!err.is_dependency());
}

#[test]
fn is_dependency_is_false_for_a_malformed_property() {
    let err = SupervisorError::MalformedProperty {
        property: "MainPID",
    };
    assert!(!err.is_dependency());
}

#[test]
fn is_dependency_is_false_for_a_unit_name_error() {
    let err = SupervisorError::UnitName(UnitNameError::Empty);
    assert!(!err.is_dependency());
}

fn connection(private_ip: bool, auto_iam_authn: bool, extra_args: Vec<&str>) -> Connection {
    Connection {
        id: "fe-dev".to_string(),
        name: "Frontend dev".to_string(),
        group: "fe".to_string(),
        instance: "proj:region:inst".to_string(),
        address: "127.0.0.1".to_string(),
        port: 15432,
        private_ip,
        auto_iam_authn,
        extra_args: extra_args.into_iter().map(str::to_string).collect(),
        enabled: true,
    }
}

#[test]
fn proxy_argv_has_the_minimal_shape_in_order() {
    let bin = "/usr/bin/cloud-sql-proxy";
    let argv = proxy_argv(&connection(false, false, vec![]), bin);

    assert_eq!(
        argv,
        vec![
            "/usr/bin/cloud-sql-proxy",
            "--address=127.0.0.1",
            "--port=15432",
            "--exit-zero-on-sigterm",
            "proj:region:inst",
        ]
    );
}

#[test]
fn proxy_argv_adds_private_ip_and_auto_iam_authn_before_extra_args() {
    let bin = "/usr/bin/cloud-sql-proxy";
    let argv = proxy_argv(&connection(true, true, vec!["--debug"]), bin);

    assert_eq!(
        argv,
        vec![
            "/usr/bin/cloud-sql-proxy",
            "--address=127.0.0.1",
            "--port=15432",
            "--private-ip",
            "--auto-iam-authn",
            "--debug",
            "--exit-zero-on-sigterm",
            "proj:region:inst",
        ]
    );
}

#[test]
fn proxy_argv_always_has_exactly_one_exit_zero_on_sigterm() {
    let bin = "/usr/bin/cloud-sql-proxy";
    for argv in [
        proxy_argv(&connection(false, false, vec![]), bin),
        proxy_argv(&connection(true, true, vec!["--a", "--b"]), bin),
        proxy_argv(
            &connection(false, false, vec!["--exit-zero-on-sigterm"]),
            bin,
        ),
        proxy_argv(
            &connection(
                false,
                false,
                vec!["--exit-zero-on-sigterm", "--a", "--exit-zero-on-sigterm"],
            ),
            bin,
        ),
    ] {
        let count = argv
            .iter()
            .filter(|arg| arg.as_str() == "--exit-zero-on-sigterm")
            .count();
        assert_eq!(count, 1);
        assert_eq!(argv[argv.len() - 2], "--exit-zero-on-sigterm");
    }
}

#[test]
fn map_active_state_recognizes_every_frozen_value() {
    assert_eq!(
        map_active_state("inactive".into()),
        UnitActiveState::Inactive
    );
    assert_eq!(
        map_active_state("activating".into()),
        UnitActiveState::Activating
    );
    assert_eq!(map_active_state("active".into()), UnitActiveState::Active);
    assert_eq!(
        map_active_state("deactivating".into()),
        UnitActiveState::Deactivating
    );
    assert_eq!(map_active_state("failed".into()), UnitActiveState::Failed);
}

#[test]
fn map_active_state_keeps_an_unknown_value_visible() {
    assert_eq!(
        map_active_state("reloading".into()),
        UnitActiveState::Unknown("reloading".to_string())
    );
}

#[test]
fn map_unit_result_recognizes_every_frozen_value() {
    assert_eq!(map_unit_result("success".into()), UnitResult::Success);
    assert_eq!(map_unit_result("exit-code".into()), UnitResult::ExitCode);
    assert_eq!(map_unit_result("signal".into()), UnitResult::Signal);
    assert_eq!(map_unit_result("timeout".into()), UnitResult::Timeout);
    assert_eq!(map_unit_result("core-dump".into()), UnitResult::CoreDump);
    assert_eq!(
        map_unit_result("exec-condition".into()),
        UnitResult::ExecCondition
    );
}

#[test]
fn map_unit_result_keeps_an_unknown_value_visible() {
    assert_eq!(
        map_unit_result("oom-kill".into()),
        UnitResult::Unknown("oom-kill".to_string())
    );
}

#[test]
fn exec_outcome_reads_zero_code_as_not_exited() {
    assert_eq!(exec_outcome(0, 0), ExecOutcome::NotExited);
}

#[test]
fn exec_outcome_reads_cld_exited_as_an_exit_code() {
    assert_eq!(
        exec_outcome(CLD_EXITED, 0),
        ExecOutcome::ExitCode(0)
    );
    assert_eq!(
        exec_outcome(CLD_EXITED, 143),
        ExecOutcome::ExitCode(143)
    );
}

#[test]
fn exec_outcome_reads_cld_killed_and_cld_dumped_as_a_signal() {
    assert_eq!(exec_outcome(CLD_KILLED, 9), ExecOutcome::Signal(9));
    assert_eq!(
        exec_outcome(CLD_DUMPED, 11),
        ExecOutcome::Signal(11)
    );
}

#[test]
fn exec_outcome_keeps_an_unknown_code_visible() {
    assert_eq!(
        exec_outcome(4, 7),
        ExecOutcome::Unknown { code: 4, status: 7 }
    );
}
