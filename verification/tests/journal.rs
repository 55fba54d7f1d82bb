use cloud_sql_tracker::commands::logs::{logs, logs_args, LogsCommandError};
use cloud_sql_tracker::config::Config;
use cloud_sql_tracker::journal::{
    check_row_for_journal_user, dump, dump_args, dump_from_output, journal_user_args,
    journal_user_check, run_journalctl, Dump, JournalError, JournalctlOutput, SpawnFailure,
};
use cloud_sql_tracker::model::{unit_name, CheckStatus, Connection};

#[test]
fn dump_from_output_is_empty_when_stdout_has_no_bytes() {
    assert_eq!(dump_from_output(Vec::new()), Dump::Empty);
}

#[test]
fn dump_from_output_is_empty_when_stdout_is_only_whitespace() {
    assert_eq!(dump_from_output(b" \n\t\n".to_vec()), Dump::Empty);
}

#[test]
fn dump_from_output_keeps_real_lines_unchanged() {
    let lines = b"2024-01-01T00:00:00+00:00 fe-dev[123]: listening\n".to_vec();

    let result = dump_from_output(lines.clone());

    assert_eq!(result, Dump::Bytes(lines));
}

#[test]
fn check_row_for_journal_user_passes_when_journalctl_succeeds() {
    let row = check_row_for_journal_user(&Ok(Vec::new()));

    assert_eq!(row.id, "journal_user");
    assert_eq!(row.status, CheckStatus::Pass);
    assert_eq!(row.hint, None);
}

#[test]
fn check_row_for_journal_user_fails_with_a_hint_when_journalctl_is_missing() {
    let row = check_row_for_journal_user(&Err(JournalError::NotFound));

    assert_eq!(row.id, "journal_user");
    assert_eq!(row.status, CheckStatus::Fail);
    assert!(row.detail.contains("journalctl"));
    assert!(row.hint.is_some());
}

fn failed_run(stderr: &[u8]) -> JournalctlOutput {
    JournalctlOutput {
        success: false,
        status: "exit status: 1".to_string(),
        stdout: b"partial".to_vec(),
        stderr: stderr.to_vec(),
    }
}

#[test]
fn run_journalctl_returns_stdout_bytes_when_the_fake_binary_succeeds() {
    let output = JournalctlOutput {
        success: true,
        status: "exit status: 0".to_string(),
        stdout: b"line one\nline two\n".to_vec(),
        stderr: b"ignored".to_vec(),
    };
    assert_eq!(
        run_journalctl(Ok(output)),
        Ok(b"line one\nline two\n".to_vec())
    );
}

#[test]
fn run_journalctl_reports_the_failure_detail_from_stderr() {
    let err = run_journalctl(Ok(failed_run(b"no journal files were found\n")))
        .expect_err("a failing run is an error");
    assert_eq!(
        err,
        JournalError::Failed {
            detail: "no journal files were found".to_string(),
        }
    );
    assert_eq!(
        err.message(),
        "journalctl failed: no journal files were found"
    );
}

#[test]
fn run_journalctl_falls_back_to_the_exit_status_when_stderr_is_empty() {
    let err = run_journalctl(Ok(failed_run(b" \n"))).expect_err("a failing run is an error");
    assert_eq!(
        err,
        JournalError::Failed {
            detail: "journalctl exited with status exit status: 1".to_string(),
        }
    );
}

#[test]
fn run_journalctl_reports_not_found_when_missing_from_path() {
    assert_eq!(
        run_journalctl(Err(SpawnFailure::NotFound)),
        Err(JournalError::NotFound)
    );
    assert_eq!(
        run_journalctl(Err(SpawnFailure::Other {
            detail: "denied".to_string()
        })),
        Err(JournalError::Failed {
            detail: "denied".to_string()
        })
    );
}

#[test]
fn invalid_utf8_on_stderr_is_replaced() {
    let err = run_journalctl(Ok(failed_run(&[b'a', 0xff, b'b'])))
        .expect_err("a failing run is an error");
    assert_eq!(
        err,
        JournalError::Failed {
            detail: "a\u{fffd}b".to_string(),
        }
    );
}

#[test]
fn ascii_whitespace_is_what_counts_as_blank() {
    assert_eq!(dump_from_output(b"\x0c\r".to_vec()), Dump::Empty);
    assert_eq!(
        dump_from_output(b"\x0b".to_vec()),
        Dump::Bytes(b"\x0b".to_vec())
    );
    assert_eq!(dump(Ok(Vec::new())), Ok(Dump::Empty));
    assert_eq!(dump(Err(JournalError::NotFound)), Err(JournalError::NotFound));
}

#[test]
fn journal_reads_have_fixed_arguments() {
    let unit = unit_name("fe-dev").expect("fe-dev is a valid id");
    assert_eq!(
        dump_args(&unit, 100),
        vec![
            "--user",
            "--unit=cloud-sql-proxy-fe-dev.service",
            "--no-pager",
            "--quiet",
            "-n",
            "100",
            "-o",
            "short-iso",
        ]
    );
    assert_eq!(
        journal_user_args(),
        vec!["--user", "-n", "0", "--no-pager"]
    );
}

#[test]
fn the_smoke_check_reports_why_the_journal_cannot_be_read() {
    let row = journal_user_check(Ok(failed_run(b"denied")));
    assert_eq!(row.status, CheckStatus::Fail);
    assert_eq!(row.detail, "journalctl failed: denied");
    assert!(row.hint.is_some());
    let row = journal_user_check(Err(SpawnFailure::NotFound));
    assert_eq!(row.detail, "journalctl not found on PATH");
}

fn one_connection() -> Config {
    Config {
        proxy_bin: "cloud-sql-proxy".to_string(),
        connections: vec![Connection {
            id: "fe-dev".to_string(),
            name: "fe-dev".to_string(),
            group: "fe".to_string(),
            instance: "proj:region:inst".to_string(),
            address: "127.0.0.1".to_string(),
            port: 15432,
            private_ip: false,
            auto_iam_authn: false,
            extra_args: Vec::new(),
            enabled: true,
        }],
    }
}

#[test]
fn logs_of_a_known_id_are_the_journal_unchanged() {
    let config = one_connection();
    assert_eq!(
        logs(&config, "fe-dev", Ok(b"line\n".to_vec())),
        Ok(Dump::Bytes(b"line\n".to_vec()))
    );
    assert_eq!(logs(&config, "fe-dev", Ok(Vec::new())), Ok(Dump::Empty));
    assert_eq!(
        logs(&config, "fe-dev", Err(JournalError::NotFound)),
        Err(LogsCommandError::Journal(JournalError::NotFound))
    );
    assert_eq!(
        logs(&config, "nope", Ok(Vec::new())),
        Err(LogsCommandError::UnknownId("nope".to_string()))
    );
    assert_eq!(
        logs_args(&config, "fe-dev", 7).expect("fe-dev is in the config")[5],
        "7"
    );
    assert!(logs_args(&config, "nope", 7).is_err());
}
