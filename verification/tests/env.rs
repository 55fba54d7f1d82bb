use cloud_sql_tracker::env::version_probe::{
    libc_etxtbsy, parse_proxy_version_output, probe_proxy_version, run_proxy_version_command,
    spawn_version_probe, token_looks_like_version, version_token_from_bytes,
    version_token_from_line, version_token_from_text, ProbeWait, ProxyVersionError,
    ProxyVersionOutput, SPAWN_ATTEMPTS,
};
use cloud_sql_tracker::env::{
    adc_check, bin_candidates, check_row_for_adc, check_row_for_proxy_bin_probe,
    check_row_for_proxy_bin_resolve_error, is_executable_file, is_readable_file, proxy_bin_check,
    proxy_bin_name, require_executable_file, resolve_adc_status, resolve_bin, Candidate,
    Credentials, FileFacts, ProxyBinError, ADC_RELATIVE_PATH,
};
use cloud_sql_tracker::model::CheckStatus;

fn bytes(text: &str) -> Vec<u8> {
    text.as_bytes().to_vec()
}

#[test]
fn env_parse_proxy_version_output_reads_the_real_version_line() {
    let version =
        parse_proxy_version_output(&bytes("cloud-sql-proxy version 2.25.2+linux.amd64\n"), &bytes(""))
            .expect("real cloud-sql-proxy -v line must parse");

    assert_eq!(version, "2.25.2+linux.amd64");
}

#[test]
fn version_probe_parse_proxy_version_output_reads_the_real_version_line() {
    let version =
        parse_proxy_version_output(&bytes("cloud-sql-proxy version 2.25.2+linux.amd64\n"), &bytes(""))
            .expect("real cloud-sql-proxy -v line must parse");

    assert_eq!(version, "2.25.2+linux.amd64");
}

#[test]
fn env_parse_proxy_version_output_falls_back_to_stderr() {
    let version = parse_proxy_version_output(&bytes(""), &bytes("cloud-sql-proxy version 2.0.0\n"))
        .expect("version line on stderr must parse");

    assert_eq!(version, "2.0.0");
}

#[test]
fn version_probe_parse_proxy_version_output_falls_back_to_stderr() {
    let version = parse_proxy_version_output(&bytes(""), &bytes("cloud-sql-proxy version 2.0.0\n"))
        .expect("version line on stderr must parse");

    assert_eq!(version, "2.0.0");
}

#[test]
fn env_parse_proxy_version_output_rejects_empty_output() {
    let err =
        parse_proxy_version_output(&bytes(""), &bytes("")).expect_err("empty output is not a version line");

    assert!(matches!(err, ProxyVersionError::IdentityMismatch { .. }));
}

#[test]
fn version_probe_parse_proxy_version_output_rejects_empty_output() {
    let err =
        parse_proxy_version_output(&bytes(""), &bytes("")).expect_err("empty output is not a version line");

    assert!(matches!(err, ProxyVersionError::IdentityMismatch { .. }));
}

#[test]
fn env_parse_proxy_version_output_rejects_unrelated_help_text() {
    let err = parse_proxy_version_output(&bytes("Usage: some-other-tool [flags]\n"), &bytes(""))
        .expect_err("unrelated help text is not cloud-sql-proxy");

    assert!(matches!(err, ProxyVersionError::IdentityMismatch { .. }));
}

#[test]
fn version_probe_parse_proxy_version_output_rejects_unrelated_help_text() {
    let err = parse_proxy_version_output(&bytes("Usage: some-other-tool [flags]\n"), &bytes(""))
        .expect_err("unrelated help text is not cloud-sql-proxy");

    assert!(matches!(err, ProxyVersionError::IdentityMismatch { .. }));
}

#[test]
fn env_parse_proxy_version_output_rejects_a_line_without_a_version_token() {
    let err = parse_proxy_version_output(&bytes("cloud-sql-proxy version \n"), &bytes(""))
        .expect_err("missing version token must fail");

    assert!(matches!(err, ProxyVersionError::IdentityMismatch { .. }));
}

#[test]
fn version_probe_parse_proxy_version_output_rejects_a_line_without_a_version_token() {
    let err = parse_proxy_version_output(&bytes("cloud-sql-proxy version \n"), &bytes(""))
        .expect_err("missing version token must fail");

    assert!(matches!(err, ProxyVersionError::IdentityMismatch { .. }));
}

#[test]
fn env_parse_proxy_version_output_rejects_a_wrong_product_name() {
    let err = parse_proxy_version_output(&bytes("other-proxy version 1.2.3\n"), &bytes(""))
        .expect_err("wrong product name must fail");

    assert!(matches!(err, ProxyVersionError::IdentityMismatch { .. }));
}

#[test]
fn version_probe_parse_proxy_version_output_rejects_a_wrong_product_name() {
    let err = parse_proxy_version_output(&bytes("other-proxy version 1.2.3\n"), &bytes(""))
        .expect_err("wrong product name must fail");

    assert!(matches!(err, ProxyVersionError::IdentityMismatch { .. }));
}

#[test]
fn parse_proxy_version_output_reads_a_line_with_a_log_prefix() {
    let version = parse_proxy_version_output(
        &bytes("2026/08/23 15:59:27 cloud-sql-proxy version 2.25.2+linux.amd64\n"),
        &bytes(""),
    )
    .expect("a decorated line still contains the version marker");

    assert_eq!(version, "2.25.2+linux.amd64");
}

#[test]
fn parse_proxy_version_output_accepts_128_byte_token() {
    let token = format!("v1{}", "0".repeat(126));
    assert_eq!(token.len(), 128);
    let line = format!("cloud-sql-proxy version {token}\n");
    let version = parse_proxy_version_output(&bytes(&line), &bytes(""))
        .expect("128-byte version token must parse");
    assert_eq!(version, token);
}

#[test]
fn parse_proxy_version_output_rejects_129_byte_token() {
    let token = format!("v1{}", "0".repeat(127));
    assert_eq!(token.len(), 129);
    let line = format!("cloud-sql-proxy version {token}\n");
    let err = parse_proxy_version_output(&bytes(&line), &bytes(""))
        .expect_err("129-byte version token must reject");
    assert!(matches!(err, ProxyVersionError::IdentityMismatch { .. }));
}

#[test]
fn check_row_for_proxy_bin_probe_passes_with_path_and_version() {
    let path = "/usr/bin/cloud-sql-proxy";

    let row = check_row_for_proxy_bin_probe(path, &Ok("2.25.2+linux.amd64".to_string()));

    assert_eq!(row.id, "proxy_bin");
    assert_eq!(row.status, CheckStatus::Pass);
    assert_eq!(row.detail, "/usr/bin/cloud-sql-proxy (2.25.2+linux.amd64)");
    assert_eq!(row.hint, None);
}

#[test]
fn check_row_for_proxy_bin_probe_fails_on_identity_mismatch() {
    let path = "/usr/bin/not-proxy";

    let row = check_row_for_proxy_bin_probe(
        path,
        &Err(ProxyVersionError::IdentityMismatch {
            detail: "output is not a cloud-sql-proxy version line".to_string(),
        }),
    );

    assert_eq!(row.id, "proxy_bin");
    assert_eq!(row.status, CheckStatus::Fail);
    assert!(row.detail.contains("/usr/bin/not-proxy"));
    assert!(row.hint.is_some());
}

#[test]
fn proxy_bin_check_fails_with_a_hint_when_not_found() {
    let row = check_row_for_proxy_bin_resolve_error(&ProxyBinError::NotFound {
        name: "cloud-sql-proxy".to_string(),
    });

    assert_eq!(row.id, "proxy_bin");
    assert_eq!(row.status, CheckStatus::Fail);
    assert!(row.detail.contains("cloud-sql-proxy"));
    assert!(row.hint.is_some());
}

#[test]
fn resolve_adc_status_without_a_home_directory_has_no_path() {
    let status = resolve_adc_status(&None, &None, false);

    assert!(!status.present);
    assert_eq!(status.path, None);
    assert!(!status.gac_env_set);
}

const EXECUTABLE: FileFacts = FileFacts {
    is_file: true,
    mode: 0o755,
};

const NOT_EXECUTABLE: FileFacts = FileFacts {
    is_file: true,
    mode: 0o644,
};

const MISSING: FileFacts = FileFacts {
    is_file: false,
    mode: 0,
};

/// The candidates of a binary, looked up in a list of files.
fn look_up(name: &str, path_env: &str, files: &[(&str, FileFacts)]) -> Vec<Candidate> {
    bin_candidates(name, path_env)
        .into_iter()
        .map(|path| {
            let facts = files
                .iter()
                .find(|(file, _)| *file == path)
                .map_or(MISSING, |(_, facts)| *facts);
            Candidate { path, facts }
        })
        .collect()
}

#[test]
fn resolve_bin_finds_an_executable_bare_name() {
    let found = look_up(
        "cloud-sql-proxy",
        "/found",
        &[("/found/cloud-sql-proxy", EXECUTABLE)],
    );
    assert_eq!(
        resolve_bin("cloud-sql-proxy", &found),
        Ok("/found/cloud-sql-proxy".to_string())
    );
}

#[test]
fn resolve_bin_skips_a_non_executable_match_before_the_real_one() {
    let found = look_up(
        "cloud-sql-proxy",
        "/wrong:/right",
        &[
            ("/wrong/cloud-sql-proxy", NOT_EXECUTABLE),
            ("/right/cloud-sql-proxy", EXECUTABLE),
        ],
    );
    assert_eq!(
        resolve_bin("cloud-sql-proxy", &found),
        Ok("/right/cloud-sql-proxy".to_string())
    );
}

#[test]
fn resolve_bin_rejects_a_name_missing_from_every_entry() {
    let found = look_up("cloud-sql-proxy", "/missing", &[]);
    let err = resolve_bin("cloud-sql-proxy", &found).expect_err("no entry has this name");
    assert_eq!(
        err,
        ProxyBinError::NotFound {
            name: "cloud-sql-proxy".to_string()
        }
    );
    assert_eq!(err.message(), "cloud-sql-proxy not found on PATH");
}

#[test]
fn resolve_bin_reports_not_executable_when_the_only_match_lacks_the_exec_bit() {
    let found = look_up(
        "cloud-sql-proxy",
        "/none:/dir",
        &[("/dir/cloud-sql-proxy", NOT_EXECUTABLE)],
    );
    let err = resolve_bin("cloud-sql-proxy", &found).expect_err("the only match cannot run");
    assert_eq!(
        err,
        ProxyBinError::NotExecutable {
            path: "/dir/cloud-sql-proxy".to_string()
        }
    );
    assert_eq!(
        err.message(),
        "/dir/cloud-sql-proxy is not an executable file"
    );
}

#[test]
fn resolve_bin_accepts_an_absolute_executable_path() {
    let found = look_up(
        "/opt/cloud-sql-proxy",
        "",
        &[("/opt/cloud-sql-proxy", EXECUTABLE)],
    );
    assert_eq!(
        resolve_bin("/opt/cloud-sql-proxy", &found),
        Ok("/opt/cloud-sql-proxy".to_string())
    );
}

#[test]
fn resolve_bin_rejects_an_absolute_non_executable_path() {
    for facts in [NOT_EXECUTABLE, MISSING] {
        let found = look_up(
            "/opt/cloud-sql-proxy",
            "/usr/bin",
            &[("/opt/cloud-sql-proxy", facts)],
        );
        assert_eq!(
            resolve_bin("/opt/cloud-sql-proxy", &found),
            Err(ProxyBinError::NotExecutable {
                path: "/opt/cloud-sql-proxy".to_string()
            })
        );
    }
}

#[test]
fn candidates_follow_the_search_path() {
    assert_eq!(
        bin_candidates("x", "/a:/b/::c"),
        vec!["/a/x", "/b/x", "x", "c/x"]
    );
    assert_eq!(bin_candidates("x", ""), vec!["x"]);
    assert_eq!(bin_candidates("/abs/x", "/a:/b"), vec!["/abs/x"]);
}

#[test]
fn any_execute_bit_makes_a_file_executable() {
    for mode in [0o100, 0o010, 0o001, 0o755] {
        assert!(is_executable_file(FileFacts {
            is_file: true,
            mode
        }));
    }
    for mode in [0, 0o644, 0o666] {
        assert!(!is_executable_file(FileFacts {
            is_file: true,
            mode
        }));
    }
    assert!(!is_executable_file(FileFacts {
        is_file: false,
        mode: 0o755
    }));
    assert_eq!(require_executable_file("/x", EXECUTABLE), Ok(()));
    assert_eq!(
        require_executable_file("/x", NOT_EXECUTABLE),
        Err(ProxyBinError::NotExecutable {
            path: "/x".to_string()
        })
    );
}

#[test]
fn the_proxy_binary_has_a_usual_name() {
    assert_eq!(proxy_bin_name(None), "cloud-sql-proxy");
    assert_eq!(proxy_bin_name(Some("/opt/p")), "/opt/p");
}

#[test]
fn version_probe_outcomes_are_told_apart() {
    let output = |success: bool, stdout: &str| ProxyVersionOutput {
        success,
        status: "exit status: 1".to_string(),
        stdout: bytes(stdout),
        stderr: Vec::new(),
    };
    let finished = |success: bool, stdout: &str| {
        probe_proxy_version(run_proxy_version_command(ProbeWait::Finished(output(
            success, stdout,
        ))))
    };
    assert_eq!(
        finished(true, "cloud-sql-proxy version 2.25.2+linux.amd64\n"),
        Ok("2.25.2+linux.amd64".to_string())
    );
    assert!(matches!(
        finished(true, "hello from some other tool\n"),
        Err(ProxyVersionError::IdentityMismatch { .. })
    ));
    let failed = finished(false, "cloud-sql-proxy version 2.25.2+linux.amd64\n")
        .expect_err("a failing exit is a failing probe");
    assert_eq!(failed.message(), "version probe exited exit status: 1");
    let timed_out = probe_proxy_version(run_proxy_version_command(ProbeWait::TimedOut))
        .expect_err("a hanging binary times out");
    assert_eq!(timed_out, ProxyVersionError::TimedOut);
    assert_eq!(timed_out.message(), "version probe timed out after 2s");
    let spawn = run_proxy_version_command(ProbeWait::SpawnFailed {
        detail: "no".to_string(),
    })
    .expect_err("a spawn failure is an error");
    assert_eq!(spawn.message(), "could not run version probe: no");
    let wait = run_proxy_version_command(ProbeWait::WaitFailed {
        detail: "no".to_string(),
    })
    .expect_err("a wait failure is an error");
    assert_eq!(wait.message(), "could not wait for version probe: no");
    let silent = run_proxy_version_command(ProbeWait::Disconnected)
        .expect_err("a silent end is an error");
    assert_eq!(
        silent.message(),
        "could not wait for version probe: version probe wait thread ended without a result"
    );
    assert_ne!(
        silent.hint(),
        ProxyVersionError::IdentityMismatch {
            detail: String::new()
        }
        .hint()
    );
}

#[test]
fn version_tokens_stand_on_one_line_behind_the_marker() {
    assert_eq!(
        version_token_from_line("x cloud-sql-proxy version   2.0  rest"),
        Some("2.0".to_string())
    );
    assert_eq!(version_token_from_line("cloud-sql-proxy version two"), None);
    assert_eq!(version_token_from_line("cloud-sql-proxy version"), None);
    assert_eq!(
        version_token_from_text("first\r\ncloud-sql-proxy version 1.0\r\nlast"),
        Some("1.0".to_string())
    );
    assert_eq!(
        version_token_from_text("cloud-sql-proxy version a\ncloud-sql-proxy version 3"),
        Some("3".to_string())
    );
    assert!(!token_looks_like_version(""));
    assert!(!token_looks_like_version("abc"));
    assert!(!token_looks_like_version("1\u{e9}"));
    assert!(token_looks_like_version("~1!"));
}

#[test]
fn invalid_utf8_does_not_hide_a_version() {
    let mut output = vec![0xff, 0xfe, b'\n'];
    output.extend(bytes("cloud-sql-proxy version 2.1.0\n"));
    assert_eq!(
        version_token_from_bytes(&output),
        Some("2.1.0".to_string())
    );
    let mut broken = bytes("cloud-sql-proxy version 2.");
    broken.push(0xff);
    assert_eq!(version_token_from_bytes(&broken), None);
}

fn home() -> Option<String> {
    Some("/home/me".to_string())
}

fn default_file() -> String {
    format!("/home/me/{ADC_RELATIVE_PATH}")
}

#[test]
fn resolve_adc_status_prefers_the_env_var_over_the_default_file() {
    let gac_file = "/keys/service-account.json".to_string();
    let status = resolve_adc_status(&home(), &Some(gac_file.clone()), true);
    assert!(status.present);
    assert_eq!(status.path, Some(gac_file));
    assert!(status.gac_env_set);
}

#[test]
fn resolve_adc_status_fails_when_the_env_var_points_at_a_missing_file() {
    let missing = "/keys/does-not-exist.json".to_string();
    let status = resolve_adc_status(&home(), &Some(missing.clone()), false);
    assert!(!status.present);
    assert_eq!(status.path, Some(missing.clone()));
    assert!(status.gac_env_set);
    assert_eq!(
        check_row_for_adc(&status, false).detail,
        format!(
            "GOOGLE_APPLICATION_CREDENTIALS is set to {missing} but that file is missing or unreadable"
        )
    );
}

#[test]
fn resolve_adc_status_falls_back_to_the_default_file_under_home() {
    let status = resolve_adc_status(&home(), &None, true);
    assert!(status.present);
    assert_eq!(status.path, Some(default_file()));
    assert!(!status.gac_env_set);
}

#[test]
fn resolve_adc_status_reports_missing_when_the_default_file_is_absent() {
    let status = resolve_adc_status(&home(), &None, false);
    assert!(!status.present);
    assert_eq!(status.path, Some(default_file()));
    assert!(!status.gac_env_set);
}

#[test]
fn resolve_adc_status_reports_absent_when_the_default_file_exists_but_is_unreadable() {
    let readable = is_readable_file(NOT_EXECUTABLE, false);
    let status = resolve_adc_status(&home(), &None, readable);
    assert!(!status.present);
    assert_eq!(status.path, Some(default_file()));
    assert!(!status.gac_env_set);
}

#[test]
fn only_an_opened_file_is_readable() {
    assert!(is_readable_file(NOT_EXECUTABLE, true));
    assert!(!is_readable_file(NOT_EXECUTABLE, false));
    assert!(!is_readable_file(MISSING, true));
}

#[test]
fn a_busy_program_file_is_tried_ten_times() {
    let busy = Some(libc_etxtbsy());
    let mut pauses = Vec::new();
    while let Some(pause) = spawn_version_probe(pauses.len() as u64, busy) {
        pauses.push(pause);
    }
    assert_eq!(pauses, vec![5, 10, 15, 20, 25, 30, 35, 40, 45]);
    assert_eq!(pauses.len() as u64 + 1, SPAWN_ATTEMPTS);
    assert_eq!(spawn_version_probe(0, Some(2)), None);
    assert_eq!(spawn_version_probe(0, None), None);
    assert_eq!(spawn_version_probe(u64::MAX, busy), None);
}

#[test]
fn adc_check_fail_detail_says_unreadable_for_an_existing_but_unreadable_default_file() {
    let row = check_row_for_adc(&resolve_adc_status(&home(), &None, false), true);
    assert_eq!(row.status, CheckStatus::Fail);
    assert!(row.detail.contains("unreadable"));
}

#[test]
fn adc_check_passes_with_the_credentials_path_as_detail() {
    let row = check_row_for_adc(&resolve_adc_status(&home(), &None, true), true);
    assert_eq!(row.id, "adc");
    assert_eq!(row.status, CheckStatus::Pass);
    assert_eq!(row.detail, default_file());
    assert_eq!(row.hint, None);
}

#[test]
fn adc_check_fails_with_a_google_adc_hint_when_missing() {
    let row = adc_check(&Credentials {
        home: home(),
        gac_env: None,
        readable: false,
        exists: false,
    });
    assert_eq!(row.status, CheckStatus::Fail);
    assert!(row.detail.contains("Application Default Credentials"));
    assert!(row.detail.contains("does not exist"));
    let hint = row.hint.expect("fail must carry a hint");
    assert!(hint.contains("gcloud auth application-default login"));
    assert!(hint.contains("https://cloud.google.com/docs/authentication/provide-credentials-adc"));
}

#[test]
fn without_a_home_directory_there_is_nothing_to_look_at() {
    let row = adc_check(&Credentials {
        home: None,
        gac_env: None,
        readable: true,
        exists: true,
    });
    assert_eq!(row.status, CheckStatus::Fail);
    assert_eq!(
        row.detail,
        "could not determine a home directory to look for Application Default Credentials"
    );
}

#[test]
fn the_proxy_check_puts_the_search_before_the_probe() {
    let not_found = Err(ProxyBinError::NotFound {
        name: "p".to_string(),
    });
    let missing = proxy_bin_check(&not_found, &Ok("1.0".to_string()));
    assert_eq!(missing.status, CheckStatus::Fail);
    assert_eq!(missing.detail, "p not found on PATH");
    let slow = proxy_bin_check(&Ok("/bin/p".to_string()), &Err(ProxyVersionError::TimedOut));
    assert_eq!(slow.status, CheckStatus::Fail);
    assert_eq!(slow.detail, "/bin/p: version probe timed out after 2s");
}
