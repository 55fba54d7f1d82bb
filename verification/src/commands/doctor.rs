//! The `doctor` command: six checks, always all of them, in a fixed order.

use vstd::prelude::*;

use crate::config::{Config, ConfigError};
use crate::env;
use crate::env::version_probe::ProxyVersionError;
use crate::env::{Credentials, ProxyBinError};
use crate::journal;
use crate::journal::{JournalctlOutput, SpawnFailure};
use crate::model;
use crate::model::{
    CheckRow, CheckRowView, CheckStatus, Connection, ConnectionView, DoctorReport, PortObservation,
    PortProbe,
};
use crate::supervisor;
use crate::supervisor::{SupervisorError, UnitSnapshot};
use crate::text;

verus! {

pub const CONFIG_HINT: &'static str =
    "See docs/config.v1.md and examples/connections.json for a valid config.";

pub const PORTS_HINT: &'static str =
    "Free the port (stop the leftover process) before start, or change the Connection port in config.";

// ---------------------------------------------------------------------------
// The config.
// ---------------------------------------------------------------------------

pub open spec fn config_row(path: Seq<char>, loaded: Result<Config, ConfigError>) -> CheckRowView {
    match loaded {
        Ok(config) => CheckRowView {
            id: "config"@,
            status: CheckStatus::Pass,
            detail: path + " ("@ + text::digits(config.connections@.len()) + " connections)"@,
            hint: None,
        },
        Err(error) => CheckRowView {
            id: "config"@,
            status: CheckStatus::Fail,
            detail: path + ": "@ + error@.text(),
            hint: Some(CONFIG_HINT@),
        },
    }
}

/// The check of the config file.
pub fn config_check(path: &str, loaded: &Result<Config, ConfigError>) -> (row: CheckRow)
    ensures
        row@ == config_row(path@, *loaded),
{
    match loaded {
        Ok(config) => {
            let mut detail = path.to_owned();
            detail.append(" (");
            detail.append(text::decimal(config.connections.len() as u64).as_str());
            detail.append(" connections)");
            CheckRow { id: "config".to_owned(), status: CheckStatus::Pass, detail, hint: None }
        },
        Err(error) => {
            let mut detail = path.to_owned();
            detail.append(": ");
            detail.append(error.message().as_str());
            CheckRow {
                id: "config".to_owned(),
                status: CheckStatus::Fail,
                detail,
                hint: Some(CONFIG_HINT.to_owned()),
            }
        },
    }
}

// ---------------------------------------------------------------------------
// The ports.
// ---------------------------------------------------------------------------

/// What was found when a Connection's port was looked at.
#[derive(Debug)]
pub enum PortScan {
    /// The configured address is no IP address, so nothing can be probed.
    NotProbed,
    Probed { observation: PortObservation, shown: Result<UnitSnapshot, SupervisorError> },
}

/// Our unit's main process, where it is known.
pub open spec fn main_pid_of(
    id: Seq<char>,
    shown: Result<UnitSnapshot, SupervisorError>,
) -> Option<u32> {
    if model::unit_name_of(id) is Err {
        None
    } else {
        match shown {
            Ok(UnitSnapshot::Loaded { main_pid, .. }) => main_pid,
            _ => None,
        }
    }
}

pub fn our_unit_main_pid(
    connection: &Connection,
    shown: &Result<UnitSnapshot, SupervisorError>,
) -> (pid: Option<u32>)
    ensures
        pid == main_pid_of(connection.id@, *shown),
{
    if model::unit_name(connection.id.as_str()).is_err() {
        return None;
    }
    match shown {
        Ok(UnitSnapshot::Loaded { main_pid, .. }) => *main_pid,
        Ok(UnitSnapshot::Absent) => None,
        Err(_) => None,
    }
}

pub open spec fn conflict_text(
    id: Seq<char>,
    port: u16,
    listener_pid: Option<u32>,
    listener_name: Option<Seq<char>>,
) -> Seq<char> {
    let start = id + " port "@ + text::digits(port as nat);
    match (listener_pid, listener_name) {
        (Some(pid), Some(name)) => start + " held by "@ + name + " (pid "@ + text::digits(
            pid as nat,
        ) + "); not our unit"@,
        (Some(pid), None) => start + " held by pid "@ + text::digits(pid as nat)
            + "; not our unit"@,
        (None, _) => start + " held by an unrecognized process; not our unit"@,
    }
}

/// Who holds a Connection's port.
pub fn port_conflict_detail(connection: &Connection, observation: &PortObservation) -> (detail:
    String)
    ensures
        detail@ == conflict_text(
            connection.id@,
            connection.port,
            observation.listener_pid,
            text::option_view(observation.listener_name),
        ),
{
    let mut detail = connection.id.clone();
    detail.append(" port ");
    detail.append(text::decimal(connection.port as u64).as_str());
    match (observation.listener_pid, &observation.listener_name) {
        (Some(pid), Some(name)) => {
            detail.append(" held by ");
            detail.append(name.as_str());
            detail.append(" (pid ");
            detail.append(text::decimal(pid as u64).as_str());
            detail.append("); not our unit");
        },
        (Some(pid), None) => {
            detail.append(" held by pid ");
            detail.append(text::decimal(pid as u64).as_str());
            detail.append("; not our unit");
        },
        (None, _) => {
            detail.append(" held by an unrecognized process; not our unit");
        },
    }
    detail
}

/// A port is in conflict when it is open and its holder is not known to be
/// our unit's main process.
pub open spec fn port_verdict(
    id: Seq<char>,
    port: u16,
    observation: PortObservation,
    our_main_pid: Option<u32>,
) -> Option<Seq<char>> {
    if observation.probe != PortProbe::Open {
        None
    } else if observation.listener_pid is Some && observation.listener_pid == our_main_pid {
        None
    } else {
        Some(
            conflict_text(
                id,
                port,
                observation.listener_pid,
                text::option_view(observation.listener_name),
            ),
        )
    }
}

/// The conflict on a Connection's port, if there is one.
pub fn classify_port(
    connection: &Connection,
    observation: &PortObservation,
    our_main_pid: Option<u32>,
) -> (conflict: Option<String>)
    ensures
        text::option_view(conflict) == port_verdict(
            connection.id@,
            connection.port,
            *observation,
            our_main_pid,
        ),
{
    if !matches!(observation.probe, PortProbe::Open) {
        return None;
    }
    match (observation.listener_pid, our_main_pid) {
        (Some(holder), Some(ours)) => if holder == ours {
            return None;
        },
        _ => {},
    }
    Some(port_conflict_detail(connection, observation))
}

pub open spec fn scan_verdict(connection: Connection, scan: PortScan) -> Option<Seq<char>> {
    match scan {
        PortScan::NotProbed => None,
        PortScan::Probed { observation, shown } => port_verdict(
            connection.id@,
            connection.port,
            observation,
            main_pid_of(connection.id@, shown),
        ),
    }
}

/// The conflict that the look at a Connection's port found, if there is one.
pub fn port_conflict(connection: &Connection, scan: &PortScan) -> (conflict: Option<String>)
    ensures
        text::option_view(conflict) == scan_verdict(*connection, *scan),
{
    match scan {
        PortScan::NotProbed => None,
        PortScan::Probed { observation, shown } => classify_port(
            connection,
            observation,
            our_unit_main_pid(connection, shown),
        ),
    }
}

/// The conflicts of the Connections, in their order.
pub open spec fn conflicts_of(connections: Seq<Connection>, scans: Seq<PortScan>) -> Seq<Seq<char>>
    decreases connections.len(),
{
    if connections.len() == 0 {
        Seq::empty()
    } else {
        let before = conflicts_of(connections.drop_last(), scans);
        match scan_verdict(connections.last(), scans[connections.len() - 1]) {
            Some(conflict) => before.push(conflict),
            None => before,
        }
    }
}

/// Texts with a separator between each two of them.
pub open spec fn joined_by(texts: Seq<Seq<char>>, separator: Seq<char>) -> Seq<char>
    decreases texts.len(),
{
    if texts.len() == 0 {
        Seq::empty()
    } else if texts.len() == 1 {
        texts[0]
    } else {
        joined_by(texts.drop_last(), separator) + separator + texts.last()
    }
}

pub open spec fn ports_row(config: Option<Config>, scans: Seq<PortScan>) -> CheckRowView {
    match config {
        None => CheckRowView {
            id: "ports"@,
            status: CheckStatus::Pass,
            detail: "skipped: config not loaded"@,
            hint: None,
        },
        Some(config) => {
            let conflicts = conflicts_of(config.connections@, scans);
            if conflicts.len() == 0 {
                CheckRowView {
                    id: "ports"@,
                    status: CheckStatus::Pass,
                    detail: "no port conflicts"@,
                    hint: None,
                }
            } else {
                CheckRowView {
                    id: "ports"@,
                    status: CheckStatus::Warn,
                    detail: joined_by(conflicts, "; "@),
                    hint: Some(PORTS_HINT@),
                }
            }
        },
    }
}

pub open spec fn config_of(config: Option<&Config>) -> Option<Config> {
    match config {
        Some(config) => Some(*config),
        None => None,
    }
}

/// The check of the configured ports, from a look at each of them. It warns
/// and never fails.
pub fn ports_check(config: Option<&Config>, scans: &Vec<PortScan>) -> (row: CheckRow)
    requires
        config matches Some(config) ==> scans@.len() == config.connections@.len(),
    ensures
        row@ == ports_row(config_of(config), scans@),
{
    let config = match config {
        Some(config) => config,
        None => return CheckRow {
            id: "ports".to_owned(),
            status: CheckStatus::Pass,
            detail: "skipped: config not loaded".to_owned(),
            hint: None,
        },
    };
    let connections = &config.connections;
    let mut detail = String::new();
    let mut found = false;
    let mut i: usize = 0;
    assert(connections@.take(0) =~= Seq::empty());
    while i < connections.len()
        invariant
            connections == config.connections,
            scans@.len() == connections@.len(),
            i <= connections@.len(),
            found == (conflicts_of(connections@.take(i as int), scans@).len() > 0),
            detail@ == joined_by(conflicts_of(connections@.take(i as int), scans@), "; "@),
        decreases connections@.len() - i,
    {
        let ghost before = conflicts_of(connections@.take(i as int), scans@);
        proof {
            assert(connections@.take(i + 1).drop_last() =~= connections@.take(i as int));
        }
        match port_conflict(&connections[i], &scans[i]) {
            Some(conflict) => {
                if found {
                    detail.append("; ");
                }
                detail.append(conflict.as_str());
                proof {
                    let after = before.push(conflict@);
                    assert(after.drop_last() =~= before);
                    assert(detail@ =~= joined_by(after, "; "@));
                }
                found = true;
            },
            None => {},
        }
        i += 1;
    }
    assert(connections@.take(connections@.len() as int) =~= connections@);
    if found {
        CheckRow {
            id: "ports".to_owned(),
            status: CheckStatus::Warn,
            detail,
            hint: Some(PORTS_HINT.to_owned()),
        }
    } else {
        CheckRow {
            id: "ports".to_owned(),
            status: CheckStatus::Pass,
            detail: "no port conflicts".to_owned(),
            hint: None,
        }
    }
}

// ---------------------------------------------------------------------------
// The report.
// ---------------------------------------------------------------------------

/// What was found out for the checks.
#[derive(Debug)]
pub struct Findings {
    pub loaded: Result<Config, ConfigError>,
    pub proxy_bin: Result<String, ProxyBinError>,
    pub proxy_version: Result<String, ProxyVersionError>,
    pub manager_version: Result<String, SupervisorError>,
    pub credentials: Credentials,
    pub journal: Result<JournalctlOutput, SpawnFailure>,
    /// One for each Connection of a config that was loaded.
    pub ports: Vec<PortScan>,
}

/// The six rows of a report.
pub open spec fn rows_of(path: Seq<char>, findings: Findings) -> Seq<CheckRowView> {
    seq![
        config_row(path, findings.loaded),
        env::proxy_bin_row(findings.proxy_bin, findings.proxy_version),
        supervisor::systemd_user_row(supervisor::version_view(findings.manager_version)),
        env::adc_row(
            findings.credentials.present(),
            findings.credentials.path(),
            findings.credentials.gac_env is Some,
            findings.credentials.exists,
        ),
        journal::journal_user_row(journal::run_error_text(findings.journal)),
        ports_row(findings.loaded.ok(), findings.ports@),
    ]
}

/// No check failed.
pub open spec fn none_failed(rows: Seq<CheckRowView>) -> bool {
    forall|i: int| 0 <= i < rows.len() ==> (#[trigger] rows[i]).status != CheckStatus::Fail
}

fn no_failure(checks: &Vec<CheckRow>) -> (ok: bool)
    ensures
        ok == none_failed(model::check_views(checks@)),
{
    let ghost rows = model::check_views(checks@);
    let mut i: usize = 0;
    while i < checks.len()
        invariant
            rows == model::check_views(checks@),
            i <= checks@.len(),
            forall|k: int| 0 <= k < i ==> (#[trigger] rows[k]).status != CheckStatus::Fail,
        decreases checks@.len() - i,
    {
        if checks[i].status == CheckStatus::Fail {
            assert(rows[i as int].status == CheckStatus::Fail);
            return false;
        }
        i += 1;
    }
    true
}

/// The report on everything that was found out. A config that could not be
/// loaded fails its own check; the others are there all the same.
pub fn doctor(cfg_path: &str, findings: Findings, cli_version: String) -> (report: DoctorReport)
    requires
        findings.loaded matches Ok(config) ==> findings.ports@.len() == config.connections@.len(),
    ensures
        report.version == 1,
        report.cli_version == cli_version,
        model::check_views(report.checks@) == rows_of(cfg_path@, findings),
        report.ok == none_failed(rows_of(cfg_path@, findings)),
{
    let config: Option<&Config> = match &findings.loaded {
        Ok(config) => Some(config),
        Err(_) => None,
    };
    let mut checks: Vec<CheckRow> = Vec::new();
    checks.push(config_check(cfg_path, &findings.loaded));
    checks.push(env::proxy_bin_check(&findings.proxy_bin, &findings.proxy_version));
    checks.push(supervisor::systemd_user_check(&findings.manager_version));
    checks.push(env::adc_check(&findings.credentials));
    let ports = ports_check(config, &findings.ports);
    checks.push(journal::journal_user_check(findings.journal));
    checks.push(ports);
    assert(model::check_views(checks@) =~= rows_of(cfg_path@, findings));
    let ok = no_failure(&checks);
    DoctorReport { version: 1, cli_version, ok, checks }
}

// ---------------------------------------------------------------------------
// Laws.
// ---------------------------------------------------------------------------

/// A port conflict never fails the report.
pub proof fn ports_never_fail(config: Option<Config>, scans: Seq<PortScan>)
    ensures
        ports_row(config, scans).status != CheckStatus::Fail,
{
}

/// An open port whose holder is not known is never taken for ours.
pub proof fn unknown_holders_are_conflicts(
    id: Seq<char>,
    port: u16,
    observation: PortObservation,
    our_main_pid: Option<u32>,
)
    requires
        observation.probe == PortProbe::Open,
        observation.listener_pid is None,
    ensures
        port_verdict(id, port, observation, our_main_pid) is Some,
{
}

/// A report always holds the same six checks in the same order, and a config
/// that could not be loaded makes it fail.
pub proof fn reports_are_complete(path: Seq<char>, findings: Findings)
    ensures
        rows_of(path, findings).len() == 6,
        rows_of(path, findings)[0].id == "config"@,
        rows_of(path, findings)[1].id == "proxy_bin"@,
        rows_of(path, findings)[2].id == "systemd_user"@,
        rows_of(path, findings)[3].id == "adc"@,
        rows_of(path, findings)[4].id == "journal_user"@,
        rows_of(path, findings)[5].id == "ports"@,
        findings.loaded is Err ==> !none_failed(rows_of(path, findings)),
{
    assert(rows_of(path, findings)[0].id == "config"@);
    if findings.loaded is Err {
        assert(rows_of(path, findings)[0].status == CheckStatus::Fail);
    }
}

/// Failing checks come with a hint.
pub proof fn failures_come_with_hints(path: Seq<char>, findings: Findings, i: int)
    requires
        0 <= i < 6,
        rows_of(path, findings)[i].status == CheckStatus::Fail,
    ensures
        rows_of(path, findings)[i].hint is Some,
{
}

/// Whether a Connection's port was found open without its holder being known
/// to be the main process of the Connection's own unit.
pub open spec fn held_by_another(connection: Connection, scan: PortScan) -> bool {
    match scan {
        PortScan::NotProbed => false,
        PortScan::Probed { observation, shown } => observation.probe == PortProbe::Open && !(
        observation.listener_pid is Some && model::unit_name_of(connection.id@) is Ok && shown is Ok
            && shown->Ok_0 is Loaded && shown->Ok_0->main_pid == observation.listener_pid),
    }
}

/// A port is in conflict exactly where it is open and not known to be held by
/// the Connection's own unit. The conflict names the Connection, its port, and
/// all that is known of the holder.
pub proof fn ports_of_others_are_conflicts(
    connection: &Connection,
    scan: &PortScan,
    conflict: Option<String>,
)
    requires
        call_ensures(port_conflict, (connection, scan), conflict),
    ensures
        conflict is Some <==> held_by_another(*connection, *scan),
        conflict matches Some(detail) ==> {
            let port = connection.id@ + " port "@ + text::digits(connection.port as nat);
            let holder = scan->observation.listener_pid;
            let name = scan->observation.listener_name;
            &&& port.is_prefix_of(detail@)
            &&& holder is Some && name is Some ==> detail@ == port + " held by "@ + name->0@
                + " (pid "@ + text::digits(holder->0 as nat) + "); not our unit"@
            &&& holder is Some && name is None ==> detail@ == port + " held by pid "@
                + text::digits(holder->0 as nat) + "; not our unit"@
            &&& holder is None ==> detail@ == port
                + " held by an unrecognized process; not our unit"@
        },
{
    if conflict is Some {
        let port = connection.id@ + " port "@ + text::digits(connection.port as nat);
        assert(conflict->0@.take(port.len() as int) =~= port);
    }
}

/// Whether a text stands in another at a place.
pub open spec fn stands_in(part: Seq<char>, whole: Seq<char>, at: int) -> bool {
    0 <= at <= whole.len() - part.len() && whole.subrange(at, at + part.len()) == part
}

proof fn joined_texts_hold_each(texts: Seq<Seq<char>>, separator: Seq<char>, i: int) -> (at: int)
    requires
        0 <= i < texts.len(),
    ensures
        stands_in(texts[i], joined_by(texts, separator), at),
    decreases texts.len(),
{
    let whole = joined_by(texts, separator);
    if texts.len() == 1 {
        assert(whole.subrange(0, texts[i].len() as int) =~= texts[i]);
        0
    } else {
        let front = joined_by(texts.drop_last(), separator);
        if i < texts.len() - 1 {
            let at = joined_texts_hold_each(texts.drop_last(), separator, i);
            assert(texts.drop_last()[i] == texts[i]);
            assert(whole.subrange(at, at + texts[i].len()) =~= front.subrange(
                at,
                at + texts[i].len(),
            ));
            at
        } else {
            let at = (front.len() + separator.len()) as int;
            assert(whole.subrange(at, at + texts[i].len()) =~= texts[i]);
            at
        }
    }
}

proof fn conflicts_are_collected(connections: Seq<Connection>, scans: Seq<PortScan>)
    ensures
        conflicts_of(connections, scans).len() > 0 <==> exists|i: int|
            0 <= i < connections.len() && scan_verdict(#[trigger] connections[i], scans[i])
                is Some,
        forall|i: int|
            0 <= i < connections.len() && scan_verdict(#[trigger] connections[i], scans[i])
                is Some ==> conflicts_of(connections, scans).contains(
                scan_verdict(connections[i], scans[i])->0,
            ),
    decreases connections.len(),
{
    if connections.len() > 0 {
        let front = connections.drop_last();
        let n = connections.len() - 1;
        conflicts_are_collected(front, scans);
        let before = conflicts_of(front, scans);
        let all = conflicts_of(connections, scans);
        assert(connections[n] == connections.last());
        assert forall|i: int|
            0 <= i < connections.len() && scan_verdict(#[trigger] connections[i], scans[i])
                is Some implies all.contains(scan_verdict(connections[i], scans[i])->0) by {
            if i < n {
                assert(front[i] == connections[i]);
                let text = scan_verdict(front[i], scans[i])->0;
                assert(before.contains(text));
                let k = choose|k: int| 0 <= k < before.len() && before[k] == text;
                assert(all[k] == text);
            } else {
                assert(all[all.len() - 1] == scan_verdict(connections[i], scans[i])->0);
            }
        }
        if all.len() > 0 && before.len() > 0 {
            let i = choose|i: int|
                0 <= i < front.len() && scan_verdict(#[trigger] front[i], scans[i]) is Some;
            assert(connections[i] == front[i]);
        }
    }
}

/// The check of the ports warns exactly where some Connection's port is held by
/// another, and then tells of each such conflict. It passes otherwise, and
/// never fails.
pub proof fn port_checks_warn_of_every_conflict(
    config: &Config,
    scans: &Vec<PortScan>,
    row: CheckRow,
)
    requires
        scans@.len() == config.connections@.len(),
        call_ensures(ports_check, (Some(config), scans), row),
    ensures
        row.id@ == "ports"@,
        row.status == CheckStatus::Warn <==> exists|i: int|
            0 <= i < config.connections@.len() && held_by_another(
                #[trigger] config.connections@[i],
                scans@[i],
            ),
        row.status != CheckStatus::Fail,
        row.hint is Some <==> row.status == CheckStatus::Warn,
        forall|i: int, conflict: String|
            0 <= i < config.connections@.len() && #[trigger] call_ensures(
                port_conflict,
                (&config.connections@[i], &scans@[i]),
                Some(conflict),
            ) ==> exists|at: int| #[trigger] stands_in(conflict@, row.detail@, at),
        forall|skipped: CheckRow|
            call_ensures(ports_check, (Option::<&Config>::None, scans), skipped) ==> skipped.status
                == CheckStatus::Pass,
{
    let connections = config.connections@;
    let conflicts = conflicts_of(connections, scans@);
    conflicts_are_collected(connections, scans@);
    assert forall|i: int| 0 <= i < connections.len() implies held_by_another(
        #[trigger] connections[i],
        scans@[i],
    ) == (scan_verdict(connections[i], scans@[i]) is Some) by {}
    if conflicts.len() > 0 {
        let i = choose|i: int|
            0 <= i < connections.len() && scan_verdict(#[trigger] connections[i], scans@[i])
                is Some;
        assert(held_by_another(connections[i], scans@[i]));
    }
    assert forall|i: int, conflict: String|
        0 <= i < connections.len() && #[trigger] call_ensures(
            port_conflict,
            (&config.connections@[i], &scans@[i]),
            Some(conflict),
        ) implies exists|at: int| #[trigger] stands_in(conflict@, row.detail@, at) by {
        assert(scan_verdict(connections[i], scans@[i]) == Some(conflict@));
        let k = choose|k: int| 0 <= k < conflicts.len() && conflicts[k] == conflict@;
        let at = joined_texts_hold_each(conflicts, "; "@, k);
        assert(stands_in(conflict@, row.detail@, at));
    }
}

/// The check of the config passes exactly where it was loaded, and shows the
/// file's path with how many Connections are in it, or with what is wrong.
pub proof fn configs_pass_where_they_load(
    path: &str,
    loaded: &Result<Config, ConfigError>,
    row: CheckRow,
)
    requires
        call_ensures(config_check, (path, loaded), row),
    ensures
        row.id@ == "config"@,
        row.status == CheckStatus::Pass <==> loaded is Ok,
        row.status == CheckStatus::Fail <==> loaded is Err,
        row.hint is Some <==> loaded is Err,
        loaded matches Ok(config) ==> row.detail@ == path@ + " ("@ + text::digits(
            config.connections@.len(),
        ) + " connections)"@,
        loaded matches Err(error) ==> forall|message: String|
            call_ensures(ConfigError::message, (&error,), message) ==> row.detail@ == path@
                + ": "@ + message@,
{
}

/// A report is fine exactly where the config was loaded, the proxy was found
/// and told its version, the user manager told its version, credentials can be
/// read, and the journal can be read. Port conflicts make no difference.
pub proof fn reports_are_fine_where_everything_is_there(
    cfg_path: &str,
    findings: Findings,
    cli_version: String,
    report: DoctorReport,
)
    requires
        findings.loaded matches Ok(config) ==> findings.ports@.len() == config.connections@.len(),
        call_ensures(doctor, (cfg_path, findings, cli_version), report),
    ensures
        report.version == 1,
        report.cli_version@ == cli_version@,
        report.ok <==> {
            &&& findings.loaded is Ok
            &&& findings.proxy_bin is Ok
            &&& findings.proxy_version is Ok
            &&& findings.manager_version is Ok
            &&& findings.credentials.readable
            &&& findings.credentials.gac_env is Some || findings.credentials.home is Some
            &&& findings.journal is Ok
            &&& findings.journal->Ok_0.success
        },
        report.ok <==> forall|i: int|
            0 <= i < report.checks@.len() ==> (#[trigger] report.checks@[i]).status
                != CheckStatus::Fail,
{
    let rows = rows_of(cfg_path@, findings);
    let views = model::check_views(report.checks@);
    assert(views == rows);
    assert(views.len() == report.checks@.len());
    assert forall|i: int| 0 <= i < rows.len() implies #[trigger] rows[i]
        == report.checks@[i]@ by {
        assert(views[i] == report.checks@[i]@);
    }
    if none_failed(rows) {
        assert forall|i: int| 0 <= i < report.checks@.len() implies (
        #[trigger] report.checks@[i]).status != CheckStatus::Fail by {
            assert(rows[i].status != CheckStatus::Fail);
        }
        assert(rows[0].status != CheckStatus::Fail && rows[1].status != CheckStatus::Fail
            && rows[2].status != CheckStatus::Fail && rows[3].status != CheckStatus::Fail
            && rows[4].status != CheckStatus::Fail);
    } else {
        let i = choose|i: int|
            0 <= i < rows.len() && (#[trigger] rows[i]).status == CheckStatus::Fail;
        assert(report.checks@[i].status == CheckStatus::Fail);
        assert(rows.len() == 6);
        assert(i == 0 || i == 1 || i == 2 || i == 3 || i == 4 || i == 5);
    }
}

/// A report holds the rows of its six checks, in their order.
pub proof fn reports_hold_their_six_checks(
    cfg_path: &str,
    findings: Findings,
    cli_version: String,
    report: DoctorReport,
    config: CheckRow,
    proxy: CheckRow,
    manager: CheckRow,
    adc: CheckRow,
    journal_row: CheckRow,
)
    requires
        findings.loaded matches Ok(config) ==> findings.ports@.len() == config.connections@.len(),
        call_ensures(doctor, (cfg_path, findings, cli_version), report),
        call_ensures(config_check, (cfg_path, &findings.loaded), config),
        call_ensures(
            env::proxy_bin_check,
            (&findings.proxy_bin, &findings.proxy_version),
            proxy,
        ),
        call_ensures(supervisor::systemd_user_check, (&findings.manager_version,), manager),
        call_ensures(env::adc_check, (&findings.credentials,), adc),
        call_ensures(journal::journal_user_check, (findings.journal,), journal_row),
    ensures
        report.checks@.len() == 6,
        report.checks@[0]@ == config@,
        report.checks@[1]@ == proxy@,
        report.checks@[2]@ == manager@,
        report.checks@[3]@ == adc@,
        report.checks@[4]@ == journal_row@,
        findings.loaded matches Ok(loaded) ==> forall|ports: CheckRow|
            call_ensures(ports_check, (Some(&loaded), &findings.ports), ports)
                ==> report.checks@[5]@ == ports@,
        findings.loaded is Err ==> forall|ports: CheckRow|
            call_ensures(ports_check, (Option::<&Config>::None, &findings.ports), ports)
                ==> report.checks@[5]@ == ports@,
{
    let views = model::check_views(report.checks@);
    assert(views == rows_of(cfg_path@, findings));
    assert(views.len() == report.checks@.len());
    assert(views[0] == report.checks@[0]@ && views[1] == report.checks@[1]@ && views[2]
        == report.checks@[2]@ && views[3] == report.checks@[3]@ && views[4]
        == report.checks@[4]@ && views[5] == report.checks@[5]@);
}

/// Our unit's main process is that of a loaded unit with a name, and a port is
/// in conflict where it is open and held by anything else.
pub proof fn only_our_main_process_may_hold_the_port(
    connection: &Connection,
    shown: &Result<UnitSnapshot, SupervisorError>,
    observation: &PortObservation,
    ours: Option<u32>,
    given: Option<u32>,
    conflict: Option<String>,
)
    requires
        call_ensures(our_unit_main_pid, (connection, shown), ours),
        call_ensures(classify_port, (connection, observation, given), conflict),
    ensures
        ours is Some ==> model::unit_name_of(connection.id@) is Ok && *shown is Ok && shown->Ok_0
            is Loaded && ours == shown->Ok_0->main_pid,
        model::unit_name_of(connection.id@) is Ok && *shown is Ok && shown->Ok_0 is Loaded ==> ours
            == shown->Ok_0->main_pid,
        conflict is None <==> observation.probe != PortProbe::Open || (given is Some
            && observation.listener_pid == given),
        conflict matches Some(detail) ==> forall|told: String|
            call_ensures(port_conflict_detail, (connection, observation), told) ==> detail@
                == told@,
{
}

} // verus!
