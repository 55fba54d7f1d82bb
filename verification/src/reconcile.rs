//! Pure health classification of one Connection at one instant.
//!
//! [`reconcile`] turns the observed signals of a Connection's unit and port
//! into a Status row by the truth table [`verdict`].

use vstd::prelude::*;

use crate::clock;
use crate::clock::Timestamp;
use crate::model;
use crate::model::{
    Connection, ConnectionView, ErrorCode, HealthState, PortObservation, PortProbe, Source,
    StatusError, StatusErrorView, StatusRow, StatusRowView,
};
use crate::text;

verus! {

/// How long, in nanoseconds, a Connection may stay `starting` after a start
/// attempt.
pub const START_WINDOW: u128 = 10_000_000_000;

// ---------------------------------------------------------------------------
// Observations.
// ---------------------------------------------------------------------------

/// One Connection's observed signals at one instant.
#[derive(Debug)]
pub struct Observation {
    pub unit: UnitObservation,
    pub port: PortObservation,
}

/// What is known about a Connection's systemd user unit.
#[derive(Debug, Clone, Copy, PartialEq, Eq)]
pub struct UnitObservation {
    pub state: UnitState,
    /// The main process, where the unit currently has a live one.
    pub main_pid: Option<u32>,
    /// When the current start attempt began, where that is known.
    pub started_at: Option<Timestamp>,
}

/// A unit's active state, as far as the truth table tells states apart.
#[derive(Debug, Clone, Copy, PartialEq, Eq, Structural)]
pub enum UnitState {
    /// Not loaded, or loaded and inactive; not failed.
    Idle,
    Activating,
    Active,
    Deactivating,
    Failed(FailureSignal),
}

/// systemd's `Result=` of a failed unit.
#[derive(Debug, Clone, Copy, PartialEq, Eq, Structural)]
pub enum UnitResult {
    Success,
    ExitCode,
    Signal,
    Timeout,
    CoreDump,
    /// Failed before the program was executed.
    ExecCondition,
}

/// What tells a clean stop from a failure, for a failed unit.
#[derive(Debug, Clone, Copy, PartialEq, Eq, Structural)]
pub struct FailureSignal {
    pub result: UnitResult,
    /// The exit code or signal number of the main process.
    pub exec_main_status: i32,
}

/// What a failure signal says of a failed unit.
#[derive(Debug, Clone, Copy, PartialEq, Eq, Structural)]
pub enum FailureKind {
    /// Never reached a steady running process.
    ExecFailed,
    /// Crash, unexpected exit, kill or timeout.
    Crashed,
    /// Stopped on request.
    CleanStop,
}

// ---------------------------------------------------------------------------
// The truth table.
// ---------------------------------------------------------------------------

/// A clean stop is a success, an exit with status 0, death by SIGTERM (15) or
/// an exit with status 143 (128 + SIGTERM).
pub open spec fn clean_stop(signal: FailureSignal) -> bool {
    ||| signal.result == UnitResult::Success
    ||| signal.result == UnitResult::ExitCode && signal.exec_main_status == 0
    ||| signal.result == UnitResult::ExitCode && signal.exec_main_status == 143
    ||| signal.result == UnitResult::Signal && signal.exec_main_status == 15
}

pub open spec fn failure_kind(signal: FailureSignal) -> FailureKind {
    if clean_stop(signal) {
        FailureKind::CleanStop
    } else if signal.result == UnitResult::ExecCondition {
        FailureKind::ExecFailed
    } else {
        FailureKind::Crashed
    }
}

pub open spec fn failure_text(kind: FailureKind) -> Seq<char> {
    match kind {
        FailureKind::ExecFailed => "unit failed to exec the proxy binary"@,
        FailureKind::Crashed => "unit crashed or was killed unexpectedly"@,
        FailureKind::CleanStop =>
            "unit reported a clean stop but a process is still attributed"@,
    }
}

/// The port's holder is unknown or our unit's main process.
pub open spec fn holder_is_ours(main_pid: Option<u32>, listener_pid: Option<u32>) -> bool {
    listener_pid is None || listener_pid == main_pid
}

/// The current start attempt is known and at most [`START_WINDOW`] old.
pub open spec fn in_start_window(started_at: Option<Timestamp>, now: int) -> bool {
    match started_at {
        None => false,
        Some(t) => clock::elapsed(t@, now) <= START_WINDOW,
    }
}

pub open spec fn uptime(started_at: Option<Timestamp>, now: int) -> Option<u64> {
    match started_at {
        None => None,
        Some(t) => Some((clock::elapsed(t@, now) / 1_000_000_000) as u64),
    }
}

pub open spec fn holder_text(
    port_number: u16,
    listener_pid: Option<u32>,
    listener_name: Option<Seq<char>>,
) -> Seq<char> {
    match (listener_pid, listener_name) {
        (Some(pid), Some(name)) => "port "@ + text::digits(port_number as nat) + " held by "@ + name
            + " (pid "@ + text::digits(pid as nat) + ")"@,
        (Some(pid), None) => "port "@ + text::digits(port_number as nat) + " held by pid "@
            + text::digits(pid as nat),
        (None, _) => "port "@ + text::digits(port_number as nat) + " held by unknown process"@,
    }
}

/// What the truth table says of a Connection.
#[verifier::ext_equal]
pub struct VerdictView {
    pub state: HealthState,
    pub source: Source,
    pub error: Option<StatusErrorView>,
}

pub open spec fn healthy(state: HealthState, source: Source) -> VerdictView {
    VerdictView { state, source, error: None }
}

pub open spec fn faulty(source: Source, code: ErrorCode, detail: Seq<char>) -> VerdictView {
    VerdictView {
        state: HealthState::Error,
        source,
        error: Some(StatusErrorView { code, detail }),
    }
}

pub open spec fn attributed(main_pid: Option<u32>) -> Source {
    if main_pid is Some {
        Source::Unit
    } else {
        Source::NoUnit
    }
}

pub open spec fn conflict(source: Source, port: PortObservation, port_number: u16) -> VerdictView {
    faulty(
        source,
        ErrorCode::PortInUse,
        holder_text(port_number, port.listener_pid, text::option_view(port.listener_name)),
    )
}

/// The truth table: unit state and port probe to health, ownership and error.
pub open spec fn verdict(
    unit: UnitObservation,
    port: PortObservation,
    now: int,
    port_number: u16,
) -> VerdictView {
    let open = port.probe == PortProbe::Open;
    let ours = holder_is_ours(unit.main_pid, port.listener_pid);
    let fresh = in_start_window(unit.started_at, now);
    match unit.state {
        UnitState::Idle => if open {
            conflict(Source::NoUnit, port, port_number)
        } else {
            healthy(HealthState::Stopped, Source::NoUnit)
        },
        UnitState::Activating => if open && ours {
            healthy(HealthState::Running, Source::Unit)
        } else if open {
            conflict(Source::Unit, port, port_number)
        } else if fresh {
            healthy(HealthState::Starting, attributed(unit.main_pid))
        } else {
            faulty(
                Source::Unit,
                ErrorCode::StartTimeout,
                "unit is still activating after the start window"@,
            )
        },
        UnitState::Active => if open && ours {
            healthy(HealthState::Running, Source::Unit)
        } else if open {
            conflict(Source::Unit, port, port_number)
        } else if fresh {
            healthy(HealthState::Starting, Source::Unit)
        } else {
            faulty(
                Source::Unit,
                ErrorCode::UnitFailed,
                "unit is active but the port is still closed past the start window"@,
            )
        },
        UnitState::Deactivating => if open {
            healthy(HealthState::Running, Source::Unit)
        } else {
            healthy(HealthState::Stopped, attributed(unit.main_pid))
        },
        UnitState::Failed(signal) => {
            let kind = failure_kind(signal);
            if kind == FailureKind::CleanStop && !open && unit.main_pid is None {
                healthy(HealthState::Stopped, Source::NoUnit)
            } else {
                faulty(
                    attributed(unit.main_pid),
                    if kind == FailureKind::ExecFailed {
                        ErrorCode::ExecFailed
                    } else {
                        ErrorCode::UnitFailed
                    },
                    failure_text(kind),
                )
            }
        },
    }
}

/// The Status row of a Connection: its identity, the verdict, and pid and
/// uptime only of a process that is attributed to our unit.
pub open spec fn reconciled(
    identity: ConnectionView,
    unit: UnitObservation,
    port: PortObservation,
    now: int,
) -> StatusRowView {
    let outcome = verdict(unit, port, now, identity.port);
    let ours = outcome.source == Source::Unit;
    StatusRowView {
        id: identity.id,
        name: identity.name,
        group: identity.group,
        instance: identity.instance,
        address: identity.address,
        port: identity.port,
        private_ip: identity.private_ip,
        enabled: identity.enabled,
        state: outcome.state,
        source: outcome.source,
        pid: if ours {
            unit.main_pid
        } else {
            None
        },
        unit: match model::unit_name_of(identity.id) {
            Ok(name) => Some(name),
            Err(_) => None,
        },
        port_open: port.probe == PortProbe::Open,
        uptime_sec: if ours {
            uptime(unit.started_at, now)
        } else {
            None
        },
        error: outcome.error,
    }
}

// ---------------------------------------------------------------------------
// Classification.
// ---------------------------------------------------------------------------

/// What one row of the truth table decides.
struct Outcome {
    state: HealthState,
    source: Source,
    error: Option<StatusError>,
}

impl View for Outcome {
    type V = VerdictView;

    closed spec fn view(&self) -> VerdictView {
        VerdictView {
            state: self.state,
            source: self.source,
            error: model::error_view(self.error),
        }
    }
}

/// Classifies one Connection's health from a single observation.
///
/// Whether the Connection is enabled is reported and has no influence on its
/// health.
pub fn reconcile(identity: &Connection, observation: &Observation, now: Timestamp) -> (row:
    StatusRow)
    ensures
        row@ == reconciled(identity@, observation.unit, observation.port, now@),
{
    let unit = &observation.unit;
    let port_open = port_is_open(observation.port.probe);
    let outcome = classify(unit, port_open, &observation.port, now, identity.port);
    let ours = outcome.source == Source::Unit;
    StatusRow {
        id: identity.id.clone(),
        name: identity.name.clone(),
        group: identity.group.clone(),
        instance: identity.instance.clone(),
        address: identity.address.clone(),
        port: identity.port,
        private_ip: identity.private_ip,
        enabled: identity.enabled,
        state: outcome.state,
        source: outcome.source,
        pid: if ours {
            unit.main_pid
        } else {
            None
        },
        unit: match model::unit_name(identity.id.as_str()) {
            Ok(name) => Some(name),
            Err(_) => None,
        },
        port_open,
        uptime_sec: if ours {
            uptime_since(unit.started_at, now)
        } else {
            None
        },
        error: outcome.error,
    }
}

fn classify(
    unit: &UnitObservation,
    port_open: bool,
    port: &PortObservation,
    now: Timestamp,
    port_number: u16,
) -> (outcome: Outcome)
    requires
        port_open == (port.probe == PortProbe::Open),
    ensures
        outcome@ == verdict(*unit, *port, now@, port_number),
{
    match unit.state {
        UnitState::Idle => classify_inactive(port_open, port, port_number),
        UnitState::Activating => classify_activating(unit, port_open, port, now, port_number),
        UnitState::Active => classify_active(unit, port_open, port, now, port_number),
        UnitState::Deactivating => classify_deactivating(unit, port_open),
        UnitState::Failed(signal) => classify_failed(signal, unit, port_open),
    }
}

fn classify_inactive(port_open: bool, port: &PortObservation, port_number: u16) -> (outcome:
    Outcome)
    ensures
        outcome@ == if port_open {
            conflict(Source::NoUnit, *port, port_number)
        } else {
            healthy(HealthState::Stopped, Source::NoUnit)
        },
{
    if port_open {
        Outcome {
            state: HealthState::Error,
            source: Source::NoUnit,
            error: Some(port_in_use_error(port_number, port)),
        }
    } else {
        Outcome { state: HealthState::Stopped, source: Source::NoUnit, error: None }
    }
}

fn classify_activating(
    unit: &UnitObservation,
    port_open: bool,
    port: &PortObservation,
    now: Timestamp,
    port_number: u16,
) -> (outcome: Outcome)
    requires
        unit.state == UnitState::Activating,
        port_open == (port.probe == PortProbe::Open),
    ensures
        outcome@ == verdict(*unit, *port, now@, port_number),
{
    if port_open {
        if listener_matches_unit(unit.main_pid, port.listener_pid) {
            return Outcome { state: HealthState::Running, source: Source::Unit, error: None };
        }
        return Outcome {
            state: HealthState::Error,
            source: Source::Unit,
            error: Some(port_in_use_error(port_number, port)),
        };
    }
    if within_start_window(unit.started_at, now) {
        return Outcome {
            state: HealthState::Starting,
            source: attributed_source(unit.main_pid),
            error: None,
        };
    }
    Outcome {
        state: HealthState::Error,
        source: Source::Unit,
        error: Some(
            StatusError {
                code: ErrorCode::StartTimeout,
                detail: "unit is still activating after the start window".to_owned(),
            },
        ),
    }
}

fn classify_active(
    unit: &UnitObservation,
    port_open: bool,
    port: &PortObservation,
    now: Timestamp,
    port_number: u16,
) -> (outcome: Outcome)
    requires
        unit.state == UnitState::Active,
        port_open == (port.probe == PortProbe::Open),
    ensures
        outcome@ == verdict(*unit, *port, now@, port_number),
{
    if port_open {
        if listener_matches_unit(unit.main_pid, port.listener_pid) {
            return Outcome { state: HealthState::Running, source: Source::Unit, error: None };
        }
        return Outcome {
            state: HealthState::Error,
            source: Source::Unit,
            error: Some(port_in_use_error(port_number, port)),
        };
    }
    if within_start_window(unit.started_at, now) {
        return Outcome { state: HealthState::Starting, source: Source::Unit, error: None };
    }
    Outcome {
        state: HealthState::Error,
        source: Source::Unit,
        error: Some(
            StatusError {
                code: ErrorCode::UnitFailed,
                detail:
                    "unit is active but the port is still closed past the start window".to_owned(),
            },
        ),
    }
}

fn classify_deactivating(unit: &UnitObservation, port_open: bool) -> (outcome: Outcome)
    ensures
        outcome@ == if port_open {
            healthy(HealthState::Running, Source::Unit)
        } else {
            healthy(HealthState::Stopped, attributed(unit.main_pid))
        },
{
    if port_open {
        Outcome { state: HealthState::Running, source: Source::Unit, error: None }
    } else {
        Outcome {
            state: HealthState::Stopped,
            source: attributed_source(unit.main_pid),
            error: None,
        }
    }
}

/// An open port does not make a failed unit any healthier.
fn classify_failed(signal: FailureSignal, unit: &UnitObservation, port_open: bool) -> (outcome:
    Outcome)
    requires
        unit.state == UnitState::Failed(signal),
    ensures
        forall|port: PortObservation, now: int, port_number: u16|
            port_open == (port.probe == PortProbe::Open) ==> outcome@ == #[trigger] verdict(
                *unit,
                port,
                now,
                port_number,
            ),
{
    let kind = classify_failure_signal(signal);
    if kind == FailureKind::CleanStop && !port_open && unit.main_pid.is_none() {
        return Outcome { state: HealthState::Stopped, source: Source::NoUnit, error: None };
    }
    let code = match kind {
        FailureKind::ExecFailed => ErrorCode::ExecFailed,
        FailureKind::Crashed | FailureKind::CleanStop => ErrorCode::UnitFailed,
    };
    Outcome {
        state: HealthState::Error,
        source: attributed_source(unit.main_pid),
        error: Some(StatusError { code, detail: failure_detail(kind).to_owned() }),
    }
}

/// Whether a failed unit's signal is a clean stop, an exec failure or a crash.
pub fn classify_failure_signal(signal: FailureSignal) -> (kind: FailureKind)
    ensures
        kind == failure_kind(signal),
{
    match (signal.result, signal.exec_main_status) {
        (UnitResult::Success, _) => FailureKind::CleanStop,
        (UnitResult::ExitCode, 0) => FailureKind::CleanStop,
        (UnitResult::Signal, 15) => FailureKind::CleanStop,
        (UnitResult::ExitCode, 143) => FailureKind::CleanStop,
        (UnitResult::ExecCondition, _) => FailureKind::ExecFailed,
        _ => FailureKind::Crashed,
    }
}

pub fn failure_detail(kind: FailureKind) -> (detail: &'static str)
    ensures
        detail@ == failure_text(kind),
{
    match kind {
        FailureKind::ExecFailed => "unit failed to exec the proxy binary",
        FailureKind::Crashed => "unit crashed or was killed unexpectedly",
        FailureKind::CleanStop => "unit reported a clean stop but a process is still attributed",
    }
}

fn attributed_source(main_pid: Option<u32>) -> (source: Source)
    ensures
        source == attributed(main_pid),
{
    if main_pid.is_some() {
        Source::Unit
    } else {
        Source::NoUnit
    }
}

/// Whether the observed port holder is consistent with our unit owning the
/// port.
pub fn listener_matches_unit(main_pid: Option<u32>, listener_pid: Option<u32>) -> (yes: bool)
    ensures
        yes == holder_is_ours(main_pid, listener_pid),
{
    match (listener_pid, main_pid) {
        (None, _) => true,
        (Some(_), None) => false,
        (Some(holder), Some(main)) => holder == main,
    }
}

/// Only an open probe counts as an open port.
pub fn port_is_open(probe: PortProbe) -> (yes: bool)
    ensures
        yes == (probe == PortProbe::Open),
{
    matches!(probe, PortProbe::Open)
}

/// A start attempt without a timestamp is never "just started".
pub fn within_start_window(started_at: Option<Timestamp>, now: Timestamp) -> (yes: bool)
    ensures
        yes == in_start_window(started_at, now@),
{
    match started_at {
        None => false,
        Some(t) => age_since(t, now) <= START_WINDOW,
    }
}

/// The age in nanoseconds; a start in the future counts as just now.
pub fn age_since(started_at: Timestamp, now: Timestamp) -> (age: u128)
    ensures
        age == clock::elapsed(started_at@, now@),
        age < 0x1_0000_0000_0000_0000 * 1_000_000_000,
{
    now.nanos_since(&started_at)
}

/// Whole seconds since the start, where the start is known.
pub fn uptime_since(started_at: Option<Timestamp>, now: Timestamp) -> (secs: Option<u64>)
    ensures
        secs == uptime(started_at, now@),
{
    match started_at {
        None => None,
        Some(t) => Some((age_since(t, now) / 1_000_000_000) as u64),
    }
}

fn port_in_use_error(port_number: u16, port: &PortObservation) -> (error: StatusError)
    ensures
        error@ == (StatusErrorView {
            code: ErrorCode::PortInUse,
            detail: holder_text(
                port_number,
                port.listener_pid,
                text::option_view(port.listener_name),
            ),
        }),
{
    let name: Option<&str> = match &port.listener_name {
        Some(name) => Some(name.as_str()),
        None => None,
    };
    StatusError {
        code: ErrorCode::PortInUse,
        detail: port_in_use_detail(port_number, port.listener_pid, name),
    }
}

/// Who holds a port, as precisely as it is known.
pub fn port_in_use_detail(
    port_number: u16,
    listener_pid: Option<u32>,
    listener_name: Option<&str>,
) -> (detail: String)
    ensures
        detail@ == holder_text(
            port_number,
            listener_pid,
            match listener_name {
                Some(name) => Some(name@),
                None => None,
            },
        ),
{
    let mut detail = "port ".to_owned();
    detail.append(text::decimal(port_number as u64).as_str());
    match (listener_pid, listener_name) {
        (Some(pid), Some(name)) => {
            detail.append(" held by ");
            detail.append(name);
            detail.append(" (pid ");
            detail.append(text::decimal(pid as u64).as_str());
            detail.append(")");
        },
        (Some(pid), None) => {
            detail.append(" held by pid ");
            detail.append(text::decimal(pid as u64).as_str());
        },
        (None, _) => {
            detail.append(" held by unknown process");
        },
    }
    detail
}

// ---------------------------------------------------------------------------
// Laws.
// ---------------------------------------------------------------------------

/// A row carries an error exactly when its state is `error`.
pub proof fn errors_come_with_the_error_state(
    identity: ConnectionView,
    unit: UnitObservation,
    port: PortObservation,
    now: int,
)
    ensures
        ({
            let row = reconciled(identity, unit, port, now);
            row.error is Some <==> row.state == HealthState::Error
        }),
{
}

/// `enabled` is reported and influences nothing else.
pub proof fn enabled_does_not_change_health(
    identity: ConnectionView,
    enabled: bool,
    unit: UnitObservation,
    port: PortObservation,
    now: int,
)
    ensures
        reconciled(ConnectionView { enabled, ..identity }, unit, port, now) == (StatusRowView {
            enabled,
            ..reconciled(identity, unit, port, now)
        }),
{
}

/// A running Connection has an open port and a process of our unit; a stopped
/// or starting one has a closed port.
pub proof fn health_agrees_with_the_port(
    identity: ConnectionView,
    unit: UnitObservation,
    port: PortObservation,
    now: int,
)
    ensures
        ({
            let row = reconciled(identity, unit, port, now);
            &&& row.state == HealthState::Running ==> row.port_open && row.source == Source::Unit
            &&& row.state == HealthState::Stopped ==> !row.port_open
            &&& row.state == HealthState::Starting ==> !row.port_open
        }),
{
}

/// A Connection is `starting` only within the start window of a start attempt
/// whose time is known, so never forever.
pub proof fn starting_does_not_last(
    identity: ConnectionView,
    unit: UnitObservation,
    port: PortObservation,
    now: int,
)
    requires
        reconciled(identity, unit, port, now).state == HealthState::Starting,
    ensures
        unit.started_at is Some,
        now - unit.started_at->0@ <= START_WINDOW,
{
}

/// Without an attributed process there is neither a pid nor an uptime.
pub proof fn unattributed_rows_have_no_process(
    identity: ConnectionView,
    unit: UnitObservation,
    port: PortObservation,
    now: int,
)
    requires
        reconciled(identity, unit, port, now).source == Source::NoUnit,
    ensures
        reconciled(identity, unit, port, now).pid is None,
        reconciled(identity, unit, port, now).uptime_sec is None,
{
}

/// A failed unit is never running or starting, whoever holds the port.
pub proof fn failed_units_are_not_healthy(
    identity: ConnectionView,
    unit: UnitObservation,
    port: PortObservation,
    now: int,
)
    requires
        unit.state is Failed,
    ensures
        ({
            let row = reconciled(identity, unit, port, now);
            &&& row.state == HealthState::Error || row.state == HealthState::Stopped
            &&& row.port_open ==> row.state == HealthState::Error
            &&& !clean_stop(unit.state->Failed_0) ==> row.state == HealthState::Error
        }),
{
}

/// A port held by another process than our unit's is a conflict while no unit
/// runs, and while one starts or runs.
pub proof fn foreign_holders_are_conflicts(
    identity: ConnectionView,
    unit: UnitObservation,
    port: PortObservation,
    now: int,
)
    requires
        port.probe == PortProbe::Open,
        !holder_is_ours(unit.main_pid, port.listener_pid),
        unit.state is Idle || unit.state is Activating || unit.state is Active,
    ensures
        reconciled(identity, unit, port, now).state == HealthState::Error,
        reconciled(identity, unit, port, now).error->0.code == ErrorCode::PortInUse,
{
}

/// A row has its Connection's identity, the Connection's own unit name, and
/// says whether the port is open.
pub proof fn rows_identify_their_connection(
    identity: &Connection,
    observation: &Observation,
    now: Timestamp,
    row: StatusRow,
)
    requires
        call_ensures(reconcile, (identity, observation, now), row),
    ensures
        row.id@ == identity.id@,
        row.name@ == identity.name@,
        row.group@ == identity.group@,
        row.instance@ == identity.instance@,
        row.address@ == identity.address@,
        row.port == identity.port,
        row.private_ip == identity.private_ip,
        row.enabled == identity.enabled,
        row.unit matches Some(unit) ==> model::unit_name_of(identity.id@) == Ok::<
            Seq<char>,
            model::UnitNameError,
        >(unit@),
        row.unit is None ==> model::unit_name_of(identity.id@) is Err,
        row.port_open <==> observation.port.probe == PortProbe::Open,
        row.error is Some <==> row.state == HealthState::Error,
{
}

/// A row's error has a code.
pub open spec fn fails_with(row: StatusRow, code: ErrorCode) -> bool {
    row.state == HealthState::Error && row.error is Some && row.error->0.code == code
}

/// Where no unit runs, a closed port means a stopped Connection and an open
/// one a conflict; no process is ours either way.
pub proof fn idle_units_are_stopped_or_in_conflict(
    identity: &Connection,
    observation: &Observation,
    now: Timestamp,
    row: StatusRow,
)
    requires
        call_ensures(reconcile, (identity, observation, now), row),
        observation.unit.state is Idle,
    ensures
        observation.port.probe != PortProbe::Open ==> row.state == HealthState::Stopped,
        observation.port.probe == PortProbe::Open ==> fails_with(row, ErrorCode::PortInUse),
        row.source == Source::NoUnit,
{
}

/// While a unit starts or runs, an open port means a running Connection unless
/// another process is known to hold it; that is a conflict.
pub proof fn open_ports_are_ours_unless_another_holds_them(
    identity: &Connection,
    observation: &Observation,
    now: Timestamp,
    row: StatusRow,
)
    requires
        call_ensures(reconcile, (identity, observation, now), row),
        observation.unit.state is Activating || observation.unit.state is Active,
        observation.port.probe == PortProbe::Open,
    ensures
        row.source == Source::Unit,
        ({
            let holder = observation.port.listener_pid;
            let main = observation.unit.main_pid;
            let foreign = holder is Some && (main is None || main->0 != holder->0);
            &&& !foreign ==> row.state == HealthState::Running
            &&& foreign ==> fails_with(row, ErrorCode::PortInUse)
        }),
{
}

/// Whether a start attempt is known and at most ten seconds old.
pub open spec fn just_started(started_at: Option<Timestamp>, now: int) -> bool {
    started_at is Some && now - started_at->0@ <= 10_000_000_000
}

/// While a unit starts or runs, a port that is not open means a starting
/// Connection for ten seconds after a start attempt that is known, and an error
/// from then on: a timeout of the start, or a failure of the unit.
pub proof fn closed_ports_are_starting_for_ten_seconds(
    identity: &Connection,
    observation: &Observation,
    now: Timestamp,
    row: StatusRow,
)
    requires
        call_ensures(reconcile, (identity, observation, now), row),
        observation.unit.state is Activating || observation.unit.state is Active,
        observation.port.probe != PortProbe::Open,
    ensures
        just_started(observation.unit.started_at, now@) ==> row.state == HealthState::Starting,
        !just_started(observation.unit.started_at, now@) ==> fails_with(
            row,
            if observation.unit.state is Activating {
                ErrorCode::StartTimeout
            } else {
                ErrorCode::UnitFailed
            },
        ),
        row.source == Source::NoUnit <==> row.state == HealthState::Starting
            && observation.unit.state is Activating && observation.unit.main_pid is None,
{
}

/// A unit that is being stopped runs while its port is open, and is stopped
/// once it is not.
pub proof fn stopping_units_run_until_their_port_closes(
    identity: &Connection,
    observation: &Observation,
    now: Timestamp,
    row: StatusRow,
)
    requires
        call_ensures(reconcile, (identity, observation, now), row),
        observation.unit.state is Deactivating,
    ensures
        observation.port.probe == PortProbe::Open ==> row.state == HealthState::Running
            && row.source == Source::Unit,
        observation.port.probe != PortProbe::Open ==> row.state == HealthState::Stopped && (
        row.source == Source::Unit <==> observation.unit.main_pid is Some),
{
}

/// A failed unit is an error unless it was stopped on request: it succeeded, or
/// exited with 0 or 143, or died of signal 15; and even then where its port is
/// still open or a process is left. A unit that could not be executed has its
/// own code.
pub proof fn failed_units_are_errors_unless_stopped(
    identity: &Connection,
    observation: &Observation,
    now: Timestamp,
    row: StatusRow,
    signal: FailureSignal,
)
    requires
        call_ensures(reconcile, (identity, observation, now), row),
        observation.unit.state == UnitState::Failed(signal),
    ensures
        ({
            let status = signal.exec_main_status;
            let on_request = match signal.result {
                UnitResult::Success => true,
                UnitResult::ExitCode => status == 0 || status == 143,
                UnitResult::Signal => status == 15,
                UnitResult::Timeout => false,
                UnitResult::CoreDump => false,
                UnitResult::ExecCondition => false,
            };
            let gone = observation.port.probe != PortProbe::Open && observation.unit.main_pid
                is None;
            if on_request && gone {
                row.state == HealthState::Stopped && row.source == Source::NoUnit
            } else {
                &&& fails_with(
                    row,
                    if signal.result == UnitResult::ExecCondition {
                        ErrorCode::ExecFailed
                    } else {
                        ErrorCode::UnitFailed
                    },
                )
                &&& row.source == Source::Unit <==> observation.unit.main_pid is Some
            }
        }),
{
}

/// A row shows the pid of our unit's main process, and how many whole seconds
/// have passed since its start; neither where no process is ours.
pub proof fn processes_of_our_unit_are_shown(
    identity: &Connection,
    observation: &Observation,
    now: Timestamp,
    row: StatusRow,
)
    requires
        call_ensures(reconcile, (identity, observation, now), row),
        -0x8000_0000_0000_0000 * 1_000_000_000 <= now@ < 0x8000_0000_0000_0000 * 1_000_000_000,
    ensures
        row.source == Source::NoUnit ==> row.pid is None && row.uptime_sec is None,
        row.source == Source::Unit ==> row.pid == observation.unit.main_pid,
        row.source == Source::Unit ==> match observation.unit.started_at {
            None => row.uptime_sec is None,
            Some(start) => -0x8000_0000_0000_0000 * 1_000_000_000 <= start@ ==> {
                &&& row.uptime_sec is Some
                &&& now@ < start@ ==> row.uptime_sec->0 == 0
                &&& now@ >= start@ ==> row.uptime_sec->0 * 1_000_000_000 <= now@ - start@ < (
                row.uptime_sec->0 + 1) * 1_000_000_000
            },
        },
{
}

/// A port in conflict is reported with its number and with all that is known of
/// its holder.
pub proof fn conflicts_name_the_holder(
    port_number: u16,
    listener_pid: Option<u32>,
    listener_name: Option<&str>,
    detail: String,
)
    requires
        call_ensures(port_in_use_detail, (port_number, listener_pid, listener_name), detail),
    ensures
        ({
            let port = "port "@ + text::digits(port_number as nat);
            &&& listener_pid is Some && listener_name is Some ==> detail@ == port + " held by "@
                + listener_name->0@ + " (pid "@ + text::digits(listener_pid->0 as nat) + ")"@
            &&& listener_pid is Some && listener_name is None ==> detail@ == port
                + " held by pid "@ + text::digits(listener_pid->0 as nat)
            &&& listener_pid is None ==> detail@ == port + " held by unknown process"@
        }),
{
}

/// The detail of a conflict is that of the port's number and its holder.
pub proof fn conflicts_are_reported_in_detail(
    identity: &Connection,
    observation: &Observation,
    now: Timestamp,
    row: StatusRow,
    name: Option<&str>,
    detail: String,
)
    requires
        call_ensures(reconcile, (identity, observation, now), row),
        fails_with(row, ErrorCode::PortInUse),
        match (observation.port.listener_name, name) {
            (Some(known), Some(given)) => known@ == given@,
            (None, None) => true,
            _ => false,
        },
        call_ensures(
            port_in_use_detail,
            (identity.port, observation.port.listener_pid, name),
            detail,
        ),
    ensures
        row.error->0.detail@ == detail@,
{
}

/// Failed units are told apart by their results and exit statuses.
pub proof fn failure_signals_are_told_apart(signal: FailureSignal, kind: FailureKind)
    requires
        call_ensures(classify_failure_signal, (signal,), kind),
    ensures
        kind == FailureKind::ExecFailed <==> signal.result == UnitResult::ExecCondition,
        signal.result == UnitResult::ExitCode && signal.exec_main_status != 0
            && signal.exec_main_status != 143 ==> kind == FailureKind::Crashed,
        signal.result == UnitResult::Signal && signal.exec_main_status != 15 ==> kind
            == FailureKind::Crashed,
        signal.result == UnitResult::Timeout || signal.result == UnitResult::CoreDump ==> kind
            == FailureKind::Crashed,
        signal.result == UnitResult::Success || (signal.result == UnitResult::ExitCode && (
        signal.exec_main_status == 0 || signal.exec_main_status == 143)) || (signal.result
            == UnitResult::Signal && signal.exec_main_status == 15) ==> kind
            == FailureKind::CleanStop,
{
}

/// Errors other than conflicts say what is wrong with the unit.
pub proof fn unit_errors_say_what_is_wrong(
    identity: &Connection,
    observation: &Observation,
    now: Timestamp,
    row: StatusRow,
    code: ErrorCode,
)
    requires
        call_ensures(reconcile, (identity, observation, now), row),
        fails_with(row, code),
        code != ErrorCode::PortInUse,
    ensures
        ({
            let detail = row.error->0.detail@;
            match observation.unit.state {
                UnitState::Idle => false,
                UnitState::Deactivating => false,
                UnitState::Activating => detail
                    == "unit is still activating after the start window"@,
                UnitState::Active => detail
                    == "unit is active but the port is still closed past the start window"@,
                UnitState::Failed(signal) => forall|kind: FailureKind|
                    call_ensures(classify_failure_signal, (signal,), kind) ==> detail
                        == match kind {
                        FailureKind::ExecFailed => "unit failed to exec the proxy binary"@,
                        FailureKind::Crashed => "unit crashed or was killed unexpectedly"@,
                        FailureKind::CleanStop =>
                            "unit reported a clean stop but a process is still attributed"@,
                    },
            }
        }),
{
}

/// A holder is ours unless another process is known to hold the port; only an
/// open probe is an open port; and a start is recent for ten seconds, never
/// where its time is not known.
pub proof fn signals_are_read_as_they_are(
    main_pid: Option<u32>,
    listener_pid: Option<u32>,
    probe: PortProbe,
    started_at: Option<Timestamp>,
    now: Timestamp,
    ours: bool,
    open: bool,
    recent: bool,
)
    requires
        call_ensures(listener_matches_unit, (main_pid, listener_pid), ours),
        call_ensures(port_is_open, (probe,), open),
        call_ensures(within_start_window, (started_at, now), recent),
    ensures
        !ours <==> listener_pid is Some && (main_pid is None || main_pid->0 != listener_pid->0),
        open <==> probe == PortProbe::Open,
        recent <==> just_started(started_at, now@),
{
}

} // verus!
