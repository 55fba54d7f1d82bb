//! `start`, `stop` and `restart`.
//!
//! A [`Batch`] holds one [`TargetRun`] per selected Connection. A run that is
//! [`TargetState::Waiting`] says what it waits for; whoever drives it does
//! that and hands the outcome back as an [`Event`]. Runs do not see each
//! other: the failure of one undoes nothing of another.

use vstd::prelude::*;

use crate::commands::select;
use crate::commands::select::{SelectError, Selector};
use crate::commands::status::StatusCommandError;
use crate::config;
use crate::config::Config;
use crate::env;
use crate::env::{Credentials, ProxyBinError};
use crate::model;
use crate::model::{
    Connection, ConnectionView, ErrorCode, HealthState, Source, StatusRow, UnitName,
};
use crate::supervisor;
use crate::supervisor::{
    EnvVar, SupervisorError, TransientUnit, TransientUnitView, UnitSnapshot,
};
use crate::text;

verus! {

/// The pause between two polls, in nanoseconds.
pub const POLL_INTERVAL: u128 = 200_000_000;

pub const DEFAULT_WAIT_MS: u64 = 10_000;

// ---------------------------------------------------------------------------
// Results.
// ---------------------------------------------------------------------------

/// What a command did for one Connection.
#[derive(Debug, PartialEq, Eq)]
pub enum TargetResult {
    /// Done, or nothing to do.
    Succeeded,
    /// Left out of a group or of all, because it is disabled.
    SkippedDisabled,
    /// Named by its id, but disabled.
    RefusedDisabled,
    /// Attempted and failed.
    Failed { code: ErrorCode, message: String },
    /// Nothing can be operated here at all.
    Dependency { message: String },
}

#[verifier::ext_equal]
pub enum TargetResultView {
    Succeeded,
    SkippedDisabled,
    RefusedDisabled,
    Failed { code: ErrorCode, message: Seq<char> },
    Dependency { message: Seq<char> },
}

impl View for TargetResult {
    type V = TargetResultView;

    open spec fn view(&self) -> TargetResultView {
        match self {
            TargetResult::Succeeded => TargetResultView::Succeeded,
            TargetResult::SkippedDisabled => TargetResultView::SkippedDisabled,
            TargetResult::RefusedDisabled => TargetResultView::RefusedDisabled,
            TargetResult::Failed { code, message } => TargetResultView::Failed {
                code: *code,
                message: message@,
            },
            TargetResult::Dependency { message } => TargetResultView::Dependency {
                message: message@,
            },
        }
    }
}

impl Clone for TargetResult {
    fn clone(&self) -> (copy: Self)
        ensures
            copy@ == self@,
    {
        match self {
            TargetResult::Succeeded => TargetResult::Succeeded,
            TargetResult::SkippedDisabled => TargetResult::SkippedDisabled,
            TargetResult::RefusedDisabled => TargetResult::RefusedDisabled,
            TargetResult::Failed { code, message } => TargetResult::Failed {
                code: *code,
                message: message.clone(),
            },
            TargetResult::Dependency { message } => TargetResult::Dependency {
                message: message.clone(),
            },
        }
    }
}

/// The view of a result that may be missing.
pub open spec fn result_view(result: Option<TargetResult>) -> Option<TargetResultView> {
    match result {
        Some(result) => Some(result@),
        None => None,
    }
}

/// One Connection's result.
#[derive(Debug, PartialEq, Eq)]
pub struct TargetOutcome {
    pub id: String,
    pub result: TargetResult,
}

#[verifier::ext_equal]
pub struct TargetOutcomeView {
    pub id: Seq<char>,
    pub result: TargetResultView,
}

impl View for TargetOutcome {
    type V = TargetOutcomeView;

    open spec fn view(&self) -> TargetOutcomeView {
        TargetOutcomeView { id: self.id@, result: self.result@ }
    }
}

pub fn outcome_for(id: &str, result: TargetResult) -> (outcome: TargetOutcome)
    ensures
        outcome@ == (TargetOutcomeView { id: id@, result: result@ }),
{
    TargetOutcome { id: id.to_owned(), result }
}

/// The results of a command, in the order of the selector.
#[derive(Debug, PartialEq, Eq)]
pub struct BatchOutcome {
    pub targets: Vec<TargetOutcome>,
}

/// What kind of result a target has.
#[derive(Debug, Clone, Copy, PartialEq, Eq, Structural)]
pub enum ResultKind {
    Succeeded,
    Skipped,
    Refused,
    Failed,
    Dependency,
}

pub open spec fn kind_of(result: TargetResult) -> ResultKind {
    match result {
        TargetResult::Succeeded => ResultKind::Succeeded,
        TargetResult::SkippedDisabled => ResultKind::Skipped,
        TargetResult::RefusedDisabled => ResultKind::Refused,
        TargetResult::Failed { .. } => ResultKind::Failed,
        TargetResult::Dependency { .. } => ResultKind::Dependency,
    }
}

/// How many targets have a kind of result.
pub open spec fn count(targets: Seq<TargetOutcome>, kind: ResultKind) -> nat
    decreases targets.len(),
{
    if targets.len() == 0 {
        0
    } else {
        count(targets.drop_last(), kind) + if kind_of(targets.last().result) == kind {
            1nat
        } else {
            0
        }
    }
}

impl TargetResult {
    pub fn kind(&self) -> (kind: ResultKind)
        ensures
            kind == kind_of(*self),
    {
        match self {
            TargetResult::Succeeded => ResultKind::Succeeded,
            TargetResult::SkippedDisabled => ResultKind::Skipped,
            TargetResult::RefusedDisabled => ResultKind::Refused,
            TargetResult::Failed { .. } => ResultKind::Failed,
            TargetResult::Dependency { .. } => ResultKind::Dependency,
        }
    }
}

impl BatchOutcome {
    /// How many targets have a kind of result.
    pub fn count_of(&self, kind: ResultKind) -> (n: usize)
        ensures
            n == count(self.targets@, kind),
            n <= self.targets@.len(),
    {
        let mut n: usize = 0;
        let mut i: usize = 0;
        while i < self.targets.len()
            invariant
                n <= i <= self.targets@.len(),
                n == count(self.targets@.take(i as int), kind),
            decreases self.targets@.len() - i,
        {
            proof {
                assert(self.targets@.take(i + 1).drop_last() =~= self.targets@.take(i as int));
            }
            if self.targets[i].result.kind() == kind {
                n += 1;
            }
            i += 1;
        }
        assert(self.targets@.take(self.targets@.len() as int) =~= self.targets@);
        n
    }

    /// Successes only: a skip is none.
    pub fn succeeded_count(&self) -> (n: usize)
        ensures
            n == count(self.targets@, ResultKind::Succeeded),
    {
        self.count_of(ResultKind::Succeeded)
    }

    pub fn skipped_count(&self) -> (n: usize)
        ensures
            n == count(self.targets@, ResultKind::Skipped),
    {
        self.count_of(ResultKind::Skipped)
    }

    /// Failures of single Connections: neither refusals nor failures of the
    /// environment.
    pub fn failed_count(&self) -> (n: usize)
        ensures
            n == count(self.targets@, ResultKind::Failed),
    {
        self.count_of(ResultKind::Failed)
    }

    pub fn dependency_count(&self) -> (n: usize)
        ensures
            n == count(self.targets@, ResultKind::Dependency),
    {
        self.count_of(ResultKind::Dependency)
    }
}

/// Every target is counted once, by the kind of its result.
pub proof fn kinds_add_up(targets: Seq<TargetOutcome>)
    ensures
        count(targets, ResultKind::Succeeded) + count(targets, ResultKind::Skipped) + count(
            targets,
            ResultKind::Refused,
        ) + count(targets, ResultKind::Failed) + count(targets, ResultKind::Dependency)
            == targets.len(),
    decreases targets.len(),
{
    if targets.len() > 0 {
        kinds_add_up(targets.drop_last());
    }
}

// ---------------------------------------------------------------------------
// Policies.
// ---------------------------------------------------------------------------

/// What happens to a disabled Connection instead of a start.
pub open spec fn disabled_result(enabled: bool, single_target: bool) -> Option<TargetResultView> {
    if enabled {
        None
    } else if single_target {
        Some(TargetResultView::RefusedDisabled)
    } else {
        Some(TargetResultView::SkippedDisabled)
    }
}

/// Whether a disabled Connection is refused or skipped before anything is
/// asked of the system.
pub fn disabled_policy(connection: &Connection, single_target: bool) -> (result: Option<
    TargetResult,
>)
    ensures
        result_view(result) == disabled_result(connection.enabled, single_target),
{
    if connection.enabled {
        None
    } else if single_target {
        Some(TargetResult::RefusedDisabled)
    } else {
        Some(TargetResult::SkippedDisabled)
    }
}

/// Running as our unit.
pub open spec fn running(row: StatusRow) -> bool {
    row.state == HealthState::Running && row.source == Source::Unit
}

pub fn is_running(row: &StatusRow) -> (yes: bool)
    ensures
        yes == running(*row),
{
    row.state == HealthState::Running && row.source == Source::Unit
}

pub fn is_stopped(row: &StatusRow) -> (yes: bool)
    ensures
        yes == (row.state == HealthState::Stopped),
{
    row.state == HealthState::Stopped
}

/// What a start comes to without starting anything: success where our unit
/// runs already, failure where another process holds the port.
pub open spec fn start_shortcut(row: StatusRow) -> Option<TargetResultView> {
    if running(row) {
        Some(TargetResultView::Succeeded)
    } else if row.error is Some && row.error->0.code == ErrorCode::PortInUse {
        Some(
            TargetResultView::Failed {
                code: ErrorCode::PortInUse,
                message: row.error->0.detail@,
            },
        )
    } else {
        None
    }
}

pub fn start_idempotent_or_conflict(row: &StatusRow) -> (result: Option<TargetResult>)
    ensures
        result_view(result) == start_shortcut(*row),
{
    if is_running(row) {
        return Some(TargetResult::Succeeded);
    }
    match &row.error {
        Some(error) => if error.code == ErrorCode::PortInUse {
            Some(
                TargetResult::Failed {
                    code: ErrorCode::PortInUse,
                    message: error.detail.clone(),
                },
            )
        } else {
            None
        },
        None => None,
    }
}

/// What a stop comes to without stopping anything: success where the
/// Connection is stopped already.
pub open spec fn stop_shortcut(row: StatusRow) -> Option<TargetResultView> {
    if row.state == HealthState::Stopped {
        Some(TargetResultView::Succeeded)
    } else {
        None
    }
}

pub fn stop_idempotent(row: &StatusRow) -> (result: Option<TargetResult>)
    ensures
        result_view(result) == stop_shortcut(*row),
{
    if is_stopped(row) {
        Some(TargetResult::Succeeded)
    } else {
        None
    }
}

/// The failure that a row reports by itself.
pub open spec fn terminal_error(row: StatusRow) -> Option<TargetResultView> {
    match row.error {
        Some(error) => Some(
            TargetResultView::Failed { code: error.code, message: error.detail@ },
        ),
        None => None,
    }
}

pub fn terminal_error_result(row: &StatusRow) -> (result: Option<TargetResult>)
    ensures
        result_view(result) == terminal_error(*row),
{
    match &row.error {
        Some(error) => Some(
            TargetResult::Failed { code: error.code, message: error.detail.clone() },
        ),
        None => None,
    }
}

pub open spec fn unconfirmed_text(id: Seq<char>, wait_ms: u64) -> Seq<char> {
    "connection `"@ + id + "` did not confirm within "@ + text::digits(wait_ms as nat) + "ms"@
}

/// What one poll of a start decides: done, failed, out of time, or nothing
/// yet.
pub open spec fn wait_outcome(
    row: StatusRow,
    done: bool,
    remaining: int,
    wait_ms: u64,
    id: Seq<char>,
    timeout_code: ErrorCode,
) -> Option<TargetResultView> {
    if done {
        Some(TargetResultView::Succeeded)
    } else if row.error is Some {
        terminal_error(row)
    } else if remaining == 0 {
        Some(
            TargetResultView::Failed {
                code: timeout_code,
                message: unconfirmed_text(id, wait_ms),
            },
        )
    } else {
        None
    }
}

/// One poll's outcome while waiting; `remaining` is in nanoseconds.
pub fn wait_step(
    row: &StatusRow,
    done: bool,
    remaining: u128,
    wait_ms: u64,
    id: &str,
    timeout_code: ErrorCode,
) -> (result: Option<TargetResult>)
    ensures
        result_view(result) == wait_outcome(
            *row,
            done,
            remaining as int,
            wait_ms,
            id@,
            timeout_code,
        ),
{
    if done {
        return Some(TargetResult::Succeeded);
    }
    let terminal = terminal_error_result(row);
    if terminal.is_some() {
        return terminal;
    }
    if remaining == 0 {
        let mut message = "connection `".to_owned();
        message.append(id);
        message.append("` did not confirm within ");
        message.append(text::decimal(wait_ms).as_str());
        message.append("ms");
        return Some(TargetResult::Failed { code: timeout_code, message });
    }
    None
}

/// Only a unit that systemd has unloaded can be started afresh.
pub fn unit_safely_recreatable(snapshot: &UnitSnapshot) -> (yes: bool)
    ensures
        yes == (*snapshot == UnitSnapshot::Absent),
{
    match snapshot {
        UnitSnapshot::Absent => true,
        UnitSnapshot::Loaded { .. } => false,
    }
}

/// Only a stop that succeeded is followed by a start.
pub fn stop_succeeded(result: &TargetResult) -> (yes: bool)
    ensures
        yes == (result@ == TargetResultView::Succeeded),
{
    match result {
        TargetResult::Succeeded => true,
        _ => false,
    }
}

/// What a failed supervisor operation means for a target.
pub open spec fn supervisor_failure(error: SupervisorError) -> TargetResultView {
    if error.dependency() {
        TargetResultView::Dependency { message: error.text() }
    } else {
        TargetResultView::Failed { code: ErrorCode::Unknown, message: error.text() }
    }
}

pub fn supervisor_result(error: &SupervisorError) -> (result: TargetResult)
    ensures
        result@ == supervisor_failure(*error),
{
    let message = error.message();
    if error.is_dependency() {
        TargetResult::Dependency { message }
    } else {
        TargetResult::Failed { code: ErrorCode::Unknown, message }
    }
}

/// What a failed observation means for a target.
pub open spec fn observation_failure(error: StatusCommandError) -> TargetResultView {
    match error {
        StatusCommandError::Supervisor { source, .. } => supervisor_failure(source),
        _ => TargetResultView::Failed { code: ErrorCode::Unknown, message: error.text() },
    }
}

pub fn status_command_result(error: &StatusCommandError) -> (result: TargetResult)
    ensures
        result@ == observation_failure(*error),
{
    match error {
        StatusCommandError::Supervisor { source, .. } => supervisor_result(source),
        StatusCommandError::Select(_) | StatusCommandError::UnitName { .. } => TargetResult::Failed {
            code: ErrorCode::Unknown,
            message: error.message(),
        },
    }
}

pub open spec fn check_text(detail: Seq<char>, hint: Option<Seq<char>>) -> Seq<char> {
    match hint {
        Some(hint) => detail + " ("@ + hint + ")"@,
        None => detail,
    }
}

/// A check's detail with its hint behind it.
pub fn check_message(detail: &str, hint: Option<&str>) -> (message: String)
    ensures
        message@ == check_text(
            detail@,
            match hint {
                Some(hint) => Some(hint@),
                None => None,
            },
        ),
{
    match hint {
        Some(hint) => {
            let mut message = detail.to_owned();
            message.append(" (");
            message.append(hint);
            message.append(")");
            message
        },
        None => detail.to_owned(),
    }
}

/// A proxy binary that cannot be found fails the whole command.
pub open spec fn proxy_bin_failure(error: ProxyBinError) -> TargetResultView {
    let row = env::proxy_bin_missing_row(error@);
    TargetResultView::Dependency { message: check_text(row.detail, row.hint) }
}

pub fn resolve_proxy_bin_or_failure(resolved: Result<String, ProxyBinError>) -> (result: Result<
    String,
    TargetResult,
>)
    ensures
        match (resolved, result) {
            (Ok(path), Ok(found)) => found == path,
            (Err(error), Err(failure)) => failure@ == proxy_bin_failure(error),
            _ => false,
        },
{
    match resolved {
        Ok(path) => Ok(path),
        Err(error) => {
            let check = env::check_row_for_proxy_bin_resolve_error(&error);
            let hint: Option<&str> = match &check.hint {
                Some(hint) => Some(hint.as_str()),
                None => None,
            };
            let message = check_message(check.detail.as_str(), hint);
            Err(TargetResult::Dependency { message })
        },
    }
}

/// Missing credentials fail a start.
pub open spec fn credentials_failure(credentials: Credentials) -> TargetResultView {
    let row = env::adc_row(
        false,
        credentials.path(),
        credentials.gac_env is Some,
        credentials.exists,
    );
    TargetResultView::Failed { code: ErrorCode::Auth, message: check_text(row.detail, row.hint) }
}

/// The environment that a start hands on: the home directory, where there is
/// one, and the credentials file.
pub open spec fn forwarded_env(credentials: Credentials) -> Seq<(Seq<char>, Seq<char>)> {
    (match text::option_view(credentials.home) {
        Some(home) => seq![("HOME"@, home)],
        None => Seq::empty(),
    }) + (match credentials.path() {
        Some(path) => seq![("GOOGLE_APPLICATION_CREDENTIALS"@, path)],
        None => Seq::empty(),
    })
}

/// The environment that a start hands on, or why it fails without
/// credentials.
pub fn adc_env_or_failure(credentials: &Credentials) -> (result: Result<Vec<EnvVar>, TargetResult>)
    ensures
        match result {
            Ok(env) => credentials.present() && supervisor::env_view(env@) == forwarded_env(*credentials),
            Err(failure) => !credentials.present() && failure@ == credentials_failure(*credentials),
        },
{
    let status = env::resolve_adc_status(
        &credentials.home,
        &credentials.gac_env,
        credentials.readable,
    );
    if !status.present {
        let check = env::check_row_for_adc(&status, credentials.exists);
        let hint: Option<&str> = match &check.hint {
            Some(hint) => Some(hint.as_str()),
            None => None,
        };
        let message = check_message(check.detail.as_str(), hint);
        return Err(TargetResult::Failed { code: ErrorCode::Auth, message });
    }
    let mut vars: Vec<EnvVar> = Vec::new();
    match &credentials.home {
        Some(home) => vars.push(EnvVar { name: "HOME".to_owned(), value: home.clone() }),
        None => {},
    }
    match status.path {
        Some(path) => vars.push(
            EnvVar { name: "GOOGLE_APPLICATION_CREDENTIALS".to_owned(), value: path },
        ),
        None => {},
    }
    assert(supervisor::env_view(vars@) =~= forwarded_env(*credentials));
    Ok(vars)
}

// ---------------------------------------------------------------------------
// The run of one target.
// ---------------------------------------------------------------------------

/// What a run waits for.
#[allow(inconsistent_fields)]
#[derive(Debug, PartialEq, Eq)]
pub enum Stage {
    /// An observation of the Connection, to find out whether it failed.
    Gather,
    /// An observation of the Connection, before it is started.
    CheckBeforeStart,
    /// The proxy binary's path.
    FindProxyBin,
    /// What the environment says about credentials.
    ReadCredentials { proxy_bin: String },
    /// systemd's reply to the start of a unit.
    StartUnit { unit: TransientUnit },
    /// An observation of the Connection, while it starts.
    StartPoll { deadline: u128 },
    /// The end of a pause between two observations.
    StartPause { deadline: u128, nanos: u128 },
    /// An observation of the Connection, before it is stopped.
    CheckBeforeStop,
    /// systemd's reply to the stop of a unit.
    StopUnit { unit: UnitName, then_start: bool },
    /// A look at the unit, while it stops.
    StopPoll { unit: UnitName, then_start: bool, deadline: u128 },
    /// The end of a pause between two looks.
    StopPause { unit: UnitName, then_start: bool, deadline: u128, nanos: u128 },
}

#[allow(inconsistent_fields)]
#[verifier::ext_equal]
pub enum StageView {
    Gather,
    CheckBeforeStart,
    FindProxyBin,
    ReadCredentials { proxy_bin: Seq<char> },
    StartUnit { unit: TransientUnitView },
    StartPoll { deadline: int },
    StartPause { deadline: int, nanos: int },
    CheckBeforeStop,
    StopUnit { unit: Seq<char>, then_start: bool },
    StopPoll { unit: Seq<char>, then_start: bool, deadline: int },
    StopPause { unit: Seq<char>, then_start: bool, deadline: int, nanos: int },
}

impl View for Stage {
    type V = StageView;

    open spec fn view(&self) -> StageView {
        match self {
            Stage::Gather => StageView::Gather,
            Stage::CheckBeforeStart => StageView::CheckBeforeStart,
            Stage::FindProxyBin => StageView::FindProxyBin,
            Stage::ReadCredentials { proxy_bin } => StageView::ReadCredentials {
                proxy_bin: proxy_bin@,
            },
            Stage::StartUnit { unit } => StageView::StartUnit { unit: unit@ },
            Stage::StartPoll { deadline } => StageView::StartPoll { deadline: *deadline as int },
            Stage::StartPause { deadline, nanos } => StageView::StartPause {
                deadline: *deadline as int,
                nanos: *nanos as int,
            },
            Stage::CheckBeforeStop => StageView::CheckBeforeStop,
            Stage::StopUnit { unit, then_start } => StageView::StopUnit {
                unit: unit@,
                then_start: *then_start,
            },
            Stage::StopPoll { unit, then_start, deadline } => StageView::StopPoll {
                unit: unit@,
                then_start: *then_start,
                deadline: *deadline as int,
            },
            Stage::StopPause { unit, then_start, deadline, nanos } => StageView::StopPause {
                unit: unit@,
                then_start: *then_start,
                deadline: *deadline as int,
                nanos: *nanos as int,
            },
        }
    }
}

/// How far a run has come.
#[derive(Debug, PartialEq, Eq)]
pub enum TargetState {
    Waiting(Stage),
    /// Observed, for a restart of failed Connections only.
    Gathered { failed: bool },
    /// Not failed, so not restarted.
    LeftAlone,
    Settled(TargetResult),
}

#[verifier::ext_equal]
pub enum TargetStateView {
    Waiting(StageView),
    Gathered { failed: bool },
    LeftAlone,
    Settled(TargetResultView),
}

impl View for TargetState {
    type V = TargetStateView;

    open spec fn view(&self) -> TargetStateView {
        match self {
            TargetState::Waiting(stage) => TargetStateView::Waiting(stage@),
            TargetState::Gathered { failed } => TargetStateView::Gathered { failed: *failed },
            TargetState::LeftAlone => TargetStateView::LeftAlone,
            TargetState::Settled(result) => TargetStateView::Settled(result@),
        }
    }
}

/// What came of that which a run waited for.
#[derive(Debug)]
pub enum Event {
    Observed(Result<StatusRow, StatusCommandError>),
    ProxyBin(Result<String, ProxyBinError>),
    Credentials(Credentials),
    UnitStarted(Result<(), SupervisorError>),
    UnitStopped(Result<(), SupervisorError>),
    UnitShown(Result<UnitSnapshot, SupervisorError>),
    Woke,
}

/// The deadline of a wait that begins at an instant, in nanoseconds.
pub open spec fn deadline_from(now: int, wait_ms: u64) -> int {
    now + wait_ms * 1_000_000
}

pub open spec fn remaining_until(deadline: int, now: int) -> int {
    if now < deadline {
        deadline - now
    } else {
        0
    }
}

/// The pause before the next poll: the poll interval, or what remains.
pub open spec fn pause_for(remaining: int) -> int {
    if remaining < POLL_INTERVAL {
        remaining
    } else {
        POLL_INTERVAL as int
    }
}

pub open spec fn start_polling(now: int, wait_ms: u64) -> TargetStateView {
    TargetStateView::Waiting(StageView::StartPoll { deadline: deadline_from(now, wait_ms) })
}

/// A start, after the Connection was observed.
pub open spec fn start_checked(
    observed: Result<StatusRow, StatusCommandError>,
    wait_ms: u64,
    now: int,
) -> TargetStateView {
    match observed {
        Err(error) => TargetStateView::Settled(observation_failure(error)),
        Ok(row) => if start_shortcut(row) is Some {
            TargetStateView::Settled(start_shortcut(row)->0)
        } else if row.state == HealthState::Starting {
            start_polling(now, wait_ms)
        } else {
            TargetStateView::Waiting(StageView::FindProxyBin)
        },
    }
}

/// A start, after the credentials were read.
pub open spec fn start_equipped(
    connection: ConnectionView,
    proxy_bin: Seq<char>,
    credentials: Credentials,
) -> TargetStateView {
    if !credentials.present() {
        TargetStateView::Settled(credentials_failure(credentials))
    } else {
        match model::unit_name_of(connection.id) {
            Err(error) => TargetStateView::Settled(
                supervisor_failure(SupervisorError::UnitName(error)),
            ),
            Ok(unit) => TargetStateView::Waiting(
                StageView::StartUnit {
                    unit: supervisor::transient_unit_of(
                        connection,
                        unit,
                        proxy_bin,
                        forwarded_env(credentials),
                    ),
                },
            ),
        }
    }
}

/// A start, after one more observation.
pub open spec fn start_polled(
    observed: Result<StatusRow, StatusCommandError>,
    deadline: int,
    wait_ms: u64,
    id: Seq<char>,
    now: int,
) -> TargetStateView {
    let remaining = remaining_until(deadline, now);
    match observed {
        Err(error) => TargetStateView::Settled(observation_failure(error)),
        Ok(row) => {
            let outcome = wait_outcome(
                row,
                running(row),
                remaining,
                wait_ms,
                id,
                ErrorCode::StartTimeout,
            );
            match outcome {
                Some(result) => TargetStateView::Settled(result),
                None => TargetStateView::Waiting(
                    StageView::StartPause { deadline, nanos: pause_for(remaining) },
                ),
            }
        },
    }
}

/// The stop of a Connection's own unit.
pub open spec fn stopping(id: Seq<char>, then_start: bool) -> TargetStateView {
    match model::unit_name_of(id) {
        Err(error) => TargetStateView::Settled(
            TargetResultView::Failed { code: ErrorCode::Config, message: error.text() },
        ),
        Ok(unit) => TargetStateView::Waiting(StageView::StopUnit { unit, then_start }),
    }
}

/// A stop, after the Connection was observed.
pub open spec fn stop_checked(
    observed: Result<StatusRow, StatusCommandError>,
    id: Seq<char>,
) -> TargetStateView {
    match observed {
        Err(error) => TargetStateView::Settled(observation_failure(error)),
        Ok(row) => if stop_shortcut(row) is Some {
            TargetStateView::Settled(stop_shortcut(row)->0)
        } else {
            stopping(id, false)
        },
    }
}

pub open spec fn still_loaded_text(unit: Seq<char>, wait_ms: u64) -> Seq<char> {
    "unit `"@ + unit + "` did not finish stopping within "@ + text::digits(wait_ms as nat) + "ms"@
}

/// A stop, after one more look at the unit.
pub open spec fn stop_polled(
    shown: Result<UnitSnapshot, SupervisorError>,
    unit: Seq<char>,
    then_start: bool,
    deadline: int,
    wait_ms: u64,
    now: int,
) -> TargetStateView {
    let remaining = remaining_until(deadline, now);
    match shown {
        Err(error) => TargetStateView::Settled(supervisor_failure(error)),
        Ok(UnitSnapshot::Absent) => if then_start {
            TargetStateView::Waiting(StageView::CheckBeforeStart)
        } else {
            TargetStateView::Settled(TargetResultView::Succeeded)
        },
        Ok(_) => if remaining == 0 {
            TargetStateView::Settled(
                TargetResultView::Failed {
                    code: ErrorCode::Unknown,
                    message: still_loaded_text(unit, wait_ms),
                },
            )
        } else {
            TargetStateView::Waiting(
                StageView::StopPause { unit, then_start, deadline, nanos: pause_for(remaining) },
            )
        },
    }
}

/// The next state of a run. An event that a run does not wait for leaves it
/// as it is.
pub open spec fn advanced(
    connection: ConnectionView,
    wait_ms: u64,
    state: TargetStateView,
    event: Event,
    now: int,
) -> TargetStateView {
    match (state, event) {
        (TargetStateView::Waiting(StageView::Gather), Event::Observed(observed)) => match observed {
            Err(error) => TargetStateView::Settled(observation_failure(error)),
            Ok(row) => TargetStateView::Gathered { failed: row.state == HealthState::Error },
        },
        (
            TargetStateView::Waiting(StageView::CheckBeforeStart),
            Event::Observed(observed),
        ) => start_checked(observed, wait_ms, now),
        (TargetStateView::Waiting(StageView::FindProxyBin), Event::ProxyBin(resolved)) => {
            match resolved {
                Err(error) => TargetStateView::Settled(proxy_bin_failure(error)),
                Ok(path) => TargetStateView::Waiting(
                    StageView::ReadCredentials { proxy_bin: path@ },
                ),
            }
        },
        (
            TargetStateView::Waiting(StageView::ReadCredentials { proxy_bin }),
            Event::Credentials(credentials),
        ) => start_equipped(connection, proxy_bin, credentials),
        (
            TargetStateView::Waiting(StageView::StartUnit { .. }),
            Event::UnitStarted(started),
        ) => match started {
            Err(error) => TargetStateView::Settled(supervisor_failure(error)),
            Ok(()) => start_polling(now, wait_ms),
        },
        (
            TargetStateView::Waiting(StageView::StartPoll { deadline }),
            Event::Observed(observed),
        ) => start_polled(observed, deadline, wait_ms, connection.id, now),
        (
            TargetStateView::Waiting(StageView::StartPause { deadline, .. }),
            Event::Woke,
        ) => TargetStateView::Waiting(StageView::StartPoll { deadline }),
        (
            TargetStateView::Waiting(StageView::CheckBeforeStop),
            Event::Observed(observed),
        ) => stop_checked(observed, connection.id),
        (
            TargetStateView::Waiting(StageView::StopUnit { unit, then_start }),
            Event::UnitStopped(stopped),
        ) => match stopped {
            Err(error) => TargetStateView::Settled(supervisor_failure(error)),
            Ok(()) => TargetStateView::Waiting(
                StageView::StopPoll { unit, then_start, deadline: deadline_from(now, wait_ms) },
            ),
        },
        (
            TargetStateView::Waiting(StageView::StopPoll { unit, then_start, deadline }),
            Event::UnitShown(shown),
        ) => stop_polled(shown, unit, then_start, deadline, wait_ms, now),
        (
            TargetStateView::Waiting(StageView::StopPause { unit, then_start, deadline, .. }),
            Event::Woke,
        ) => TargetStateView::Waiting(StageView::StopPoll { unit, then_start, deadline }),
        _ => state,
    }
}

/// An observation, or the result that its failure means.
pub fn reconcile_now(observed: Result<StatusRow, StatusCommandError>) -> (result: Result<
    StatusRow,
    TargetResult,
>)
    ensures
        match (observed, result) {
            (Ok(row), Ok(kept)) => kept == row,
            (Err(error), Err(failure)) => failure@ == observation_failure(error),
            _ => false,
        },
{
    match observed {
        Ok(row) => Ok(row),
        Err(error) => Err(status_command_result(&error)),
    }
}

fn polling_from(now: u64, wait_ms: u64) -> (deadline: u128)
    ensures
        deadline == deadline_from(now as int, wait_ms),
{
    now as u128 + wait_ms as u128 * 1_000_000
}

fn time_left(deadline: u128, now: u64) -> (remaining: u128)
    ensures
        remaining == remaining_until(deadline as int, now as int),
{
    if (now as u128) < deadline {
        deadline - now as u128
    } else {
        0
    }
}

fn pause(remaining: u128) -> (nanos: u128)
    ensures
        nanos == pause_for(remaining as int),
{
    if remaining < POLL_INTERVAL {
        remaining
    } else {
        POLL_INTERVAL
    }
}

/// A start's first decision, once the Connection was observed: nothing to do,
/// a conflict, waiting for a start that is under way, or a start.
pub fn try_start(
    observed: Result<StatusRow, StatusCommandError>,
    wait_ms: u64,
    now: u64,
) -> (state: TargetState)
    ensures
        state@ == start_checked(observed, wait_ms, now as int),
{
    let row = match reconcile_now(observed) {
        Ok(row) => row,
        Err(result) => return TargetState::Settled(result),
    };
    match start_idempotent_or_conflict(&row) {
        Some(result) => return TargetState::Settled(result),
        None => {},
    }
    if row.state == HealthState::Starting {
        return TargetState::Waiting(Stage::StartPoll { deadline: polling_from(now, wait_ms) });
    }
    TargetState::Waiting(Stage::FindProxyBin)
}

fn equip(connection: &Connection, proxy_bin: &str, credentials: &Credentials) -> (state:
    TargetState)
    ensures
        state@ == start_equipped(connection@, proxy_bin@, *credentials),
{
    let vars = match adc_env_or_failure(credentials) {
        Ok(vars) => vars,
        Err(result) => return TargetState::Settled(result),
    };
    match supervisor::start_transient(connection, proxy_bin, &vars) {
        Ok(unit) => TargetState::Waiting(Stage::StartUnit { unit }),
        Err(error) => TargetState::Settled(supervisor_result(&error)),
    }
}

/// A start's decision after one more observation: settled, or another pause.
pub fn wait_for(
    observed: Result<StatusRow, StatusCommandError>,
    deadline: u128,
    wait_ms: u64,
    id: &str,
    now: u64,
) -> (state: TargetState)
    ensures
        state@ == start_polled(observed, deadline as int, wait_ms, id@, now as int),
{
    let row = match reconcile_now(observed) {
        Ok(row) => row,
        Err(result) => return TargetState::Settled(result),
    };
    let remaining = time_left(deadline, now);
    match wait_step(&row, is_running(&row), remaining, wait_ms, id, ErrorCode::StartTimeout) {
        Some(result) => TargetState::Settled(result),
        None => TargetState::Waiting(Stage::StartPause { deadline, nanos: pause(remaining) }),
    }
}

/// A plain stop's first decision, once the Connection was observed: nothing
/// to do, or a stop.
pub fn try_stop(
    connection: &Connection,
    observed: Result<StatusRow, StatusCommandError>,
) -> (state: TargetState)
    ensures
        state@ == stop_checked(observed, connection.id@),
{
    let row = match reconcile_now(observed) {
        Ok(row) => row,
        Err(result) => return TargetState::Settled(result),
    };
    match stop_idempotent(&row) {
        Some(result) => return TargetState::Settled(result),
        None => {},
    }
    stop_unit_and_wait(connection, false)
}

/// A restart stops in any case: a Connection can be stopped while its unit is
/// still loaded, and then cannot be started afresh.
pub fn try_stop_for_restart(connection: &Connection) -> (state: TargetState)
    ensures
        state@ == stopping(connection.id@, true),
{
    stop_unit_and_wait(connection, true)
}

/// Asks for the stop of the Connection's own unit.
pub fn stop_unit_and_wait(connection: &Connection, then_start: bool) -> (state: TargetState)
    ensures
        state@ == stopping(connection.id@, then_start),
{
    match model::unit_name(connection.id.as_str()) {
        Ok(unit) => TargetState::Waiting(Stage::StopUnit { unit, then_start }),
        Err(error) => TargetState::Settled(
            TargetResult::Failed { code: ErrorCode::Config, message: error.message() },
        ),
    }
}

/// What follows the end of a stop: a restart goes on to its start where the
/// stop succeeded, anything else has its result.
fn after_stop(result: TargetResult, then_start: bool) -> (state: TargetState)
    ensures
        state@ == if then_start && result@ == TargetResultView::Succeeded {
            TargetStateView::Waiting(StageView::CheckBeforeStart)
        } else {
            TargetStateView::Settled(result@)
        },
{
    if then_start && stop_succeeded(&result) {
        TargetState::Waiting(Stage::CheckBeforeStart)
    } else {
        TargetState::Settled(result)
    }
}

/// A stop's decision after one more look at the unit: settled, on to the
/// start of a restart, or another pause.
pub fn wait_for_stop(
    shown: Result<UnitSnapshot, SupervisorError>,
    unit: UnitName,
    then_start: bool,
    deadline: u128,
    wait_ms: u64,
    now: u64,
) -> (state: TargetState)
    ensures
        state@ == stop_polled(shown, unit@, then_start, deadline as int, wait_ms, now as int),
{
    let snapshot = match shown {
        Ok(snapshot) => snapshot,
        Err(error) => return after_stop(supervisor_result(&error), then_start),
    };
    if unit_safely_recreatable(&snapshot) {
        return after_stop(TargetResult::Succeeded, then_start);
    }
    let remaining = time_left(deadline, now);
    if remaining == 0 {
        let mut message = "unit `".to_owned();
        message.append(unit.as_str());
        message.append("` did not finish stopping within ");
        message.append(text::decimal(wait_ms).as_str());
        message.append("ms");
        return after_stop(TargetResult::Failed { code: ErrorCode::Unknown, message }, then_start);
    }
    TargetState::Waiting(
        Stage::StopPause { unit, then_start, deadline, nanos: pause(remaining) },
    )
}

/// One Connection on its way through a command.
#[derive(Debug)]
pub struct TargetRun {
    pub connection: Connection,
    /// The proxy binary to look for.
    pub proxy_bin: String,
    pub wait_ms: u64,
    pub state: TargetState,
}

impl TargetRun {
    /// Takes in what came of that which the run waited for; `now` is a
    /// reading of a monotonic clock in nanoseconds.
    pub fn advance(self, event: Event, now: u64) -> (next: TargetRun)
        ensures
            next.connection == self.connection,
            next.proxy_bin == self.proxy_bin,
            next.wait_ms == self.wait_ms,
            next.state@ == advanced(
                self.connection@,
                self.wait_ms,
                self.state@,
                event,
                now as int,
            ),
    {
        let connection = self.connection;
        let wait_ms: u64 = self.wait_ms;
        let state = match (self.state, event) {
            (TargetState::Waiting(Stage::Gather), Event::Observed(observed)) => match reconcile_now(
                observed,
            ) {
                Ok(row) => TargetState::Gathered { failed: row.state == HealthState::Error },
                Err(result) => TargetState::Settled(result),
            },
            (TargetState::Waiting(Stage::CheckBeforeStart), Event::Observed(observed)) => try_start(
                observed,
                wait_ms,
                now,
            ),
            (TargetState::Waiting(Stage::FindProxyBin), Event::ProxyBin(resolved)) => {
                match resolve_proxy_bin_or_failure(resolved) {
                    Ok(proxy_bin) => TargetState::Waiting(Stage::ReadCredentials { proxy_bin }),
                    Err(result) => TargetState::Settled(result),
                }
            },
            (
                TargetState::Waiting(Stage::ReadCredentials { proxy_bin }),
                Event::Credentials(credentials),
            ) => equip(&connection, proxy_bin.as_str(), &credentials),
            (TargetState::Waiting(Stage::StartUnit { .. }), Event::UnitStarted(started)) => {
                match started {
                    Ok(()) => TargetState::Waiting(
                        Stage::StartPoll { deadline: polling_from(now, wait_ms) },
                    ),
                    Err(error) => TargetState::Settled(supervisor_result(&error)),
                }
            },
            (
                TargetState::Waiting(Stage::StartPoll { deadline }),
                Event::Observed(observed),
            ) => wait_for(observed, deadline, wait_ms, connection.id.as_str(), now),
            (
                TargetState::Waiting(Stage::StartPause { deadline, .. }),
                Event::Woke,
            ) => TargetState::Waiting(Stage::StartPoll { deadline }),
            (
                TargetState::Waiting(Stage::CheckBeforeStop),
                Event::Observed(observed),
            ) => try_stop(&connection, observed),
            (
                TargetState::Waiting(Stage::StopUnit { unit, then_start }),
                Event::UnitStopped(stopped),
            ) => match stopped {
                Ok(()) => TargetState::Waiting(
                    Stage::StopPoll { unit, then_start, deadline: polling_from(now, wait_ms) },
                ),
                Err(error) => after_stop(supervisor_result(&error), then_start),
            },
            (
                TargetState::Waiting(Stage::StopPoll { unit, then_start, deadline }),
                Event::UnitShown(shown),
            ) => wait_for_stop(shown, unit, then_start, deadline, wait_ms, now),
            (
                TargetState::Waiting(Stage::StopPause { unit, then_start, deadline, .. }),
                Event::Woke,
            ) => TargetState::Waiting(Stage::StopPoll { unit, then_start, deadline }),
            (state, _) => state,
        };
        TargetRun { connection, proxy_bin: self.proxy_bin, wait_ms, state }
    }
}

// ---------------------------------------------------------------------------
// Batches.
// ---------------------------------------------------------------------------

/// What a command does with each of its targets at first.
#[derive(Debug, Clone, Copy, PartialEq, Eq, Structural)]
pub enum Operation {
    Start,
    Stop,
    Restart,
    /// Restarts failed Connections only, so looks at all of them first.
    RestartFailed,
}

/// The state in which a run begins.
pub open spec fn first_state(
    operation: Operation,
    connection: ConnectionView,
    single_target: bool,
) -> TargetStateView {
    let disabled = disabled_result(connection.enabled, single_target);
    if operation == Operation::Stop {
        TargetStateView::Waiting(StageView::CheckBeforeStop)
    } else if disabled is Some {
        TargetStateView::Settled(disabled->0)
    } else if operation == Operation::Start {
        TargetStateView::Waiting(StageView::CheckBeforeStart)
    } else if operation == Operation::Restart {
        stopping(connection.id, true)
    } else {
        TargetStateView::Waiting(StageView::Gather)
    }
}

/// Whether a run is the beginning of an operation on a Connection.
pub open spec fn begins(
    run: TargetRun,
    operation: Operation,
    connection: ConnectionView,
    proxy_bin: Seq<char>,
    wait_ms: u64,
    single_target: bool,
) -> bool {
    &&& run.connection@ == connection
    &&& run.proxy_bin@ == proxy_bin
    &&& run.wait_ms == wait_ms
    &&& run.state@ == first_state(operation, connection, single_target)
}

/// The runs of a command, in the order of the selector.
#[derive(Debug)]
pub struct Batch {
    pub runs: Vec<TargetRun>,
}

/// Whether a result is the beginning of an operation on everything that a
/// selector names.
pub open spec fn batch_begins(
    result: Result<Batch, SelectError>,
    operation: Operation,
    config: Config,
    selector: Selector,
    wait_ms: u64,
) -> bool {
    match (select::selected(config.connections@, selector), result) {
        (Err(expected), Err(error)) => error == expected,
        (Ok(connections), Ok(batch)) => {
            &&& batch.runs@.len() == connections.len()
            &&& forall|i: int|
                0 <= i < connections.len() ==> begins(
                    #[trigger] batch.runs@[i],
                    operation,
                    connections[i]@,
                    config.proxy_bin@,
                    wait_ms,
                    selector is Id,
                )
        },
        _ => false,
    }
}

/// Begins to start a Connection, unless it is disabled.
pub fn start_target(
    connection: &Connection,
    config: &Config,
    wait_ms: u64,
    single_target: bool,
) -> (run: TargetRun)
    ensures
        begins(
            run,
            Operation::Start,
            connection@,
            config.proxy_bin@,
            wait_ms,
            single_target,
        ),
{
    let state = match disabled_policy(connection, single_target) {
        Some(result) => TargetState::Settled(result),
        None => TargetState::Waiting(Stage::CheckBeforeStart),
    };
    TargetRun { connection: connection.clone(), proxy_bin: config.proxy_bin.clone(), wait_ms, state }
}

/// Begins to stop a Connection; a disabled one stops like any other.
pub fn stop_target(connection: &Connection, config: &Config, wait_ms: u64) -> (run: TargetRun)
    ensures
        begins(run, Operation::Stop, connection@, config.proxy_bin@, wait_ms, false),
        forall|single_target: bool| #[trigger]
            begins(
                run,
                Operation::Stop,
                connection@,
                config.proxy_bin@,
                wait_ms,
                single_target,
            ),
{
    TargetRun {
        connection: connection.clone(),
        proxy_bin: config.proxy_bin.clone(),
        wait_ms,
        state: TargetState::Waiting(Stage::CheckBeforeStop),
    }
}

/// Begins to restart a Connection, unless it is disabled.
pub fn restart_target(
    connection: &Connection,
    config: &Config,
    wait_ms: u64,
    single_target: bool,
) -> (run: TargetRun)
    ensures
        begins(
            run,
            Operation::Restart,
            connection@,
            config.proxy_bin@,
            wait_ms,
            single_target,
        ),
{
    let state = match disabled_policy(connection, single_target) {
        Some(result) => TargetState::Settled(result),
        None => try_stop_for_restart(connection),
    };
    TargetRun { connection: connection.clone(), proxy_bin: config.proxy_bin.clone(), wait_ms, state }
}

/// Begins to find out whether a Connection failed, unless it is disabled.
pub fn gather_target(
    connection: &Connection,
    config: &Config,
    wait_ms: u64,
    single_target: bool,
) -> (run: TargetRun)
    ensures
        begins(
            run,
            Operation::RestartFailed,
            connection@,
            config.proxy_bin@,
            wait_ms,
            single_target,
        ),
{
    let state = match disabled_policy(connection, single_target) {
        Some(result) => TargetState::Settled(result),
        None => TargetState::Waiting(Stage::Gather),
    };
    TargetRun { connection: connection.clone(), proxy_bin: config.proxy_bin.clone(), wait_ms, state }
}

/// Begins an operation on everything that a selector names.
fn begin(operation: Operation, config: &Config, selector: &Selector, wait_ms: u64) -> (result:
    Result<Batch, SelectError>)
    ensures
        batch_begins(result, operation, *config, *selector, wait_ms),
{
    let connections = match select::expand(config, selector) {
        Ok(connections) => connections,
        Err(error) => return Err(error),
    };
    let single_target = match selector {
        Selector::Id(_) => true,
        Selector::All | Selector::Group(_) => false,
    };
    let ghost targets = select::targets(connections@);
    let mut runs: Vec<TargetRun> = Vec::new();
    let mut i: usize = 0;
    while i < connections.len()
        invariant
            targets == select::targets(connections@),
            select::selected(config.connections@, *selector) == Ok::<Seq<Connection>, SelectError>(
                targets,
            ),
            single_target == (selector is Id),
            i <= connections@.len(),
            runs@.len() == i,
            forall|k: int|
                0 <= k < i ==> begins(
                    #[trigger] runs@[k],
                    operation,
                    targets[k]@,
                    config.proxy_bin@,
                    wait_ms,
                    selector is Id,
                ),
        decreases connections@.len() - i,
    {
        let connection = connections[i];
        assert(targets[i as int] == *connection);
        let run = match operation {
            Operation::Start => start_target(connection, config, wait_ms, single_target),
            Operation::Stop => stop_target(connection, config, wait_ms),
            Operation::Restart => restart_target(connection, config, wait_ms, single_target),
            Operation::RestartFailed => gather_target(connection, config, wait_ms, single_target),
        };
        assert(begins(
            run,
            operation,
            targets[i as int]@,
            config.proxy_bin@,
            wait_ms,
            selector is Id,
        ));
        runs.push(run);
        i += 1;
    }
    Ok(Batch { runs })
}

/// Begins to start every Connection that a selector names.
pub fn start(config: &Config, selector: &Selector, wait_ms: u64) -> (result: Result<
    Batch,
    SelectError,
>)
    ensures
        batch_begins(result, Operation::Start, *config, *selector, wait_ms),
{
    begin(Operation::Start, config, selector, wait_ms)
}

/// Begins to stop every Connection that a selector names.
pub fn stop(config: &Config, selector: &Selector, wait_ms: u64) -> (result: Result<
    Batch,
    SelectError,
>)
    ensures
        batch_begins(result, Operation::Stop, *config, *selector, wait_ms),
{
    begin(Operation::Stop, config, selector, wait_ms)
}

/// Begins to restart every Connection that a selector names, or to look for
/// the failed ones among them.
pub fn restart(config: &Config, selector: &Selector, wait_ms: u64, failed_only: bool) -> (result:
    Result<Batch, SelectError>)
    ensures
        batch_begins(
            result,
            if failed_only {
                Operation::RestartFailed
            } else {
                Operation::Restart
            },
            *config,
            *selector,
            wait_ms,
        ),
{
    let operation = if failed_only {
        Operation::RestartFailed
    } else {
        Operation::Restart
    };
    begin(operation, config, selector, wait_ms)
}

/// Whether an id is that of a Connection that was observed to have failed.
pub open spec fn observed_failed(runs: Seq<TargetRun>, id: Seq<char>) -> bool {
    exists|i: int|
        0 <= i < runs.len() && (#[trigger] runs[i]).state@ == (TargetStateView::Gathered {
            failed: true,
        }) && runs[i].connection.id@ == id
}

/// What becomes of a run once all Connections were observed: a failed one is
/// restarted, any other observed one is left alone.
pub open spec fn failed_restarted(runs: Seq<TargetRun>, run: TargetRun) -> TargetStateView {
    if run.state@ is Gathered {
        if observed_failed(runs, run.connection.id@) {
            stopping(run.connection.id@, true)
        } else {
            TargetStateView::LeftAlone
        }
    } else {
        run.state@
    }
}

/// The runs that have a result, in their order.
pub open spec fn settled(runs: Seq<TargetRun>) -> Seq<TargetOutcomeView>
    decreases runs.len(),
{
    if runs.len() == 0 {
        Seq::empty()
    } else {
        let before = settled(runs.drop_last());
        match runs.last().state@ {
            TargetStateView::Settled(result) => before.push(
                TargetOutcomeView { id: runs.last().connection.id@, result },
            ),
            _ => before,
        }
    }
}

/// The views of a list of outcomes.
pub open spec fn outcome_views(targets: Seq<TargetOutcome>) -> Seq<TargetOutcomeView> {
    targets.map_values(|target: TargetOutcome| target@)
}

fn has_observed_failed(runs: &Vec<TargetRun>, id: &str) -> (yes: bool)
    ensures
        yes == observed_failed(runs@, id@),
{
    let mut i: usize = 0;
    while i < runs.len()
        invariant
            i <= runs@.len(),
            forall|k: int|
                0 <= k < i ==> !((#[trigger] runs@[k]).state@ == (TargetStateView::Gathered {
                    failed: true,
                }) && runs@[k].connection.id@ == id@),
        decreases runs@.len() - i,
    {
        let failed = match &runs[i].state {
            TargetState::Gathered { failed } => *failed,
            _ => false,
        };
        if failed && text::same(runs[i].connection.id.as_str(), id) {
            assert(runs@[i as int].state@ == (TargetStateView::Gathered { failed: true }));
            return true;
        }
        i += 1;
    }
    false
}

impl Batch {
    /// Takes in an event for one run. The other runs stay as they are.
    pub fn advance(&mut self, index: usize, event: Event, now: u64)
        requires
            index < old(self).runs@.len(),
        ensures
            final(self).runs@.len() == old(self).runs@.len(),
            forall|i: int|
                0 <= i < old(self).runs@.len() && i != index ==> final(self).runs@[i] == old(
                    self,
                ).runs@[i],
            final(self).runs@[index as int].connection == old(self).runs@[index as int].connection,
            final(self).runs@[index as int].proxy_bin == old(self).runs@[index as int].proxy_bin,
            final(self).runs@[index as int].wait_ms == old(self).runs@[index as int].wait_ms,
            final(self).runs@[index as int].state@ == advanced(
                old(self).runs@[index as int].connection@,
                old(self).runs@[index as int].wait_ms,
                old(self).runs@[index as int].state@,
                event,
                now as int,
            ),
    {
        let run = self.runs.remove(index);
        let next = run.advance(event, now);
        self.runs.insert(index, next);
    }

    /// The first run that waits for something.
    pub fn next_waiting(&self) -> (index: Option<usize>)
        ensures
            match index {
                Some(index) => index < self.runs@.len() && self.runs@[index as int].state is Waiting
                    && forall|i: int|
                    0 <= i < index ==> !((#[trigger] self.runs@[i]).state is Waiting),
                None => forall|i: int|
                    0 <= i < self.runs@.len() ==> !((#[trigger] self.runs@[i]).state is Waiting),
            },
    {
        let mut i: usize = 0;
        while i < self.runs.len()
            invariant
                i <= self.runs@.len(),
                forall|k: int| 0 <= k < i ==> !((#[trigger] self.runs@[k]).state is Waiting),
            decreases self.runs@.len() - i,
        {
            match &self.runs[i].state {
                TargetState::Waiting(_) => return Some(i),
                _ => {},
            }
            i += 1;
        }
        None
    }

    /// Goes on to restart the Connections that were observed to have failed,
    /// and leaves the other observed ones alone.
    pub fn restart_failed_only(self) -> (next: Batch)
        ensures
            next.runs@.len() == self.runs@.len(),
            forall|i: int|
                0 <= i < self.runs@.len() ==> {
                    &&& (#[trigger] next.runs@[i]).connection@ == self.runs@[i].connection@
                    &&& next.runs@[i].proxy_bin@ == self.runs@[i].proxy_bin@
                    &&& next.runs@[i].wait_ms == self.runs@[i].wait_ms
                    &&& next.runs@[i].state@ == failed_restarted(self.runs@, self.runs@[i])
                },
    {
        let ghost all = self.runs@;
        let mut to_restart: Vec<bool> = Vec::new();
        let mut i: usize = 0;
        while i < self.runs.len()
            invariant
                all == self.runs@,
                i <= all.len(),
                to_restart@.len() == i,
                forall|k: int|
                    0 <= k < i ==> #[trigger] to_restart@[k] == observed_failed(
                        all,
                        all[k].connection.id@,
                    ),
            decreases all.len() - i,
        {
            to_restart.push(has_observed_failed(&self.runs, self.runs[i].connection.id.as_str()));
            i += 1;
        }
        let mut rest = self.runs;
        let mut runs: Vec<TargetRun> = Vec::new();
        let mut i: usize = 0;
        assert(all.skip(0) =~= all);
        while i < to_restart.len()
            invariant
                all == self.runs@,
                to_restart@.len() == all.len(),
                forall|k: int|
                    0 <= k < all.len() ==> #[trigger] to_restart@[k] == observed_failed(
                        all,
                        all[k].connection.id@,
                    ),
                i <= all.len(),
                rest@ == all.skip(i as int),
                runs@.len() == i,
                forall|k: int|
                    0 <= k < i ==> {
                        &&& (#[trigger] runs@[k]).connection@ == all[k].connection@
                        &&& runs@[k].proxy_bin@ == all[k].proxy_bin@
                        &&& runs@[k].wait_ms == all[k].wait_ms
                        &&& runs@[k].state@ == failed_restarted(all, all[k])
                    },
            decreases all.len() - i,
        {
            let run = rest.remove(0);
            assert(run == all[i as int]);
            assert(rest@ =~= all.skip(i + 1));
            let state = match run.state {
                TargetState::Gathered { .. } => if to_restart[i] {
                    try_stop_for_restart(&run.connection)
                } else {
                    TargetState::LeftAlone
                },
                state => state,
            };
            runs.push(
                TargetRun {
                    connection: run.connection,
                    proxy_bin: run.proxy_bin,
                    wait_ms: run.wait_ms,
                    state,
                },
            );
            i += 1;
        }
        Batch { runs }
    }

    /// The results so far, in the order of the selector.
    pub fn outcome(&self) -> (outcome: BatchOutcome)
        ensures
            outcome_views(outcome.targets@) == settled(self.runs@),
    {
        let mut targets: Vec<TargetOutcome> = Vec::new();
        let mut i: usize = 0;
        assert(self.runs@.take(0) =~= Seq::empty());
        assert(outcome_views(targets@) =~= Seq::empty());
        while i < self.runs.len()
            invariant
                i <= self.runs@.len(),
                outcome_views(targets@) == settled(self.runs@.take(i as int)),
            decreases self.runs@.len() - i,
        {
            let run = &self.runs[i];
            let ghost before = targets@;
            proof {
                assert(self.runs@.take(i + 1).drop_last() =~= self.runs@.take(i as int));
            }
            match &run.state {
                TargetState::Settled(result) => {
                    let target = outcome_for(run.connection.id.as_str(), result.clone());
                    let ghost added = target@;
                    targets.push(target);
                    assert(outcome_views(targets@) =~= outcome_views(before).push(added));
                },
                _ => {},
            }
            i += 1;
        }
        assert(self.runs@.take(self.runs@.len() as int) =~= self.runs@);
        BatchOutcome { targets }
    }
}

// ---------------------------------------------------------------------------
// Laws.
// ---------------------------------------------------------------------------

/// The state of a run after a series of events, each with the instant at
/// which it came.
pub open spec fn replayed(
    connection: ConnectionView,
    wait_ms: u64,
    state: TargetStateView,
    events: Seq<(Event, int)>,
) -> TargetStateView
    decreases events.len(),
{
    if events.len() == 0 {
        state
    } else {
        advanced(
            connection,
            wait_ms,
            replayed(connection, wait_ms, state, events.drop_last()),
            events.last().0,
            events.last().1,
        )
    }
}

/// A result is final: no event changes it.
pub proof fn results_are_final(
    connection: ConnectionView,
    wait_ms: u64,
    result: TargetResultView,
    events: Seq<(Event, int)>,
)
    ensures
        replayed(connection, wait_ms, TargetStateView::Settled(result), events)
            == TargetStateView::Settled(result),
    decreases events.len(),
{
    if events.len() > 0 {
        results_are_final(connection, wait_ms, result, events.drop_last());
    }
}

/// A disabled Connection is never started or restarted: whatever happens,
/// nothing is asked of the system, and its result is a refusal where it was
/// named by its id and a skip otherwise.
pub proof fn disabled_connections_are_not_started(
    operation: Operation,
    connection: ConnectionView,
    wait_ms: u64,
    single_target: bool,
    events: Seq<(Event, int)>,
)
    requires
        !connection.enabled,
        operation != Operation::Stop,
    ensures
        replayed(
            connection,
            wait_ms,
            first_state(operation, connection, single_target),
            events,
        ) == TargetStateView::Settled(
            if single_target {
                TargetResultView::RefusedDisabled
            } else {
                TargetResultView::SkippedDisabled
            },
        ),
{
    results_are_final(
        connection,
        wait_ms,
        disabled_result(connection.enabled, single_target)->0,
        events,
    );
}

/// A stop does not depend on whether the Connection is enabled.
pub proof fn disabled_connections_are_stopped(connection: ConnectionView, single_target: bool)
    ensures
        first_state(Operation::Stop, connection, single_target) == TargetStateView::Waiting(
            StageView::CheckBeforeStop,
        ),
{
}

/// A run is about to start a Connection, or has begun to.
pub open spec fn is_starting(state: TargetStateView) -> bool {
    match state {
        TargetStateView::Waiting(stage) => stage is CheckBeforeStart || stage is FindProxyBin
            || stage is ReadCredentials || stage is StartUnit || stage is StartPoll
            || stage is StartPause,
        _ => false,
    }
}

/// A run is about to stop a Connection, or has begun to.
pub open spec fn is_stopping(state: TargetStateView, then_start: bool) -> bool {
    match state {
        TargetStateView::Waiting(StageView::CheckBeforeStop) => !then_start,
        TargetStateView::Waiting(StageView::StopUnit { then_start: next, .. }) => next
            == then_start,
        TargetStateView::Waiting(StageView::StopPoll { then_start: next, .. }) => next
            == then_start,
        TargetStateView::Waiting(StageView::StopPause { then_start: next, .. }) => next
            == then_start,
        _ => false,
    }
}

/// A stop never starts anything.
pub proof fn stops_never_start(
    connection: ConnectionView,
    wait_ms: u64,
    single_target: bool,
    events: Seq<(Event, int)>,
)
    ensures
        ({
            let state = replayed(
                connection,
                wait_ms,
                first_state(Operation::Stop, connection, single_target),
                events,
            );
            is_stopping(state, false) || state is Settled
        }),
    decreases events.len(),
{
    if events.len() > 0 {
        stops_never_start(connection, wait_ms, single_target, events.drop_last());
    }
}

/// systemd accepts the unit's stop.
pub open spec fn accepts_stop(event: Event) -> bool {
    event matches Event::UnitStopped(Ok(_))
}

/// The unit is seen to be unloaded.
pub open spec fn shows_unloaded(event: Event) -> bool {
    event matches Event::UnitShown(Ok(UnitSnapshot::Absent))
}

/// The unit was seen to be unloaded at some event, after systemd had accepted
/// its stop.
pub open spec fn seen_unloaded(events: Seq<(Event, int)>) -> bool {
    exists|i: int, j: int|
        0 <= i < j < events.len() && #[trigger] accepts_stop(events[i].0)
            && #[trigger] shows_unloaded(events[j].0)
}

/// systemd accepted the unit's stop at some event.
pub open spec fn stop_accepted(events: Seq<(Event, int)>) -> bool {
    exists|i: int| 0 <= i < events.len() && #[trigger] accepts_stop(events[i].0)
}

proof fn stops_last(events: Seq<(Event, int)>)
    requires
        events.len() > 0,
    ensures
        seen_unloaded(events.drop_last()) ==> seen_unloaded(events),
        stop_accepted(events.drop_last()) ==> stop_accepted(events),
        stop_accepted(events.drop_last()) && shows_unloaded(events.last().0) ==> seen_unloaded(
            events,
        ),
        accepts_stop(events.last().0) ==> stop_accepted(events),
{
    let before = events.drop_last();
    let n = events.len() - 1;
    if seen_unloaded(before) {
        let (i, j) = choose|i: int, j: int|
            0 <= i < j < before.len() && #[trigger] accepts_stop(before[i].0)
                && #[trigger] shows_unloaded(before[j].0);
        assert(accepts_stop(events[i].0) && shows_unloaded(events[j].0));
    }
    if stop_accepted(before) {
        let i = choose|i: int| 0 <= i < before.len() && #[trigger] accepts_stop(before[i].0);
        assert(accepts_stop(events[i].0));
        assert(shows_unloaded(events.last().0) ==> shows_unloaded(events[n].0));
    }
    assert(accepts_stop(events.last().0) ==> accepts_stop(events[n].0));
}

/// A restart begins to start only after its unit was stopped and then seen to
/// be unloaded.
pub proof fn restarts_stop_first(
    connection: ConnectionView,
    wait_ms: u64,
    events: Seq<(Event, int)>,
)
    ensures
        is_starting(replayed(connection, wait_ms, stopping(connection.id, true), events))
            ==> seen_unloaded(events),
{
    restarts_go_through_their_stop(connection, wait_ms, events);
}

proof fn restarts_go_through_their_stop(
    connection: ConnectionView,
    wait_ms: u64,
    events: Seq<(Event, int)>,
)
    ensures
        ({
            let state = replayed(connection, wait_ms, stopping(connection.id, true), events);
            &&& is_starting(state) ==> seen_unloaded(events)
            &&& state matches TargetStateView::Waiting(StageView::StopPoll { .. })
                ==> stop_accepted(events)
            &&& state matches TargetStateView::Waiting(StageView::StopPause { .. })
                ==> stop_accepted(events)
            &&& is_starting(state) || is_stopping(state, true) || state is Settled
        }),
    decreases events.len(),
{
    if events.len() > 0 {
        restarts_go_through_their_stop(connection, wait_ms, events.drop_last());
        stops_last(events);
    }
}

/// The Connection was seen to run as our unit at some event.
pub open spec fn seen_running(events: Seq<(Event, int)>) -> bool {
    exists|i: int|
        0 <= i < events.len() && (#[trigger] events[i].0 matches Event::Observed(Ok(row))
            && running(row))
}

/// The Connection was seen to be stopped at some event.
pub open spec fn seen_stopped(events: Seq<(Event, int)>) -> bool {
    exists|i: int|
        0 <= i < events.len() && (#[trigger] events[i].0 matches Event::Observed(Ok(row))
            && row.state == HealthState::Stopped)
}

proof fn sightings_last(events: Seq<(Event, int)>)
    requires
        events.len() > 0,
    ensures
        seen_running(events.drop_last()) ==> seen_running(events),
        seen_stopped(events.drop_last()) ==> seen_stopped(events),
{
    let before = events.drop_last();
    if seen_running(before) {
        let i = choose|i: int|
            0 <= i < before.len() && (#[trigger] before[i].0 matches Event::Observed(Ok(row))
                && running(row));
        assert(events[i] == before[i]);
    }
    if seen_stopped(before) {
        let i = choose|i: int|
            0 <= i < before.len() && (#[trigger] before[i].0 matches Event::Observed(Ok(row))
                && row.state == HealthState::Stopped);
        assert(events[i] == before[i]);
    }
}

/// A start or restart succeeds only where the Connection was seen to run as
/// our unit.
pub proof fn successful_starts_were_seen_running(
    operation: Operation,
    connection: ConnectionView,
    wait_ms: u64,
    single_target: bool,
    events: Seq<(Event, int)>,
)
    requires
        operation != Operation::Stop,
    ensures
        replayed(
            connection,
            wait_ms,
            first_state(operation, connection, single_target),
            events,
        ) == TargetStateView::Settled(TargetResultView::Succeeded) ==> seen_running(events),
{
    starts_go_through_their_checks(operation, connection, wait_ms, single_target, events);
}

proof fn starts_go_through_their_checks(
    operation: Operation,
    connection: ConnectionView,
    wait_ms: u64,
    single_target: bool,
    events: Seq<(Event, int)>,
)
    requires
        operation != Operation::Stop,
    ensures
        ({
            let state = replayed(
                connection,
                wait_ms,
                first_state(operation, connection, single_target),
                events,
            );
            &&& state == TargetStateView::Settled(TargetResultView::Succeeded) ==> seen_running(
                events,
            )
            &&& is_starting(state) || is_stopping(state, true) || state is Settled
                || state is Gathered || state == TargetStateView::Waiting(StageView::Gather)
        }),
    decreases events.len(),
{
    if events.len() > 0 {
        starts_go_through_their_checks(
            operation,
            connection,
            wait_ms,
            single_target,
            events.drop_last(),
        );
        sightings_last(events);
        let last = events[events.len() - 1];
        assert(last == events.last());
    }
}

/// A stop succeeds only where the Connection was seen to be stopped, or where
/// systemd accepted its unit's stop and the unit was then seen to be unloaded.
pub proof fn successful_stops_were_seen_stopped(
    connection: ConnectionView,
    wait_ms: u64,
    single_target: bool,
    events: Seq<(Event, int)>,
)
    ensures
        replayed(
            connection,
            wait_ms,
            first_state(Operation::Stop, connection, single_target),
            events,
        ) == TargetStateView::Settled(TargetResultView::Succeeded) ==> seen_stopped(events)
            || seen_unloaded(events),
{
    stops_go_through_their_checks(connection, wait_ms, single_target, events);
}

proof fn stops_go_through_their_checks(
    connection: ConnectionView,
    wait_ms: u64,
    single_target: bool,
    events: Seq<(Event, int)>,
)
    ensures
        ({
            let state = replayed(
                connection,
                wait_ms,
                first_state(Operation::Stop, connection, single_target),
                events,
            );
            &&& state == TargetStateView::Settled(TargetResultView::Succeeded) ==> seen_stopped(
                events,
            ) || seen_unloaded(events)
            &&& state matches TargetStateView::Waiting(StageView::StopPoll { .. })
                ==> stop_accepted(events)
            &&& state matches TargetStateView::Waiting(StageView::StopPause { .. })
                ==> stop_accepted(events)
            &&& is_stopping(state, false) || state is Settled
        }),
    decreases events.len(),
{
    if events.len() > 0 {
        stops_go_through_their_checks(connection, wait_ms, single_target, events.drop_last());
        sightings_last(events);
        stops_last(events);
        let last = events[events.len() - 1];
        assert(last == events.last());
    }
}

/// The unit that a state asks systemd for, where it asks for one.
pub open spec fn asked_unit(state: TargetStateView) -> Option<Seq<char>> {
    match state {
        TargetStateView::Waiting(StageView::StartUnit { unit }) => Some(unit.unit),
        TargetStateView::Waiting(StageView::StopUnit { unit, .. }) => Some(unit),
        TargetStateView::Waiting(StageView::StopPoll { unit, .. }) => Some(unit),
        TargetStateView::Waiting(StageView::StopPause { unit, .. }) => Some(unit),
        _ => None,
    }
}

/// Whether the unit that a state asks systemd for is the Connection's own, and
/// is started with the Connection's arguments.
pub open spec fn own_unit_only(connection: ConnectionView, state: TargetStateView) -> bool {
    &&& asked_unit(state) matches Some(unit) ==> model::unit_name_of(connection.id) == Ok::<
        Seq<char>,
        model::UnitNameError,
    >(unit)
    &&& state matches TargetStateView::Waiting(StageView::StartUnit { unit }) ==> unit.argv
        == supervisor::argv_of(connection, unit.program)
}

/// A run starts and stops the unit of its own Connection only, and starts it
/// with that Connection's arguments.
pub proof fn runs_touch_their_own_unit_only(
    operation: Operation,
    connection: ConnectionView,
    wait_ms: u64,
    single_target: bool,
    events: Seq<(Event, int)>,
)
    ensures
        own_unit_only(
            connection,
            replayed(
                connection,
                wait_ms,
                first_state(operation, connection, single_target),
                events,
            ),
        ),
    decreases events.len(),
{
    if events.len() > 0 {
        runs_touch_their_own_unit_only(
            operation,
            connection,
            wait_ms,
            single_target,
            events.drop_last(),
        );
    }
}

/// Runs of Connections with different valid ids never ask for the same unit,
/// whatever happens to each of them.
pub proof fn different_connections_have_different_units(
    a: ConnectionView,
    a_operation: Operation,
    a_wait_ms: u64,
    a_single: bool,
    a_events: Seq<(Event, int)>,
    b: ConnectionView,
    b_operation: Operation,
    b_wait_ms: u64,
    b_single: bool,
    b_events: Seq<(Event, int)>,
)
    requires
        config::valid_id(a.id),
        config::valid_id(b.id),
        a.id != b.id,
    ensures
        ({
            let a_unit = asked_unit(
                replayed(a, a_wait_ms, first_state(a_operation, a, a_single), a_events),
            );
            let b_unit = asked_unit(
                replayed(b, b_wait_ms, first_state(b_operation, b, b_single), b_events),
            );
            a_unit is Some && b_unit is Some ==> a_unit != b_unit
        }),
{
    runs_touch_their_own_unit_only(a_operation, a, a_wait_ms, a_single, a_events);
    runs_touch_their_own_unit_only(b_operation, b, b_wait_ms, b_single, b_events);
    config::valid_ids_have_their_own_unit_names(a.id, b.id);
}

/// The proxy binary was found at some event.
pub open spec fn binary_found(events: Seq<(Event, int)>, path: Seq<char>) -> bool {
    exists|i: int|
        0 <= i < events.len() && (#[trigger] events[i].0 matches Event::ProxyBin(Ok(found))
            && found@ == path)
}

/// Credentials were found at some event.
pub open spec fn credentials_found(events: Seq<(Event, int)>) -> bool {
    exists|i: int|
        0 <= i < events.len() && (#[trigger] events[i].0 matches Event::Credentials(credentials)
            && credentials.present())
}

proof fn findings_last(events: Seq<(Event, int)>, path: Seq<char>)
    requires
        events.len() > 0,
    ensures
        binary_found(events.drop_last(), path) ==> binary_found(events, path),
        credentials_found(events.drop_last()) ==> credentials_found(events),
{
    let before = events.drop_last();
    if binary_found(before, path) {
        let i = choose|i: int|
            0 <= i < before.len() && (#[trigger] before[i].0 matches Event::ProxyBin(Ok(found))
                && found@ == path);
        assert(events[i] == before[i]);
    }
    if credentials_found(before) {
        let i = choose|i: int|
            0 <= i < before.len() && (#[trigger] before[i].0 matches Event::Credentials(
                credentials,
            ) && credentials.present());
        assert(events[i] == before[i]);
    }
}

/// A unit is started only with a proxy binary that was found, and only where
/// credentials are present.
pub proof fn units_start_with_binary_and_credentials(
    operation: Operation,
    connection: ConnectionView,
    wait_ms: u64,
    single_target: bool,
    events: Seq<(Event, int)>,
)
    ensures
        ({
            let state = replayed(
                connection,
                wait_ms,
                first_state(operation, connection, single_target),
                events,
            );
            &&& state matches TargetStateView::Waiting(StageView::StartUnit { unit })
                ==> binary_found(events, unit.program) && credentials_found(events)
            &&& state matches TargetStateView::Waiting(StageView::ReadCredentials { proxy_bin })
                ==> binary_found(events, proxy_bin)
        }),
    decreases events.len(),
{
    if events.len() > 0 {
        let before = events.drop_last();
        units_start_with_binary_and_credentials(
            operation,
            connection,
            wait_ms,
            single_target,
            before,
        );
        let first = first_state(operation, connection, single_target);
        let old_state = replayed(connection, wait_ms, first, before);
        let state = replayed(connection, wait_ms, first, events);
        let last = events[events.len() - 1];
        assert(last == events.last());
        match state {
            TargetStateView::Waiting(StageView::StartUnit { unit }) => {
                findings_last(events, unit.program);
            },
            TargetStateView::Waiting(StageView::ReadCredentials { proxy_bin }) => {
                findings_last(events, proxy_bin);
            },
            _ => {},
        }
    }
}

/// A start of a Connection that runs already as our unit, or whose port
/// another process holds, settles at once without starting anything.
pub proof fn running_connections_are_not_started_again(
    connection: ConnectionView,
    wait_ms: u64,
    row: StatusRow,
    now: int,
)
    requires
        connection.enabled,
    ensures
        running(row) ==> advanced(
            connection,
            wait_ms,
            first_state(Operation::Start, connection, false),
            Event::Observed(Ok(row)),
            now,
        ) == TargetStateView::Settled(TargetResultView::Succeeded),
        !running(row) && row.error is Some && row.error->0.code == ErrorCode::PortInUse
            ==> advanced(
            connection,
            wait_ms,
            first_state(Operation::Start, connection, false),
            Event::Observed(Ok(row)),
            now,
        ) == TargetStateView::Settled(
            TargetResultView::Failed {
                code: ErrorCode::PortInUse,
                message: row.error->0.detail@,
            },
        ),
{
}

/// A wait ends by its deadline: a poll at or after it settles the run, or
/// ends the stop of a restart. Before it, a pause is never longer than the
/// poll interval nor than what remains.
pub proof fn waits_end_by_their_deadline(
    connection: ConnectionView,
    wait_ms: u64,
    unit: Seq<char>,
    then_start: bool,
    deadline: int,
    observed: Result<StatusRow, StatusCommandError>,
    shown: Result<UnitSnapshot, SupervisorError>,
    now: int,
)
    ensures
        ({
            let next = advanced(
                connection,
                wait_ms,
                TargetStateView::Waiting(StageView::StartPoll { deadline }),
                Event::Observed(observed),
                now,
            );
            &&& now >= deadline ==> next is Settled
            &&& next matches TargetStateView::Waiting(StageView::StartPause {
                deadline: kept,
                nanos,
            }) ==> kept == deadline && 0 < nanos <= POLL_INTERVAL && now + nanos <= deadline
        }),
        ({
            let next = advanced(
                connection,
                wait_ms,
                TargetStateView::Waiting(StageView::StopPoll { unit, then_start, deadline }),
                Event::UnitShown(shown),
                now,
            );
            &&& now >= deadline ==> next is Settled || next == TargetStateView::Waiting(
                StageView::CheckBeforeStart,
            )
            &&& next matches TargetStateView::Waiting(StageView::StopPause {
                deadline: kept,
                nanos,
                ..
            }) ==> kept == deadline && 0 < nanos <= POLL_INTERVAL && now + nanos <= deadline
        }),
{
}

/// Where all runs have settled there is one outcome per run, in their order.
pub proof fn settled_runs_have_one_outcome_each(runs: Seq<TargetRun>)
    requires
        forall|i: int| 0 <= i < runs.len() ==> (#[trigger] runs[i]).state@ is Settled,
    ensures
        settled(runs).len() == runs.len(),
        forall|i: int|
            0 <= i < runs.len() ==> #[trigger] settled(runs)[i] == (TargetOutcomeView {
                id: runs[i].connection.id@,
                result: runs[i].state@->Settled_0,
            }),
    decreases runs.len(),
{
    if runs.len() > 0 {
        let front = runs.drop_last();
        assert forall|i: int| 0 <= i < front.len() implies (#[trigger] front[i]).state@ is Settled by {
            assert(front[i] == runs[i]);
        }
        settled_runs_have_one_outcome_each(front);
        assert(runs[runs.len() - 1] == runs.last());
        assert forall|i: int| 0 <= i < runs.len() implies #[trigger] settled(runs)[i] == (
        TargetOutcomeView {
            id: runs[i].connection.id@,
            result: runs[i].state@->Settled_0,
        }) by {
            if i < front.len() {
                assert(settled(front)[i] == settled(runs)[i]);
                assert(front[i] == runs[i]);
            }
        }
    }
}

/// A run waits for something other than the first look of a restart of failed
/// Connections, or has settled.
pub open spec fn waits_or_settled(state: TargetStateView) -> bool {
    match state {
        TargetStateView::Waiting(stage) => !(stage is Gather),
        TargetStateView::Settled(_) => true,
        _ => false,
    }
}

proof fn waiting_ends_in_results(
    connection: ConnectionView,
    wait_ms: u64,
    state: TargetStateView,
    events: Seq<(Event, int)>,
)
    requires
        waits_or_settled(state),
    ensures
        waits_or_settled(replayed(connection, wait_ms, state, events)),
    decreases events.len(),
{
    if events.len() > 0 {
        waiting_ends_in_results(connection, wait_ms, state, events.drop_last());
    }
}

/// A start, a stop or a restart waits for something or has a result, whatever
/// happens: none is dropped on its way.
pub proof fn runs_wait_or_have_settled(
    operation: Operation,
    connection: ConnectionView,
    wait_ms: u64,
    single_target: bool,
    events: Seq<(Event, int)>,
)
    requires
        operation != Operation::RestartFailed,
    ensures
        ({
            let state = replayed(
                connection,
                wait_ms,
                first_state(operation, connection, single_target),
                events,
            );
            state is Waiting || state is Settled
        }),
{
    waiting_ends_in_results(
        connection,
        wait_ms,
        first_state(operation, connection, single_target),
        events,
    );
}

/// Whether a run is one of an operation on a Connection, some events after its
/// beginning.
pub open spec fn underway(
    run: TargetRun,
    operation: Operation,
    connection: ConnectionView,
    single_target: bool,
) -> bool {
    &&& run.connection@ == connection
    &&& exists|events: Seq<(Event, int)>| #[trigger]
        replayed(
            connection,
            run.wait_ms,
            first_state(operation, connection, single_target),
            events,
        ) == run.state@
}

/// A run is underway from its beginning.
pub proof fn beginnings_are_underway(
    run: TargetRun,
    operation: Operation,
    connection: ConnectionView,
    proxy_bin: Seq<char>,
    wait_ms: u64,
    single_target: bool,
)
    requires
        begins(run, operation, connection, proxy_bin, wait_ms, single_target),
    ensures
        underway(run, operation, connection, single_target),
{
    let first = first_state(operation, connection, single_target);
    let none = Seq::<(Event, int)>::empty();
    assert(replayed(connection, run.wait_ms, first, none) == run.state@);
}

/// A run that takes in an event stays underway.
pub proof fn advanced_runs_stay_underway(
    run: TargetRun,
    next: TargetRun,
    operation: Operation,
    connection: ConnectionView,
    single_target: bool,
    event: Event,
    now: int,
)
    requires
        underway(run, operation, connection, single_target),
        next.connection == run.connection,
        next.wait_ms == run.wait_ms,
        next.state@ == advanced(run.connection@, run.wait_ms, run.state@, event, now),
    ensures
        underway(next, operation, connection, single_target),
{
    let first = first_state(operation, connection, single_target);
    let events = choose|events: Seq<(Event, int)>| #[trigger]
        replayed(connection, run.wait_ms, first, events) == run.state@;
    let more = events.push((event, now));
    assert(more.drop_last() =~= events);
    assert(replayed(connection, next.wait_ms, first, more) == next.state@);
}

/// A start, stop or restart in which no run waits any more has one outcome for
/// each selected Connection: with that Connection's id, in the order of the
/// selector.
pub proof fn finished_batches_have_one_outcome_per_connection(
    runs: Seq<TargetRun>,
    operation: Operation,
    connections: Seq<Connection>,
    single_target: bool,
)
    requires
        operation != Operation::RestartFailed,
        runs.len() == connections.len(),
        forall|i: int|
            0 <= i < runs.len() ==> underway(
                #[trigger] runs[i],
                operation,
                connections[i]@,
                single_target,
            ),
        forall|i: int| 0 <= i < runs.len() ==> !((#[trigger] runs[i]).state is Waiting),
    ensures
        settled(runs).len() == connections.len(),
        forall|i: int|
            0 <= i < connections.len() ==> (#[trigger] settled(runs)[i]).id == connections[i].id@,
        forall|i: int|
            0 <= i < connections.len() ==> runs[i].state@ == TargetStateView::Settled(
                (#[trigger] settled(runs)[i]).result,
            ),
{
    assert forall|i: int| 0 <= i < runs.len() implies (#[trigger] runs[i]).state@ is Settled by {
        let run = runs[i];
        let connection = connections[i]@;
        assert(underway(run, operation, connection, single_target));
        let first = first_state(operation, connection, single_target);
        let events = choose|events: Seq<(Event, int)>| #[trigger]
            replayed(connection, run.wait_ms, first, events) == run.state@;
        runs_wait_or_have_settled(operation, connection, run.wait_ms, single_target, events);
        assert(!(run.state is Waiting));
    }
    settled_runs_have_one_outcome_each(runs);
    assert forall|i: int| 0 <= i < connections.len() implies (#[trigger] settled(runs)[i]).id
        == connections[i].id@ by {
        assert(underway(runs[i], operation, connections[i]@, single_target));
    }
}

proof fn looks_end_in_findings(
    connection: ConnectionView,
    wait_ms: u64,
    single_target: bool,
    events: Seq<(Event, int)>,
)
    ensures
        ({
            let state = replayed(
                connection,
                wait_ms,
                first_state(Operation::RestartFailed, connection, single_target),
                events,
            );
            state == TargetStateView::Waiting(StageView::Gather) || state is Gathered
                || state is Settled
        }),
    decreases events.len(),
{
    if events.len() > 0 {
        looks_end_in_findings(connection, wait_ms, single_target, events.drop_last());
    }
}

proof fn left_alone_is_final(
    connection: ConnectionView,
    wait_ms: u64,
    events: Seq<(Event, int)>,
)
    ensures
        replayed(connection, wait_ms, TargetStateView::LeftAlone, events)
            == TargetStateView::LeftAlone,
    decreases events.len(),
{
    if events.len() > 0 {
        left_alone_is_final(connection, wait_ms, events.drop_last());
    }
}

/// A restart of failed Connections leaves a Connection without a result only
/// where it was observed and had not failed; one that could not be observed is
/// reported.
pub proof fn failed_restarts_account_for_every_connection(
    runs: Seq<TargetRun>,
    i: int,
    connection: ConnectionView,
    single_target: bool,
    events: Seq<(Event, int)>,
)
    requires
        0 <= i < runs.len(),
        underway(runs[i], Operation::RestartFailed, connection, single_target),
        !(runs[i].state is Waiting),
    ensures
        ({
            let state = replayed(
                connection,
                runs[i].wait_ms,
                failed_restarted(runs, runs[i]),
                events,
            );
            let spared = runs[i].state@ is Gathered && !observed_failed(runs, connection.id);
            if spared {
                state == TargetStateView::LeftAlone
            } else {
                state is Waiting || state is Settled
            }
        }),
{
    let run = runs[i];
    let first = first_state(Operation::RestartFailed, connection, single_target);
    let before = choose|before: Seq<(Event, int)>| #[trigger]
        replayed(connection, run.wait_ms, first, before) == run.state@;
    looks_end_in_findings(connection, run.wait_ms, single_target, before);
    let next = failed_restarted(runs, run);
    if next == TargetStateView::LeftAlone {
        left_alone_is_final(connection, run.wait_ms, events);
    } else {
        waiting_ends_in_results(connection, run.wait_ms, next, events);
    }
}

/// A Connection counts as failed exactly when the filter for failed rows keeps
/// its row.
pub proof fn gathered_failures_are_the_failed_rows(
    connection: ConnectionView,
    wait_ms: u64,
    rows: Seq<StatusRow>,
    i: int,
    now: int,
)
    requires
        0 <= i < rows.len(),
    ensures
        advanced(
            connection,
            wait_ms,
            TargetStateView::Waiting(StageView::Gather),
            Event::Observed(Ok(rows[i])),
            now,
        ) == (TargetStateView::Gathered { failed: select::failed_rows(rows).contains(rows[i]) }),
{
    broadcast use vstd::seq_lib::group_filter_ensures;

    let keep = |row: StatusRow| row.state == HealthState::Error;
    let failed = rows.filter(keep);
    if keep(rows[i]) {
        assert(failed.contains(rows[i]));
    } else if failed.contains(rows[i]) {
        let k = choose|k: int| 0 <= k < failed.len() && failed[k] == rows[i];
        assert(keep(failed[k]));
    }
}

/// Of Connections with different ids, a restart of the failed ones restarts
/// exactly those that were observed to have failed.
pub proof fn only_failed_connections_are_restarted(runs: Seq<TargetRun>, i: int, failed: bool)
    requires
        0 <= i < runs.len(),
        runs[i].state@ == (TargetStateView::Gathered { failed }),
        forall|a: int, b: int|
            0 <= a < b < runs.len() ==> (#[trigger] runs[a]).connection.id@ != (
            #[trigger] runs[b]).connection.id@,
    ensures
        failed ==> failed_restarted(runs, runs[i]) == stopping(runs[i].connection.id@, true),
        !failed ==> failed_restarted(runs, runs[i]) == TargetStateView::LeftAlone,
{
    if !failed && observed_failed(runs, runs[i].connection.id@) {
        let j = choose|j: int|
            0 <= j < runs.len() && (#[trigger] runs[j]).state@ == (TargetStateView::Gathered {
                failed: true,
            }) && runs[j].connection.id@ == runs[i].connection.id@;
        if i < j {
            assert(runs[i].connection.id@ != runs[j].connection.id@);
        } else if j < i {
            assert(runs[j].connection.id@ != runs[i].connection.id@);
        }
    }
}

// ---------------------------------------------------------------------------
// Laws of single steps.
// ---------------------------------------------------------------------------

/// Whether a run goes from one state to another with an event.
pub open spec fn steps(run: TargetRun, event: Event, now: u64, next: TargetRun) -> bool {
    call_ensures(TargetRun::advance, (run, event, now), next)
}

/// A run stays with its Connection, its proxy binary and its patience.
pub proof fn runs_keep_their_connection(run: TargetRun, event: Event, now: u64, next: TargetRun)
    requires
        steps(run, event, now, next),
    ensures
        next.connection@ == run.connection@,
        next.proxy_bin@ == run.proxy_bin@,
        next.wait_ms == run.wait_ms,
{
}

/// Whether an event is of the kind that a run waits for.
pub open spec fn awaits(stage: StageView, event: Event) -> bool {
    match stage {
        StageView::Gather => event is Observed,
        StageView::CheckBeforeStart => event is Observed,
        StageView::FindProxyBin => event is ProxyBin,
        StageView::ReadCredentials { .. } => event is Credentials,
        StageView::StartUnit { .. } => event is UnitStarted,
        StageView::StartPoll { .. } => event is Observed,
        StageView::StartPause { .. } => event is Woke,
        StageView::CheckBeforeStop => event is Observed,
        StageView::StopUnit { .. } => event is UnitStopped,
        StageView::StopPoll { .. } => event is UnitShown,
        StageView::StopPause { .. } => event is Woke,
    }
}

/// A run goes on exactly with an event of the kind that it waits for; any other
/// event leaves it as it is, and so does every event where it waits no more.
pub proof fn only_awaited_events_count(run: TargetRun, event: Event, now: u64, next: TargetRun)
    requires
        steps(run, event, now, next),
    ensures
        match run.state@ {
            TargetStateView::Waiting(stage) => awaits(stage, event) <==> next.state@ != run.state@,
            _ => next.state@ == run.state@,
        },
{
}

/// A stop asks systemd to stop the Connection's own unit whatever state it was
/// seen in, be it an error, unless it was seen to be stopped: then there is
/// nothing to do. Only an id without a unit name cannot be stopped.
pub proof fn stops_go_ahead_unless_stopped(
    run: TargetRun,
    row: StatusRow,
    now: u64,
    next: TargetRun,
)
    requires
        steps(run, Event::Observed(Ok(row)), now, next),
        run.state@ == TargetStateView::Waiting(StageView::CheckBeforeStop),
    ensures
        row.state == HealthState::Stopped ==> next.state@ == TargetStateView::Settled(
            TargetResultView::Succeeded,
        ),
        row.state != HealthState::Stopped ==> match model::unit_name_of(run.connection.id@) {
            Ok(unit) => next.state@ == TargetStateView::Waiting(
                StageView::StopUnit { unit, then_start: false },
            ),
            Err(_) => next.state@ matches TargetStateView::Settled(
                TargetResultView::Failed { code, .. },
            ) && code == ErrorCode::Config,
        },
        row.state != HealthState::Stopped && config::sound_id(run.connection.id@) ==> next.state@
            == TargetStateView::Waiting(
            StageView::StopUnit {
                unit: "cloud-sql-proxy-"@ + run.connection.id@ + ".service"@,
                then_start: false,
            },
        ),
{
    if config::sound_id(run.connection.id@) {
        config::sound_ids_have_unit_names(run.connection.id@);
    }
}

/// What a failed operation of systemd comes to: a failure of the environment
/// where nothing can be operated, and else of the one Connection; in the
/// error's own words either way.
pub open spec fn systemd_failed(state: TargetStateView, error: SupervisorError) -> bool {
    forall|dependency: bool, message: String|
        #![trigger call_ensures(SupervisorError::is_dependency, (&error,), dependency),
            call_ensures(SupervisorError::message, (&error,), message)]
        call_ensures(SupervisorError::is_dependency, (&error,), dependency) && call_ensures(
            SupervisorError::message,
            (&error,),
            message,
        ) ==> state == TargetStateView::Settled(
            if dependency {
                TargetResultView::Dependency { message: message@ }
            } else {
                TargetResultView::Failed { code: ErrorCode::Unknown, message: message@ }
            },
        )
}

/// A Connection that cannot be observed ends its run, and so does a unit that
/// cannot be started, stopped or looked at.
pub proof fn failures_end_runs(
    run: TargetRun,
    event: Event,
    now: u64,
    next: TargetRun,
    stage: StageView,
    error: SupervisorError,
    id: String,
)
    requires
        steps(run, event, now, next),
        run.state@ == TargetStateView::Waiting(stage),
        awaits(stage, event),
        event == Event::Observed(Err(StatusCommandError::Supervisor { id, source: error })) || event
            == Event::UnitStarted(Err(error)) || event == Event::UnitStopped(Err(error)) || event
            == Event::UnitShown(Err(error)),
    ensures
        next.state@ is Settled,
        systemd_failed(next.state@, error),
{
}

/// An observation that fails for another reason than systemd is a failure of
/// the one Connection.
pub proof fn other_failed_observations_are_failures(
    run: TargetRun,
    now: u64,
    next: TargetRun,
    stage: StageView,
    error: StatusCommandError,
    message: String,
)
    requires
        steps(run, Event::Observed(Err(error)), now, next),
        run.state@ == TargetStateView::Waiting(stage),
        awaits(stage, Event::Observed(Err(error))),
        !(error is Supervisor),
        call_ensures(StatusCommandError::message, (&error,), message),
    ensures
        next.state@ == TargetStateView::Settled(
            TargetResultView::Failed { code: ErrorCode::Unknown, message: message@ },
        ),
{
}

/// Once systemd has accepted a stop, the unit is looked at until it is gone,
/// for as many milliseconds as the run has patience.
pub proof fn accepted_stops_are_waited_for(
    run: TargetRun,
    now: u64,
    next: TargetRun,
    unit: Seq<char>,
    then_start: bool,
)
    requires
        steps(run, Event::UnitStopped(Ok(())), now, next),
        run.state@ == TargetStateView::Waiting(StageView::StopUnit { unit, then_start }),
    ensures
        next.state@ == TargetStateView::Waiting(
            StageView::StopPoll {
                unit,
                then_start,
                deadline: now + run.wait_ms * 1_000_000,
            },
        ),
{
}

/// A stop is over where its unit is gone: a restart then goes on to its start,
/// a plain stop has succeeded. While the unit is still loaded it is looked at
/// again, a fifth of a second later or at the deadline; from the deadline on it
/// has failed.
pub proof fn stops_wait_until_the_unit_is_gone(
    run: TargetRun,
    snapshot: UnitSnapshot,
    now: u64,
    next: TargetRun,
    unit: Seq<char>,
    then_start: bool,
    deadline: int,
)
    requires
        steps(run, Event::UnitShown(Ok(snapshot)), now, next),
        run.state@ == TargetStateView::Waiting(StageView::StopPoll { unit, then_start, deadline }),
    ensures
        snapshot is Absent && then_start ==> next.state@ == TargetStateView::Waiting(
            StageView::CheckBeforeStart,
        ),
        snapshot is Absent && !then_start ==> next.state@ == TargetStateView::Settled(
            TargetResultView::Succeeded,
        ),
        snapshot is Loaded && now >= deadline ==> next.state@ == TargetStateView::Settled(
            TargetResultView::Failed {
                code: ErrorCode::Unknown,
                message: "unit `"@ + unit + "` did not finish stopping within "@ + text::digits(
                    run.wait_ms as nat,
                ) + "ms"@,
            },
        ),
        snapshot is Loaded && now < deadline ==> next.state@ == TargetStateView::Waiting(
            StageView::StopPause {
                unit,
                then_start,
                deadline,
                nanos: if deadline - now < 200_000_000 {
                    deadline - now
                } else {
                    200_000_000
                },
            },
        ),
{
}

/// A pause ends in another look, with the same deadline.
pub proof fn pauses_end_in_another_look(
    run: TargetRun,
    now: u64,
    next: TargetRun,
    unit: Seq<char>,
    then_start: bool,
    deadline: int,
    nanos: int,
)
    requires
        steps(run, Event::Woke, now, next),
    ensures
        run.state@ == TargetStateView::Waiting(StageView::StartPause { deadline, nanos })
            ==> next.state@ == TargetStateView::Waiting(StageView::StartPoll { deadline }),
        run.state@ == TargetStateView::Waiting(
            StageView::StopPause { unit, then_start, deadline, nanos },
        ) ==> next.state@ == TargetStateView::Waiting(
            StageView::StopPoll { unit, then_start, deadline },
        ),
{
}

/// A start has nothing to do where the Connection runs as our unit, fails where
/// another process holds its port, waits where it is starting already, and
/// goes ahead in every other state: a failed unit is started again.
pub proof fn starts_go_ahead_unless_running_or_in_conflict(
    run: TargetRun,
    row: StatusRow,
    now: u64,
    next: TargetRun,
)
    requires
        steps(run, Event::Observed(Ok(row)), now, next),
        run.state@ == TargetStateView::Waiting(StageView::CheckBeforeStart),
    ensures
        ({
            let ours = row.state == HealthState::Running && row.source == Source::Unit;
            let conflict = row.error is Some && row.error->0.code == ErrorCode::PortInUse;
            &&& ours ==> next.state@ == TargetStateView::Settled(TargetResultView::Succeeded)
            &&& !ours && conflict ==> next.state@ == TargetStateView::Settled(
                TargetResultView::Failed {
                    code: ErrorCode::PortInUse,
                    message: row.error->0.detail@,
                },
            )
            &&& !ours && !conflict && row.state == HealthState::Starting ==> next.state@
                == TargetStateView::Waiting(
                StageView::StartPoll { deadline: now + run.wait_ms * 1_000_000 },
            )
            &&& !ours && !conflict && row.state != HealthState::Starting ==> next.state@
                == TargetStateView::Waiting(StageView::FindProxyBin)
        }),
{
}

/// A start goes on with the binary that was found, and fails without one as a
/// failure of the environment that says what is missing.
pub proof fn starts_use_the_binary_that_was_found(
    run: TargetRun,
    resolved: Result<String, ProxyBinError>,
    now: u64,
    next: TargetRun,
)
    requires
        steps(run, Event::ProxyBin(resolved), now, next),
        run.state@ == TargetStateView::Waiting(StageView::FindProxyBin),
    ensures
        resolved matches Ok(path) ==> next.state@ == TargetStateView::Waiting(
            StageView::ReadCredentials { proxy_bin: path@ },
        ),
        resolved matches Err(error) ==> (next.state@ matches TargetStateView::Settled(
            TargetResultView::Dependency { message },
        ) && forall|missing: String|
            call_ensures(ProxyBinError::message, (&error,), missing) ==> message == missing@
                + " ("@ + env::PROXY_BIN_INSTALL_HINT@ + ")"@),
{
}

/// A start hands on the home directory, where there is one, and the path of the
/// credentials: the environment variable's, else the default one. Without a
/// path or a readable file it fails for want of authentication.
pub proof fn credentials_are_handed_on(
    credentials: &Credentials,
    result: Result<Vec<EnvVar>, TargetResult>,
)
    requires
        call_ensures(adc_env_or_failure, (credentials,), result),
    ensures
        result is Ok <==> credentials.readable && (credentials.gac_env is Some || credentials.home
            is Some),
        result matches Ok(vars) ==> {
            let last = vars@[vars@.len() - 1];
            &&& vars@.len() == if credentials.home is Some {
                2int
            } else {
                1
            }
            &&& credentials.home matches Some(home) ==> vars@[0].name@ == "HOME"@ && vars@[0].value@
                == home@
            &&& last.name@ == "GOOGLE_APPLICATION_CREDENTIALS"@
            &&& credentials.gac_env matches Some(path) ==> last.value@ == path@
            &&& credentials.gac_env is None ==> forall|status: env::AdcStatus|
                call_ensures(
                    env::resolve_adc_status,
                    (&credentials.home, &credentials.gac_env, credentials.readable),
                    status,
                ) ==> status.path is Some && last.value@ == status.path->0@
        },
        result matches Err(failure) ==> (failure matches TargetResult::Failed { code, .. } && code
            == ErrorCode::Auth),
{
    if result is Ok {
        let vars = result->Ok_0@;
        let handed = supervisor::env_view(vars);
        assert(handed.len() == vars.len());
        assert forall|i: int| 0 <= i < vars.len() implies #[trigger] handed[i] == (
            vars[i].name@,
            vars[i].value@,
        ) by {}
        assert(handed == forwarded_env(*credentials));
        assert(handed.len() == if credentials.home is Some {
            2int
        } else {
            1
        });
        assert(handed[0] == (vars[0].name@, vars[0].value@));
        assert(handed[handed.len() - 1] == (
            vars[vars.len() - 1].name@,
            vars[vars.len() - 1].value@,
        ));
    }
}

/// With credentials a start asks systemd for the Connection's own unit, with
/// the binary that was found and the environment that is to be handed on.
/// Without them it fails.
pub proof fn starts_ask_for_the_unit_with_credentials(
    run: TargetRun,
    credentials: Credentials,
    now: u64,
    next: TargetRun,
    proxy_bin: &str,
    vars: Result<Vec<EnvVar>, TargetResult>,
)
    requires
        steps(run, Event::Credentials(credentials), now, next),
        run.state@ == TargetStateView::Waiting(
            StageView::ReadCredentials { proxy_bin: proxy_bin@ },
        ),
        call_ensures(adc_env_or_failure, (&credentials,), vars),
    ensures
        vars matches Err(failure) ==> next.state@ == TargetStateView::Settled(failure@),
        vars matches Ok(vars) ==> {
            &&& forall|asked: TransientUnit|
                call_ensures(
                    supervisor::start_transient,
                    (&run.connection, proxy_bin, &vars),
                    Ok(asked),
                ) ==> next.state@ == TargetStateView::Waiting(StageView::StartUnit { unit: asked@ })
            &&& model::unit_name_of(run.connection.id@) is Ok ==> (next.state@ matches
                TargetStateView::Waiting(StageView::StartUnit { unit }) && unit.program
                == proxy_bin@)
            &&& model::unit_name_of(run.connection.id@) is Err ==> next.state@ is Settled
        },
{
}

/// Once systemd has accepted a start, the Connection is looked at until it
/// runs, for as many milliseconds as the run has patience.
pub proof fn accepted_starts_are_waited_for(
    run: TargetRun,
    now: u64,
    next: TargetRun,
    unit: TransientUnitView,
)
    requires
        steps(run, Event::UnitStarted(Ok(())), now, next),
        run.state@ == TargetStateView::Waiting(StageView::StartUnit { unit }),
    ensures
        next.state@ == TargetStateView::Waiting(
            StageView::StartPoll { deadline: now + run.wait_ms * 1_000_000 },
        ),
{
}

/// A start is over where the Connection runs as our unit, has failed where the
/// Connection reports an error, with that error, and has timed out from the
/// deadline on. Until then it is looked at again, a fifth of a second later or
/// at the deadline.
pub proof fn starts_wait_until_the_connection_runs(
    run: TargetRun,
    row: StatusRow,
    now: u64,
    next: TargetRun,
    deadline: int,
)
    requires
        steps(run, Event::Observed(Ok(row)), now, next),
        run.state@ == TargetStateView::Waiting(StageView::StartPoll { deadline }),
    ensures
        ({
            let ours = row.state == HealthState::Running && row.source == Source::Unit;
            &&& ours ==> next.state@ == TargetStateView::Settled(TargetResultView::Succeeded)
            &&& !ours && row.error is Some ==> next.state@ == TargetStateView::Settled(
                TargetResultView::Failed {
                    code: row.error->0.code,
                    message: row.error->0.detail@,
                },
            )
            &&& !ours && row.error is None && now >= deadline ==> next.state@
                == TargetStateView::Settled(
                TargetResultView::Failed {
                    code: ErrorCode::StartTimeout,
                    message: "connection `"@ + run.connection.id@ + "` did not confirm within "@
                        + text::digits(run.wait_ms as nat) + "ms"@,
                },
            )
            &&& !ours && row.error is None && now < deadline ==> next.state@
                == TargetStateView::Waiting(
                StageView::StartPause {
                    deadline,
                    nanos: if deadline - now < 200_000_000 {
                        deadline - now
                    } else {
                        200_000_000
                    },
                },
            )
        }),
{
}

/// A look for failed Connections finds out exactly whether the Connection is in
/// error.
pub proof fn looks_find_errors(run: TargetRun, row: StatusRow, now: u64, next: TargetRun)
    requires
        steps(run, Event::Observed(Ok(row)), now, next),
        run.state@ == TargetStateView::Waiting(StageView::Gather),
    ensures
        next.state@ is Gathered,
        next.state@ == (TargetStateView::Gathered { failed: true }) <==> row.state
            == HealthState::Error,
{
}

/// One poll of a wait, whatever it waits for: done, else the row's own error,
/// else out of time, else not yet.
pub proof fn polls_decide_in_order(
    row: &StatusRow,
    done: bool,
    remaining: u128,
    wait_ms: u64,
    id: &str,
    timeout_code: ErrorCode,
    result: Option<TargetResult>,
)
    requires
        call_ensures(wait_step, (row, done, remaining, wait_ms, id, timeout_code), result),
    ensures
        done ==> result == Some(TargetResult::Succeeded),
        result == Some(TargetResult::Succeeded) ==> done,
        !done && row.error is Some ==> (result matches Some(
            TargetResult::Failed { code, message },
        ) && code == row.error->0.code && message@ == row.error->0.detail@),
        !done && row.error is None && remaining == 0 ==> (result matches Some(
            TargetResult::Failed { code, .. },
        ) && code == timeout_code),
        !done && row.error is None ==> (result is None <==> remaining > 0),
{
}

/// What a hint adds to a message stands in brackets behind it.
pub proof fn hints_stand_behind_messages(detail: &str, hint: Option<&str>, message: String)
    requires
        call_ensures(check_message, (detail, hint), message),
    ensures
        hint is None ==> message@ == detail@,
        hint matches Some(hint) ==> message@ == detail@ + " ("@ + hint@ + ")"@,
{
}

/// Only a unit that is gone can be started afresh, and only a stop that
/// succeeded is followed by a start.
pub proof fn starts_follow_complete_stops(
    snapshot: &UnitSnapshot,
    gone: bool,
    result: &TargetResult,
    succeeded: bool,
)
    requires
        call_ensures(unit_safely_recreatable, (snapshot,), gone),
        call_ensures(stop_succeeded, (result,), succeeded),
    ensures
        gone <==> *snapshot is Absent,
        succeeded <==> *result is Succeeded,
{
}

// ---------------------------------------------------------------------------
// Laws of batches.
// ---------------------------------------------------------------------------

/// Whether a batch holds one run for each Connection, in their order, with the
/// Connection itself, the configured binary and the given patience.
pub open spec fn holds_runs_for(
    batch: Batch,
    targets: Seq<&Connection>,
    config: &Config,
    wait_ms: u64,
) -> bool {
    &&& batch.runs@.len() == targets.len()
    &&& forall|i: int|
        0 <= i < targets.len() ==> {
            &&& (#[trigger] batch.runs@[i]).connection@ == targets[i]@
            &&& batch.runs@[i].proxy_bin@ == config.proxy_bin@
            &&& batch.runs@[i].wait_ms == wait_ms
        }
}

/// What a start or restart comes to for a disabled Connection: a refusal where
/// it was named by its id, a skip where it was not.
pub open spec fn left_out(selector: Selector) -> TargetStateView {
    match selector {
        Selector::Id(_) => TargetStateView::Settled(TargetResultView::RefusedDisabled),
        Selector::All => TargetStateView::Settled(TargetResultView::SkippedDisabled),
        Selector::Group(_) => TargetStateView::Settled(TargetResultView::SkippedDisabled),
    }
}

/// A start looks first at every enabled Connection that its selector names, and
/// leaves the disabled ones out.
pub proof fn starts_begin_with_a_look(
    config: &Config,
    selector: &Selector,
    wait_ms: u64,
    chosen: Result<Vec<&Connection>, SelectError>,
    result: Result<Batch, SelectError>,
)
    requires
        call_ensures(select::expand, (config, selector), chosen),
        call_ensures(start, (config, selector, wait_ms), result),
    ensures
        chosen matches Err(error) ==> result == Err::<Batch, SelectError>(error),
        chosen matches Ok(targets) ==> (result matches Ok(batch) && {
            &&& holds_runs_for(batch, targets@, config, wait_ms)
            &&& forall|i: int|
                0 <= i < targets@.len() ==> (#[trigger] batch.runs@[i]).state@
                    == if targets@[i].enabled {
                    TargetStateView::Waiting(StageView::CheckBeforeStart)
                } else {
                    left_out(*selector)
                }
        }),
{
    if chosen is Ok {
        let targets = select::targets(chosen->Ok_0@);
        assert forall|i: int| 0 <= i < targets.len() implies #[trigger] targets[i]
            == *chosen->Ok_0@[i] by {}
        let batch = result->Ok_0;
        assert forall|i: int| 0 <= i < targets.len() implies begins(
            #[trigger] batch.runs@[i],
            Operation::Start,
            chosen->Ok_0@[i]@,
            config.proxy_bin@,
            wait_ms,
            *selector is Id,
        ) by {
            assert(targets[i] == *chosen->Ok_0@[i]);
        }
    }
}

/// A stop looks first at every Connection that its selector names, disabled
/// ones among them.
pub proof fn stops_begin_with_a_look(
    config: &Config,
    selector: &Selector,
    wait_ms: u64,
    chosen: Result<Vec<&Connection>, SelectError>,
    result: Result<Batch, SelectError>,
)
    requires
        call_ensures(select::expand, (config, selector), chosen),
        call_ensures(stop, (config, selector, wait_ms), result),
    ensures
        chosen matches Err(error) ==> result == Err::<Batch, SelectError>(error),
        chosen matches Ok(targets) ==> (result matches Ok(batch) && {
            &&& holds_runs_for(batch, targets@, config, wait_ms)
            &&& forall|i: int|
                0 <= i < targets@.len() ==> (#[trigger] batch.runs@[i]).state@
                    == TargetStateView::Waiting(StageView::CheckBeforeStop)
        }),
{
    if chosen is Ok {
        let targets = select::targets(chosen->Ok_0@);
        let batch = result->Ok_0;
        assert forall|i: int| 0 <= i < targets.len() implies begins(
            #[trigger] batch.runs@[i],
            Operation::Stop,
            chosen->Ok_0@[i]@,
            config.proxy_bin@,
            wait_ms,
            *selector is Id,
        ) by {
            assert(targets[i] == *chosen->Ok_0@[i]);
        }
    }
}

/// A restart asks first for the stop of the own unit of every enabled
/// Connection that its selector names; a restart of failed ones looks at them
/// first. Disabled ones are left out.
pub proof fn restarts_begin_with_a_stop_or_a_look(
    config: &Config,
    selector: &Selector,
    wait_ms: u64,
    failed_only: bool,
    chosen: Result<Vec<&Connection>, SelectError>,
    result: Result<Batch, SelectError>,
)
    requires
        call_ensures(select::expand, (config, selector), chosen),
        call_ensures(restart, (config, selector, wait_ms, failed_only), result),
    ensures
        chosen matches Err(error) ==> result == Err::<Batch, SelectError>(error),
        chosen matches Ok(targets) ==> (result matches Ok(batch) && {
            &&& holds_runs_for(batch, targets@, config, wait_ms)
            &&& forall|i: int|
                0 <= i < targets@.len() && !targets@[i].enabled ==> (
                #[trigger] batch.runs@[i]).state@ == left_out(*selector)
            &&& forall|i: int|
                0 <= i < targets@.len() && targets@[i].enabled && failed_only ==> (
                #[trigger] batch.runs@[i]).state@ == TargetStateView::Waiting(StageView::Gather)
            &&& forall|i: int|
                0 <= i < targets@.len() && targets@[i].enabled && !failed_only ==> asks_for_stop(
                    (#[trigger] batch.runs@[i]).state@,
                    targets@[i].id@,
                )
        }),
{
    if chosen is Ok {
        let targets = select::targets(chosen->Ok_0@);
        let batch = result->Ok_0;
        assert forall|i: int| 0 <= i < targets.len() implies begins(
            #[trigger] batch.runs@[i],
            if failed_only {
                Operation::RestartFailed
            } else {
                Operation::Restart
            },
            chosen->Ok_0@[i]@,
            config.proxy_bin@,
            wait_ms,
            *selector is Id,
        ) by {
            assert(targets[i] == *chosen->Ok_0@[i]);
        }
    }
}

/// Whether a state asks for the stop of an id's own unit, to start it again
/// afterwards; an id without a unit name has failed.
pub open spec fn asks_for_stop(state: TargetStateView, id: Seq<char>) -> bool {
    match model::unit_name_of(id) {
        Ok(unit) => state == TargetStateView::Waiting(
            StageView::StopUnit { unit, then_start: true },
        ),
        Err(_) => state matches TargetStateView::Settled(TargetResultView::Failed { code, .. })
            && code == ErrorCode::Config,
    }
}

/// Of Connections with different ids, a restart of the failed ones asks for the
/// stop of exactly those that were in error, leaves those alone that were seen
/// and were not, and changes nothing of the others.
pub proof fn failed_connections_only_are_restarted(batch: Batch, next: Batch, i: int)
    requires
        call_ensures(Batch::restart_failed_only, (batch,), next),
        0 <= i < batch.runs@.len(),
        forall|a: int, b: int|
            0 <= a < b < batch.runs@.len() ==> (#[trigger] batch.runs@[a]).connection.id@ != (
            #[trigger] batch.runs@[b]).connection.id@,
    ensures
        next.runs@.len() == batch.runs@.len(),
        next.runs@[i].connection@ == batch.runs@[i].connection@,
        next.runs@[i].proxy_bin@ == batch.runs@[i].proxy_bin@,
        next.runs@[i].wait_ms == batch.runs@[i].wait_ms,
        match batch.runs@[i].state@ {
            TargetStateView::Gathered { failed } => if failed {
                asks_for_stop(next.runs@[i].state@, batch.runs@[i].connection.id@)
            } else {
                next.runs@[i].state@ == TargetStateView::LeftAlone
            },
            state => next.runs@[i].state@ == state,
        },
{
    if batch.runs@[i].state@ is Gathered {
        only_failed_connections_are_restarted(
            batch.runs@,
            i,
            batch.runs@[i].state@->failed,
        );
    }
    assert(next.runs@[i].state@ == failed_restarted(batch.runs@, batch.runs@[i]));
}

/// Whether a run has a result.
pub open spec fn has_settled() -> spec_fn(TargetRun) -> bool {
    |run: TargetRun| run.state is Settled
}

proof fn outcomes_stand_in_their_order(runs: Seq<TargetRun>)
    ensures
        settled(runs).len() == runs.filter(has_settled()).len(),
        forall|i: int|
            0 <= i < runs.len() && (#[trigger] runs[i]).state is Settled ==> {
                let rank = runs.take(i).filter(has_settled()).len() as int;
                &&& rank < settled(runs).len()
                &&& settled(runs)[rank].id == runs[i].connection.id@
                &&& TargetStateView::Settled(settled(runs)[rank].result) == runs[i].state@
            },
    decreases runs.len(),
{
    if runs.len() == 0 {
        runs.lemma_filter_len(has_settled());
    } else {
        let front = runs.drop_last();
        outcomes_stand_in_their_order(front);
        assert(front.push(runs.last()) =~= runs);
        front.lemma_filter_push(runs.last(), has_settled());
        assert forall|i: int|
            0 <= i < runs.len() && (#[trigger] runs[i]).state is Settled implies ({
            let rank = runs.take(i).filter(has_settled()).len() as int;
            &&& rank < settled(runs).len()
            &&& settled(runs)[rank].id == runs[i].connection.id@
            &&& TargetStateView::Settled(settled(runs)[rank].result) == runs[i].state@
        }) by {
            if i < front.len() {
                assert(front[i] == runs[i]);
                assert(front.take(i) =~= runs.take(i));
            } else {
                assert(runs.take(i) =~= front);
                assert(runs[i] == runs.last());
            }
        }
    }
}

/// An outcome holds one entry for each run that has a result, and none for any
/// other, in the order of the runs, with the Connection's id and that result.
pub proof fn outcomes_hold_every_result(batch: &Batch, outcome: BatchOutcome)
    requires
        call_ensures(Batch::outcome, (batch,), outcome),
    ensures
        outcome.targets@.len() == batch.runs@.filter(has_settled()).len(),
        forall|i: int|
            0 <= i < batch.runs@.len() && (#[trigger] batch.runs@[i]).state is Settled ==> {
                let rank = batch.runs@.take(i).filter(has_settled()).len() as int;
                &&& rank < outcome.targets@.len()
                &&& outcome.targets@[rank].id@ == batch.runs@[i].connection.id@
                &&& TargetStateView::Settled(outcome.targets@[rank].result@)
                    == batch.runs@[i].state@
            },
{
    let views = outcome_views(outcome.targets@);
    assert(views == settled(batch.runs@));
    assert(views.len() == outcome.targets@.len());
    outcomes_stand_in_their_order(batch.runs@);
    assert forall|i: int|
        0 <= i < batch.runs@.len() && (#[trigger] batch.runs@[i]).state is Settled implies ({
        let rank = batch.runs@.take(i).filter(has_settled()).len() as int;
        &&& rank < outcome.targets@.len()
        &&& outcome.targets@[rank].id@ == batch.runs@[i].connection.id@
        &&& TargetStateView::Settled(outcome.targets@[rank].result@) == batch.runs@[i].state@
    }) by {
        let rank = batch.runs@.take(i).filter(has_settled()).len() as int;
        assert(views[rank] == outcome.targets@[rank]@);
    }
}

/// The next run to be served is the first that waits, and there is none exactly
/// where no run waits.
pub proof fn the_first_waiting_run_is_next(batch: &Batch, index: Option<usize>)
    requires
        call_ensures(Batch::next_waiting, (batch,), index),
    ensures
        index is None <==> forall|i: int|
            0 <= i < batch.runs@.len() ==> !((#[trigger] batch.runs@[i]).state is Waiting),
        index matches Some(index) ==> index < batch.runs@.len()
            && batch.runs@[index as int].state is Waiting && forall|i: int|
            0 <= i < index ==> !((#[trigger] batch.runs@[i]).state is Waiting),
{
}

proof fn counts_are_those_of_filters(targets: Seq<TargetOutcome>, kind: ResultKind)
    ensures
        count(targets, kind) == targets.filter(
            |target: TargetOutcome| kind_of(target.result) == kind,
        ).len(),
    decreases targets.len(),
{
    let keep = |target: TargetOutcome| kind_of(target.result) == kind;
    if targets.len() > 0 {
        let front = targets.drop_last();
        counts_are_those_of_filters(front, kind);
        assert(front.push(targets.last()) =~= targets);
        front.lemma_filter_push(targets.last(), keep);
    } else {
        targets.lemma_filter_len(keep);
    }
}

/// Results are counted by what they are: successes, skips, failures of single
/// Connections, and failures of the environment.
pub proof fn results_are_counted_by_what_they_are(
    outcome: &BatchOutcome,
    succeeded: usize,
    skipped: usize,
    refused: usize,
    failed: usize,
    dependency: usize,
)
    requires
        call_ensures(BatchOutcome::succeeded_count, (outcome,), succeeded),
        call_ensures(BatchOutcome::skipped_count, (outcome,), skipped),
        call_ensures(BatchOutcome::count_of, (outcome, ResultKind::Refused), refused),
        call_ensures(BatchOutcome::failed_count, (outcome,), failed),
        call_ensures(BatchOutcome::dependency_count, (outcome,), dependency),
    ensures
        succeeded == outcome.targets@.filter(
            |target: TargetOutcome| target.result is Succeeded,
        ).len(),
        skipped == outcome.targets@.filter(
            |target: TargetOutcome| target.result is SkippedDisabled,
        ).len(),
        refused == outcome.targets@.filter(
            |target: TargetOutcome| target.result is RefusedDisabled,
        ).len(),
        failed == outcome.targets@.filter(|target: TargetOutcome| target.result is Failed).len(),
        dependency == outcome.targets@.filter(
            |target: TargetOutcome| target.result is Dependency,
        ).len(),
{
    let targets = outcome.targets@;
    counts_are_those_of_filters(targets, ResultKind::Succeeded);
    counts_are_those_of_filters(targets, ResultKind::Skipped);
    counts_are_those_of_filters(targets, ResultKind::Refused);
    counts_are_those_of_filters(targets, ResultKind::Failed);
    counts_are_those_of_filters(targets, ResultKind::Dependency);
    assert((|target: TargetOutcome| kind_of(target.result) == ResultKind::Succeeded) =~= (|
        target: TargetOutcome,
    | target.result is Succeeded));
    assert((|target: TargetOutcome| kind_of(target.result) == ResultKind::Skipped) =~= (|
        target: TargetOutcome,
    | target.result is SkippedDisabled));
    assert((|target: TargetOutcome| kind_of(target.result) == ResultKind::Refused) =~= (|
        target: TargetOutcome,
    | target.result is RefusedDisabled));
    assert((|target: TargetOutcome| kind_of(target.result) == ResultKind::Failed) =~= (|
        target: TargetOutcome,
    | target.result is Failed));
    assert((|target: TargetOutcome| kind_of(target.result) == ResultKind::Dependency) =~= (|
        target: TargetOutcome,
    | target.result is Dependency));
}

/// An event for one run of a batch is that run's own; every other run stays as
/// it is.
pub proof fn events_reach_one_run(
    batch: &mut Batch,
    index: usize,
    event: Event,
    now: u64,
    next: TargetRun,
)
    requires
        index < old(batch).runs@.len(),
        call_ensures(Batch::advance, (batch, index, event, now), ()),
        steps(old(batch).runs@[index as int], event, now, next),
    ensures
        final(batch).runs@.len() == old(batch).runs@.len(),
        final(batch).runs@[index as int].state@ == next.state@,
        final(batch).runs@[index as int].connection@ == old(batch).runs@[index as int].connection@,
        final(batch).runs@[index as int].proxy_bin@ == old(batch).runs@[index as int].proxy_bin@,
        final(batch).runs@[index as int].wait_ms == old(batch).runs@[index as int].wait_ms,
        forall|i: int|
            0 <= i < old(batch).runs@.len() && i != index ==> #[trigger] final(batch).runs@[i]
                == old(batch).runs@[i],
{
}

/// A start without credentials says what was looked for, and what to do.
pub proof fn missing_credentials_are_explained(
    credentials: &Credentials,
    failure: TargetResult,
    row: model::CheckRow,
)
    requires
        call_ensures(adc_env_or_failure, (credentials,), Err(failure)),
        call_ensures(env::adc_check, (credentials,), row),
    ensures
        row.hint is Some,
        failure@ == (TargetResultView::Failed {
            code: ErrorCode::Auth,
            message: row.detail@ + " ("@ + row.hint->0@ + ")"@,
        }),
{
}

/// What a single start, stop or restart begins with: a stop always with a look;
/// a start with a look, a restart with the stop of its own unit and a restart
/// of failed Connections with a look of its own, unless the Connection is
/// disabled: that is refused where it is the single target, and else skipped.
pub proof fn single_targets_begin_like_any_other(
    connection: &Connection,
    config: &Config,
    wait_ms: u64,
    single_target: bool,
    started: TargetRun,
    stopped: TargetRun,
    restarted: TargetRun,
    gathered: TargetRun,
)
    requires
        call_ensures(start_target, (connection, config, wait_ms, single_target), started),
        call_ensures(stop_target, (connection, config, wait_ms), stopped),
        call_ensures(restart_target, (connection, config, wait_ms, single_target), restarted),
        call_ensures(gather_target, (connection, config, wait_ms, single_target), gathered),
    ensures
        is_run_for(started, connection, config, wait_ms),
        is_run_for(stopped, connection, config, wait_ms),
        is_run_for(restarted, connection, config, wait_ms),
        is_run_for(gathered, connection, config, wait_ms),
        stopped.state@ == TargetStateView::Waiting(StageView::CheckBeforeStop),
        connection.enabled ==> {
            &&& started.state@ == TargetStateView::Waiting(StageView::CheckBeforeStart)
            &&& asks_for_stop(restarted.state@, connection.id@)
            &&& gathered.state@ == TargetStateView::Waiting(StageView::Gather)
        },
        !connection.enabled ==> {
            let result = TargetStateView::Settled(
                if single_target {
                    TargetResultView::RefusedDisabled
                } else {
                    TargetResultView::SkippedDisabled
                },
            );
            started.state@ == result && restarted.state@ == result && gathered.state@ == result
        },
{
    assert(begins(
        stopped,
        Operation::Stop,
        connection@,
        config.proxy_bin@,
        wait_ms,
        false,
    ));
}

/// Whether a run is one for a Connection, with the configured binary and the
/// given patience.
pub open spec fn is_run_for(
    run: TargetRun,
    connection: &Connection,
    config: &Config,
    wait_ms: u64,
) -> bool {
    &&& run.connection@ == connection@
    &&& run.proxy_bin@ == config.proxy_bin@
    &&& run.wait_ms == wait_ms
}

/// The shortcuts of a start and a stop: a start has nothing to do where the
/// Connection runs as our unit and no chance where another process holds its
/// port, a stop has nothing to do where the Connection is stopped.
pub proof fn shortcuts_go_by_the_row(
    row: &StatusRow,
    start_result: Option<TargetResult>,
    stop_result: Option<TargetResult>,
    error_result: Option<TargetResult>,
    runs: bool,
    stopped: bool,
)
    requires
        call_ensures(start_idempotent_or_conflict, (row,), start_result),
        call_ensures(stop_idempotent, (row,), stop_result),
        call_ensures(terminal_error_result, (row,), error_result),
        call_ensures(is_running, (row,), runs),
        call_ensures(is_stopped, (row,), stopped),
    ensures
        runs <==> row.state == HealthState::Running && row.source == Source::Unit,
        stopped <==> row.state == HealthState::Stopped,
        start_result == Some(TargetResult::Succeeded) <==> row.state == HealthState::Running
            && row.source == Source::Unit,
        start_result is Some && start_result != Some(TargetResult::Succeeded) <==> !runs
            && row.error is Some && row.error->0.code == ErrorCode::PortInUse,
        start_result matches Some(TargetResult::Failed { code, message }) ==> code
            == ErrorCode::PortInUse && message@ == row.error->0.detail@,
        stop_result is Some <==> row.state == HealthState::Stopped,
        stop_result matches Some(result) ==> result is Succeeded,
        error_result is Some <==> row.error is Some,
        error_result matches Some(result) ==> (result matches TargetResult::Failed { code, message }
            && code == row.error->0.code && message@ == row.error->0.detail@),
{
}

/// What a failure means for its target: systemd's are failures of the
/// environment where nothing can be operated, any other is the target's own.
pub proof fn failures_are_the_targets_or_the_environments(
    error: &SupervisorError,
    dependency: bool,
    message: String,
    result: TargetResult,
    id: String,
    observed: TargetResult,
)
    requires
        call_ensures(supervisor_result, (error,), result),
        call_ensures(SupervisorError::is_dependency, (error,), dependency),
        call_ensures(SupervisorError::message, (error,), message),
        call_ensures(
            status_command_result,
            (&StatusCommandError::Supervisor { id, source: *error },),
            observed,
        ),
    ensures
        result@ == if dependency {
            TargetResultView::Dependency { message: message@ }
        } else {
            TargetResultView::Failed { code: ErrorCode::Unknown, message: message@ }
        },
        observed@ == result@,
{
}

} // verus!
