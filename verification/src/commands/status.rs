//! The `status` command: observations become Status rows, rows become the
//! Status document.

use vstd::prelude::*;

use crate::clock;
use crate::clock::Timestamp;
use crate::commands::select;
use crate::commands::select::{SelectError, Selector};
use crate::config::Config;
use crate::model;
use crate::model::{
    Connection, ConnectionView, ErrorCode, GroupCounts, GroupEntry, HealthState, PortObservation,
    PortProbe, Source, StatusDocument, StatusError, StatusErrorView, StatusRow, StatusRowView,
    UnitName, UnitNameError,
};
use crate::reconcile;
use crate::reconcile::{FailureSignal, Observation, UnitObservation, UnitState};
use crate::supervisor::{
    ExecOutcome, SupervisorError, UnitActiveState, UnitResult as SupervisorUnitResult, UnitSnapshot,
};
use crate::text;

verus! {

// ---------------------------------------------------------------------------
// Snapshots become observations.
// ---------------------------------------------------------------------------

/// The failure signal of an active state that is not known: a crash, never a
/// clean stop.
pub open spec fn unknown_state_signal() -> FailureSignal {
    FailureSignal { result: reconcile::UnitResult::Signal, exec_main_status: (-1) as i32 }
}

pub fn unknown_active_state_signal() -> (signal: FailureSignal)
    ensures
        signal == unknown_state_signal(),
{
    FailureSignal { result: reconcile::UnitResult::Signal, exec_main_status: -1 }
}

pub open spec fn failure_status(exec_outcome: ExecOutcome) -> i32 {
    match exec_outcome {
        ExecOutcome::NotExited => 0,
        ExecOutcome::ExitCode(status) => status,
        ExecOutcome::Signal(status) => status,
        ExecOutcome::Unknown { status, .. } => status,
    }
}

/// A result that is not known counts as a timeout: never a clean stop.
pub open spec fn failure_result(result: SupervisorUnitResult) -> reconcile::UnitResult {
    match result {
        SupervisorUnitResult::Success => reconcile::UnitResult::Success,
        SupervisorUnitResult::ExitCode => reconcile::UnitResult::ExitCode,
        SupervisorUnitResult::Signal => reconcile::UnitResult::Signal,
        SupervisorUnitResult::Timeout => reconcile::UnitResult::Timeout,
        SupervisorUnitResult::CoreDump => reconcile::UnitResult::CoreDump,
        SupervisorUnitResult::ExecCondition => reconcile::UnitResult::ExecCondition,
        SupervisorUnitResult::Unknown(_) => reconcile::UnitResult::Timeout,
    }
}

pub open spec fn failure_signal_of(
    result: SupervisorUnitResult,
    exec_outcome: ExecOutcome,
) -> FailureSignal {
    FailureSignal {
        result: failure_result(result),
        exec_main_status: failure_status(exec_outcome),
    }
}

pub fn failure_signal(result: &SupervisorUnitResult, exec_outcome: ExecOutcome) -> (signal:
    FailureSignal)
    ensures
        signal == failure_signal_of(*result, exec_outcome),
{
    let exec_main_status: i32 = match exec_outcome {
        ExecOutcome::NotExited => 0,
        ExecOutcome::ExitCode(status) => status,
        ExecOutcome::Signal(status) => status,
        ExecOutcome::Unknown { status, .. } => status,
    };
    let result = match result {
        SupervisorUnitResult::Success => reconcile::UnitResult::Success,
        SupervisorUnitResult::ExitCode => reconcile::UnitResult::ExitCode,
        SupervisorUnitResult::Signal => reconcile::UnitResult::Signal,
        SupervisorUnitResult::Timeout => reconcile::UnitResult::Timeout,
        SupervisorUnitResult::CoreDump => reconcile::UnitResult::CoreDump,
        SupervisorUnitResult::ExecCondition => reconcile::UnitResult::ExecCondition,
        SupervisorUnitResult::Unknown(_) => reconcile::UnitResult::Timeout,
    };
    FailureSignal { result, exec_main_status }
}

pub open spec fn unit_state_of(
    active_state: UnitActiveState,
    result: SupervisorUnitResult,
    exec_outcome: ExecOutcome,
) -> UnitState {
    match active_state {
        UnitActiveState::Inactive => UnitState::Idle,
        UnitActiveState::Activating => UnitState::Activating,
        UnitActiveState::Active => UnitState::Active,
        UnitActiveState::Deactivating => UnitState::Deactivating,
        UnitActiveState::Failed => UnitState::Failed(failure_signal_of(result, exec_outcome)),
        UnitActiveState::Unknown(_) => UnitState::Failed(unknown_state_signal()),
    }
}

pub fn map_active_state(
    active_state: &UnitActiveState,
    result: &SupervisorUnitResult,
    exec_outcome: ExecOutcome,
) -> (state: UnitState)
    ensures
        state == unit_state_of(*active_state, *result, exec_outcome),
{
    match active_state {
        UnitActiveState::Inactive => UnitState::Idle,
        UnitActiveState::Activating => UnitState::Activating,
        UnitActiveState::Active => UnitState::Active,
        UnitActiveState::Deactivating => UnitState::Deactivating,
        UnitActiveState::Failed => UnitState::Failed(failure_signal(result, exec_outcome)),
        UnitActiveState::Unknown(_) => UnitState::Failed(unknown_active_state_signal()),
    }
}

/// The wall-clock start in nanoseconds, from two readings of the monotonic
/// clock; unknown where they run backwards or leave the range of instants.
pub open spec fn start_instant(start_usec: u64, now_usec: u64, now: int) -> Option<int> {
    let start = now - (now_usec - start_usec) * 1_000;
    if now_usec < start_usec || start < clock::earliest() {
        None
    } else {
        Some(start)
    }
}

pub open spec fn instant_view(instant: Option<Timestamp>) -> Option<int> {
    match instant {
        Some(instant) => Some(instant@),
        None => None,
    }
}

/// The wall-clock start of a unit that started at `start_usec` on the
/// monotonic clock, which now shows `now_usec`.
pub fn started_at_from_monotonic(start_usec: u64, now_usec: u64, now: Timestamp) -> (instant:
    Option<Timestamp>)
    ensures
        instant_view(instant) == start_instant(start_usec, now_usec, now@),
{
    if now_usec < start_usec {
        None
    } else {
        now.earlier_by_micros(now_usec - start_usec)
    }
}

/// Whether an observation is what a snapshot says at an instant.
pub open spec fn observed(
    observation: UnitObservation,
    snapshot: UnitSnapshot,
    now: int,
    mono_now_usec: Option<u64>,
) -> bool {
    match snapshot {
        UnitSnapshot::Absent => observation == (UnitObservation {
            state: UnitState::Idle,
            main_pid: None,
            started_at: None,
        }),
        UnitSnapshot::Loaded {
            active_state,
            main_pid,
            result,
            exec_outcome,
            started_at_monotonic_usec,
            ..
        } => {
            &&& observation.state == unit_state_of(active_state, result, exec_outcome)
            &&& observation.main_pid == main_pid
            &&& instant_view(observation.started_at) == match (
                started_at_monotonic_usec,
                mono_now_usec,
            ) {
                (Some(start_usec), Some(now_usec)) => start_instant(start_usec, now_usec, now),
                _ => None,
            }
        },
    }
}

/// What a snapshot says of a unit, in the terms of the truth table.
pub fn map_unit_snapshot(snapshot: &UnitSnapshot, now: Timestamp, mono_now_usec: Option<u64>) -> (
    observation: UnitObservation)
    ensures
        observed(observation, *snapshot, now@, mono_now_usec),
{
    match snapshot {
        UnitSnapshot::Absent => UnitObservation {
            state: UnitState::Idle,
            main_pid: None,
            started_at: None,
        },
        UnitSnapshot::Loaded {
            active_state,
            main_pid,
            result,
            exec_outcome,
            started_at_monotonic_usec,
            ..
        } => {
            let started_at = match (started_at_monotonic_usec, mono_now_usec) {
                (Some(start_usec), Some(now_usec)) => started_at_from_monotonic(
                    *start_usec,
                    now_usec,
                    now,
                ),
                _ => None,
            };
            UnitObservation {
                state: map_active_state(active_state, result, *exec_outcome),
                main_pid: *main_pid,
                started_at,
            }
        },
    }
}

/// An active state that is not known never looks healthy.
pub proof fn unknown_active_states_are_errors(
    raw: String,
    result: SupervisorUnitResult,
    exec_outcome: ExecOutcome,
    unit: UnitObservation,
    identity: ConnectionView,
    port: PortObservation,
    now: int,
)
    requires
        unit.state == unit_state_of(UnitActiveState::Unknown(raw), result, exec_outcome),
    ensures
        reconcile::reconciled(identity, unit, port, now).state == HealthState::Error,
{
}

/// A failed unit whose result is not known is an error, never a clean stop.
pub proof fn unknown_results_are_errors(
    raw: String,
    exec_outcome: ExecOutcome,
    unit: UnitObservation,
    identity: ConnectionView,
    port: PortObservation,
    now: int,
)
    requires
        unit.state == unit_state_of(
            UnitActiveState::Failed,
            SupervisorUnitResult::Unknown(raw),
            exec_outcome,
        ),
    ensures
        reconcile::reconciled(identity, unit, port, now).state == HealthState::Error,
{
}

// ---------------------------------------------------------------------------
// One Connection.
// ---------------------------------------------------------------------------

/// Why `status` could not produce a document.
#[allow(inconsistent_fields)]
#[derive(Debug, PartialEq, Eq)]
pub enum StatusCommandError {
    Select(SelectError),
    UnitName { id: String, source: UnitNameError },
    Supervisor { id: String, source: SupervisorError },
}

impl StatusCommandError {
    pub open spec fn text(self) -> Seq<char> {
        match self {
            StatusCommandError::Select(error) => error.text(),
            StatusCommandError::UnitName { id, source } => "connection `"@ + id@ + "`: "@
                + source.text(),
            StatusCommandError::Supervisor { id, source } => "connection `"@ + id@ + "`: "@
                + source.text(),
        }
    }

    /// The error in words.
    pub fn message(&self) -> (message: String)
        ensures
            message@ == self.text(),
    {
        match self {
            StatusCommandError::Select(error) => error.message(),
            StatusCommandError::UnitName { id, source } => {
                let mut message = "connection `".to_owned();
                message.append(id.as_str());
                message.append("`: ");
                message.append(source.message().as_str());
                message
            },
            StatusCommandError::Supervisor { id, source } => {
                let mut message = "connection `".to_owned();
                message.append(id.as_str());
                message.append("`: ");
                message.append(source.message().as_str());
                message
            },
        }
    }
}

/// What was found when a Connection was looked at.
#[derive(Debug)]
pub enum Probe {
    /// The configured address is no IP address.
    InvalidAddress { detail: String },
    /// The unit could not be read.
    SupervisorFailed(SupervisorError),
    /// The unit and the port were read.
    Seen { snapshot: UnitSnapshot, port: PortObservation },
}

/// The row of a Connection whose address is no IP address: an error of the
/// config, found without looking at its unit.
pub open spec fn invalid_address_view(
    connection: ConnectionView,
    unit: Seq<char>,
    detail: Seq<char>,
) -> StatusRowView {
    StatusRowView {
        id: connection.id,
        name: connection.name,
        group: connection.group,
        instance: connection.instance,
        address: connection.address,
        port: connection.port,
        private_ip: connection.private_ip,
        enabled: connection.enabled,
        state: HealthState::Error,
        source: Source::NoUnit,
        pid: None,
        unit: Some(unit),
        port_open: false,
        uptime_sec: None,
        error: Some(
            StatusErrorView {
                code: ErrorCode::Config,
                detail: "connection `"@ + connection.id + "` has an invalid address `"@
                    + connection.address + "`: "@ + detail,
            },
        ),
    }
}

fn invalid_address_row(connection: &Connection, unit: UnitName, detail: &str) -> (row: StatusRow)
    ensures
        row@ == invalid_address_view(connection@, unit@, detail@),
{
    let mut text = "connection `".to_owned();
    text.append(connection.id.as_str());
    text.append("` has an invalid address `");
    text.append(connection.address.as_str());
    text.append("`: ");
    text.append(detail);
    StatusRow {
        id: connection.id.clone(),
        name: connection.name.clone(),
        group: connection.group.clone(),
        instance: connection.instance.clone(),
        address: connection.address.clone(),
        port: connection.port,
        private_ip: connection.private_ip,
        enabled: connection.enabled,
        state: HealthState::Error,
        source: Source::NoUnit,
        pid: None,
        unit: Some(unit),
        port_open: false,
        uptime_sec: None,
        error: Some(StatusError { code: ErrorCode::Config, detail: text }),
    }
}

/// Whether a result is what a Connection and its probe come to: an id without
/// a unit name comes first, then the address, then the supervisor, then the
/// truth table.
pub open spec fn row_result(
    result: Result<StatusRow, StatusCommandError>,
    connection: Connection,
    probe: Probe,
    now: int,
    mono_now_usec: Option<u64>,
) -> bool {
    match model::unit_name_of(connection.id@) {
        Err(source) => result == Err::<StatusRow, StatusCommandError>(
            StatusCommandError::UnitName { id: connection.id, source },
        ),
        Ok(unit) => match probe {
            Probe::InvalidAddress { detail } => result matches Ok(row) && row@
                == invalid_address_view(connection@, unit, detail@),
            Probe::SupervisorFailed(source) => result == Err::<StatusRow, StatusCommandError>(
                StatusCommandError::Supervisor { id: connection.id, source },
            ),
            Probe::Seen { snapshot, port } => result matches Ok(row) && exists|
                unit: UnitObservation,
            |
                #[trigger] observed(unit, snapshot, now, mono_now_usec) && row@
                    == reconcile::reconciled(connection@, unit, port, now),
        },
    }
}

/// One Connection's Status row, from what was found when it was looked at.
pub fn observe_and_reconcile(
    connection: &Connection,
    probe: Probe,
    now: Timestamp,
    mono_now_usec: Option<u64>,
) -> (result: Result<StatusRow, StatusCommandError>)
    ensures
        row_result(result, *connection, probe, now@, mono_now_usec),
{
    let unit = match model::unit_name(connection.id.as_str()) {
        Ok(unit) => unit,
        Err(source) => return Err(
            StatusCommandError::UnitName { id: connection.id.clone(), source },
        ),
    };
    match probe {
        Probe::InvalidAddress { detail } => Ok(
            invalid_address_row(connection, unit, detail.as_str()),
        ),
        Probe::SupervisorFailed(source) => Err(
            StatusCommandError::Supervisor { id: connection.id.clone(), source },
        ),
        Probe::Seen { snapshot, port } => {
            let observation = Observation {
                unit: map_unit_snapshot(&snapshot, now, mono_now_usec),
                port,
            };
            Ok(reconcile::reconcile(connection, &observation, now))
        },
    }
}

// ---------------------------------------------------------------------------
// The document.
// ---------------------------------------------------------------------------

/// How many rows are in a state.
pub open spec fn count(rows: Seq<StatusRow>, state: HealthState) -> nat
    decreases rows.len(),
{
    if rows.len() == 0 {
        0
    } else {
        count(rows.drop_last(), state) + if rows.last().state == state {
            1nat
        } else {
            0
        }
    }
}

/// Whether counters are those of a list of rows.
pub open spec fn tallies(counts: GroupCounts, rows: Seq<StatusRow>) -> bool {
    &&& counts.running == count(rows, HealthState::Running)
    &&& counts.starting == count(rows, HealthState::Starting)
    &&& counts.error == count(rows, HealthState::Error)
    &&& counts.stopped == count(rows, HealthState::Stopped)
    &&& counts.total == rows.len()
}

pub open spec fn belongs_to(group: Seq<char>) -> spec_fn(StatusRow) -> bool {
    |row: StatusRow| row.group@ == group
}

/// The rows of a group, in their order.
pub open spec fn group_rows(rows: Seq<StatusRow>, group: Seq<char>) -> Seq<StatusRow> {
    rows.filter(belongs_to(group))
}

/// Whether group entries are those of a list of rows: one for each group that
/// occurs, in ascending order of names, each with its group's counters.
pub open spec fn grouped(groups: Seq<GroupEntry>, rows: Seq<StatusRow>) -> bool {
    &&& forall|a: int, b: int|
        0 <= a < b < groups.len() ==> text::precedes(
            (#[trigger] groups[a]).name@,
            (#[trigger] groups[b]).name@,
        )
    &&& forall|r: int| 0 <= r < rows.len() ==> has_group(groups, (#[trigger] rows[r]).group@)
    &&& forall|a: int|
        0 <= a < groups.len() ==> group_rows(rows, (#[trigger] groups[a]).name@).len() > 0
            && tallies(groups[a].counts, group_rows(rows, groups[a].name@))
}

pub open spec fn has_group(groups: Seq<GroupEntry>, name: Seq<char>) -> bool {
    exists|a: int| 0 <= a < groups.len() && (#[trigger] groups[a]).name@ == name
}

/// Whether a document is the one of a list of rows at an instant.
pub open spec fn documents(
    document: StatusDocument,
    rows: Seq<StatusRow>,
    now: int,
    cli_version: Seq<char>,
) -> bool {
    &&& document.version == 1
    &&& document.ts@ == clock::rfc3339(now)
    &&& document.cli_version@ == cli_version
    &&& document.connections@ == rows
    &&& document.running == count(rows, HealthState::Running)
    &&& document.starting == count(rows, HealthState::Starting)
    &&& document.error == count(rows, HealthState::Error)
    &&& document.stopped == count(rows, HealthState::Stopped)
    &&& document.total == rows.len()
    &&& grouped(document.groups@, rows)
}

proof fn counts_are_bounded(rows: Seq<StatusRow>)
    ensures
        count(rows, HealthState::Running) + count(rows, HealthState::Starting) + count(
            rows,
            HealthState::Error,
        ) + count(rows, HealthState::Stopped) == rows.len(),
    decreases rows.len(),
{
    if rows.len() > 0 {
        counts_are_bounded(rows.drop_last());
    }
}

proof fn counts_of_one_more(rows: Seq<StatusRow>, row: StatusRow, state: HealthState)
    ensures
        count(rows.push(row), state) == count(rows, state) + if row.state == state {
            1nat
        } else {
            0
        },
{
    assert(rows.push(row).drop_last() =~= rows);
}

/// Whether new counters are the old ones with one more Connection in a state.
pub open spec fn tallied(before: GroupCounts, after: GroupCounts, state: HealthState) -> bool {
    &&& after.running == before.running + if state == HealthState::Running {
        1int
    } else {
        0
    }
    &&& after.starting == before.starting + if state == HealthState::Starting {
        1int
    } else {
        0
    }
    &&& after.error == before.error + if state == HealthState::Error {
        1int
    } else {
        0
    }
    &&& after.stopped == before.stopped + if state == HealthState::Stopped {
        1int
    } else {
        0
    }
    &&& after.total == before.total + 1
}

/// Counts one Connection in a state.
pub fn tally(counts: &mut GroupCounts, state: HealthState)
    requires
        old(counts).total < u32::MAX,
        state == HealthState::Running ==> old(counts).running < u32::MAX,
        state == HealthState::Starting ==> old(counts).starting < u32::MAX,
        state == HealthState::Error ==> old(counts).error < u32::MAX,
        state == HealthState::Stopped ==> old(counts).stopped < u32::MAX,
    ensures
        tallied(*old(counts), *final(counts), state),
{
    match state {
        HealthState::Running => counts.running += 1,
        HealthState::Starting => counts.starting += 1,
        HealthState::Error => counts.error += 1,
        HealthState::Stopped => counts.stopped += 1,
    }
    counts.total += 1;
}

proof fn tallies_of_one_more(
    before: GroupCounts,
    after: GroupCounts,
    rows: Seq<StatusRow>,
    row: StatusRow,
)
    requires
        tallies(before, rows),
        tallied(before, after, row.state),
    ensures
        tallies(after, rows.push(row)),
{
    counts_of_one_more(rows, row, HealthState::Running);
    counts_of_one_more(rows, row, HealthState::Starting);
    counts_of_one_more(rows, row, HealthState::Error);
    counts_of_one_more(rows, row, HealthState::Stopped);
}

proof fn group_rows_of_one_more(rows: Seq<StatusRow>, row: StatusRow, group: Seq<char>)
    ensures
        group_rows(rows.push(row), group) == if row.group@ == group {
            group_rows(rows, group).push(row)
        } else {
            group_rows(rows, group)
        },
{
    rows.lemma_filter_push(row, belongs_to(group));
}

proof fn absent_groups_have_no_rows(groups: Seq<GroupEntry>, rows: Seq<StatusRow>, group: Seq<char>)
    requires
        grouped(groups, rows),
        !has_group(groups, group),
    ensures
        group_rows(rows, group).len() == 0,
{
    broadcast use vstd::seq_lib::group_filter_ensures;

    let keep = belongs_to(group);
    if rows.filter(keep).len() > 0 {
        let first = rows.filter(keep)[0];
        assert(keep(first));
        rows.lemma_filter_contains_rev(keep, first);
        let r = choose|r: int| 0 <= r < rows.len() && rows[r] == first;
        assert(has_group(groups, rows[r].group@));
    }
}

/// Counting a row in the group that it belongs to.
proof fn known_group_grows(
    before: Seq<GroupEntry>,
    after: Seq<GroupEntry>,
    rows: Seq<StatusRow>,
    row: StatusRow,
    k: int,
)
    requires
        grouped(before, rows),
        0 <= k < before.len(),
        before[k].name@ == row.group@,
        after.len() == before.len(),
        forall|a: int| 0 <= a < before.len() && a != k ==> #[trigger] after[a] == before[a],
        after[k].name@ == before[k].name@,
        tallied(before[k].counts, after[k].counts, row.state),
    ensures
        grouped(after, rows.push(row)),
{
    let more = rows.push(row);
    assert forall|a: int, b: int| 0 <= a < b < after.len() implies text::precedes(
        (#[trigger] after[a]).name@,
        (#[trigger] after[b]).name@,
    ) by {
        assert(text::precedes(before[a].name@, before[b].name@));
        assert(after[a].name@ == before[a].name@ && after[b].name@ == before[b].name@);
    }
    assert forall|r: int| 0 <= r < more.len() implies has_group(
        after,
        (#[trigger] more[r]).group@,
    ) by {
        if r < rows.len() {
            assert(has_group(before, rows[r].group@));
            let a = choose|a: int|
                0 <= a < before.len() && (#[trigger] before[a]).name@ == rows[r].group@;
            assert(after[a].name@ == rows[r].group@);
        } else {
            assert(after[k].name@ == row.group@);
        }
    }
    assert forall|a: int| 0 <= a < after.len() implies group_rows(
        more,
        (#[trigger] after[a]).name@,
    ).len() > 0 && tallies(after[a].counts, group_rows(more, after[a].name@)) by {
        group_rows_of_one_more(rows, row, after[a].name@);
        assert(tallies(before[a].counts, group_rows(rows, before[a].name@)));
        if a == k {
            tallies_of_one_more(
                before[k].counts,
                after[k].counts,
                group_rows(rows, before[k].name@),
                row,
            );
        } else {
            assert(after[a] == before[a]);
            if a < k {
                assert(text::precedes(before[a].name@, before[k].name@));
            } else {
                assert(text::precedes(before[k].name@, before[a].name@));
            }
            text::order_is_irreflexive(before[k].name@);
        }
    }
}

/// Counting the first row of a group.
proof fn new_group_is_added(
    before: Seq<GroupEntry>,
    entry: GroupEntry,
    rows: Seq<StatusRow>,
    row: StatusRow,
    k: int,
)
    requires
        grouped(before, rows),
        0 <= k <= before.len(),
        forall|a: int|
            0 <= a < k ==> text::precedes((#[trigger] before[a]).name@, row.group@),
        k < before.len() ==> !text::precedes(before[k].name@, row.group@) && before[k].name@
            != row.group@,
        entry.name@ == row.group@,
        tallied(
            GroupCounts { running: 0, starting: 0, error: 0, stopped: 0, total: 0 },
            entry.counts,
            row.state,
        ),
    ensures
        grouped(before.insert(k, entry), rows.push(row)),
{
    let after = before.insert(k, entry);
    let more = rows.push(row);
    let group = row.group@;
    assert forall|a: int| k <= a < before.len() implies text::precedes(
        group,
        (#[trigger] before[a]).name@,
    ) by {
        text::order_is_total(before[k].name@, group);
        if a > k {
            assert(text::precedes(before[k].name@, before[a].name@));
            text::order_is_transitive(group, before[k].name@, before[a].name@);
        }
    }
    text::order_is_irreflexive(group);
    assert(!has_group(before, group)) by {
        assert forall|a: int| 0 <= a < before.len() implies (#[trigger] before[a]).name@
            != group by {
            if a < k {
                assert(text::precedes(before[a].name@, group));
            } else {
                assert(text::precedes(group, before[a].name@));
            }
        }
    }
    absent_groups_have_no_rows(before, rows, group);
    assert forall|a: int, b: int| 0 <= a < b < after.len() implies text::precedes(
        (#[trigger] after[a]).name@,
        (#[trigger] after[b]).name@,
    ) by {
        let old_a = if a < k {
            a
        } else {
            a - 1
        };
        let old_b = if b < k {
            b
        } else {
            b - 1
        };
        if a != k && b != k {
            assert(text::precedes(before[old_a].name@, before[old_b].name@));
        } else if a == k {
            assert(text::precedes(group, before[old_b].name@));
        } else {
            assert(text::precedes(before[old_a].name@, group));
        }
    }
    assert forall|r: int| 0 <= r < more.len() implies has_group(
        after,
        (#[trigger] more[r]).group@,
    ) by {
        if r < rows.len() {
            assert(has_group(before, rows[r].group@));
            let a = choose|a: int|
                0 <= a < before.len() && (#[trigger] before[a]).name@ == rows[r].group@;
            if a < k {
                assert(after[a] == before[a]);
            } else {
                assert(after[a + 1] == before[a]);
            }
        } else {
            assert(after[k] == entry);
        }
    }
    assert forall|a: int| 0 <= a < after.len() implies group_rows(
        more,
        (#[trigger] after[a]).name@,
    ).len() > 0 && tallies(after[a].counts, group_rows(more, after[a].name@)) by {
        group_rows_of_one_more(rows, row, after[a].name@);
        if a == k {
            assert(after[k] == entry);
            let none = group_rows(rows, group);
            assert(none =~= Seq::empty());
            tallies_of_one_more(
                GroupCounts { running: 0, starting: 0, error: 0, stopped: 0, total: 0 },
                entry.counts,
                none,
                row,
            );
        } else {
            let old_a = if a < k {
                a
            } else {
                a - 1
            };
            assert(after[a] == before[old_a]);
            assert(tallies(before[old_a].counts, group_rows(rows, before[old_a].name@)));
        }
    }
}

/// The Status document of reconciled rows.
pub fn assemble_document(rows: Vec<StatusRow>, now: Timestamp, cli_version: String) -> (document:
    StatusDocument)
    requires
        rows@.len() <= u32::MAX,
    ensures
        documents(document, rows@, now@, cli_version@),
{
    let mut groups: Vec<GroupEntry> = Vec::new();
    let mut totals = GroupCounts::default();
    let mut i: usize = 0;
    assert(rows@.take(0) =~= Seq::empty());
    while i < rows.len()
        invariant
            i <= rows@.len() <= u32::MAX,
            tallies(totals, rows@.take(i as int)),
            grouped(groups@, rows@.take(i as int)),
        decreases rows@.len() - i,
    {
        let row = &rows[i];
        let ghost done = rows@.take(i as int);
        proof {
            assert(rows@.take(i + 1) =~= done.push(*row));
            counts_are_bounded(done);
        }
        let mut k: usize = 0;
        while k < groups.len() && text::comes_before(groups[k].name.as_str(), row.group.as_str())
            invariant
                k <= groups@.len(),
                forall|a: int|
                    0 <= a < k ==> text::precedes((#[trigger] groups@[a]).name@, row.group@),
            decreases groups@.len() - k,
        {
            k += 1;
        }
        let ghost before = groups@;
        if k < groups.len() && text::same(groups[k].name.as_str(), row.group.as_str()) {
            let mut counts = groups[k].counts;
            proof {
                let own = group_rows(done, before[k as int].name@);
                assert(tallies(before[k as int].counts, own));
                counts_are_bounded(own);
                done.lemma_filter_len(belongs_to(before[k as int].name@));
            }
            tally(&mut counts, row.state);
            let name = groups[k].name.clone();
            groups.set(k, GroupEntry { name, counts });
            proof {
                known_group_grows(before, groups@, done, *row, k as int);
            }
        } else {
            let mut counts = GroupCounts::default();
            tally(&mut counts, row.state);
            let entry = GroupEntry { name: row.group.clone(), counts };
            proof {
                new_group_is_added(before, entry, done, *row, k as int);
            }
            groups.insert(k, entry);
        }
        let ghost old_totals = totals;
        tally(&mut totals, row.state);
        proof {
            tallies_of_one_more(old_totals, totals, done, *row);
        }
        i += 1;
    }
    assert(rows@.take(rows@.len() as int) =~= rows@);
    StatusDocument {
        version: 1,
        ts: clock::format_rfc3339(now),
        cli_version,
        running: totals.running,
        starting: totals.starting,
        error: totals.error,
        stopped: totals.stopped,
        total: totals.total,
        groups,
        connections: rows,
    }
}

// ---------------------------------------------------------------------------
// The command.
// ---------------------------------------------------------------------------

/// Whether a Connection keeps `status` from producing a document.
pub open spec fn blocks(connection: Connection, probe: Probe) -> bool {
    model::unit_name_of(connection.id@) is Err || probe is SupervisorFailed
}

/// Whether there are probes enough: one for each Connection, or one for each
/// up to a Connection that blocks.
pub open spec fn sufficient(connections: Seq<Connection>, probes: Seq<Probe>) -> bool {
    ||| probes.len() == connections.len()
    ||| 0 < probes.len() < connections.len() && blocks(
        connections[probes.len() - 1],
        probes[probes.len() - 1],
    )
}

/// Whether a result is what the selected Connections and their probes come
/// to: the error of the first one that blocks, else the document of all their
/// rows in order.
pub open spec fn status_result(
    result: Result<StatusDocument, StatusCommandError>,
    connections: Seq<Connection>,
    probes: Seq<Probe>,
    now: int,
    mono_now_usec: Option<u64>,
    cli_version: Seq<char>,
) -> bool {
    match result {
        Err(error) => exists|i: int|
            0 <= i < probes.len() && #[trigger] blocks(connections[i], probes[i]) && (forall|
                j: int,
            |
                0 <= j < i ==> !#[trigger] blocks(connections[j], probes[j])) && row_result(
                Err(error),
                connections[i],
                probes[i],
                now,
                mono_now_usec,
            ),
        Ok(document) => {
            &&& probes.len() == connections.len()
            &&& forall|j: int|
                0 <= j < connections.len() ==> !#[trigger] blocks(connections[j], probes[j])
            &&& document.connections@.len() == connections.len()
            &&& forall|i: int|
                0 <= i < connections.len() ==> row_result(
                    Ok(#[trigger] document.connections@[i]),
                    connections[i],
                    probes[i],
                    now,
                    mono_now_usec,
                )
            &&& documents(document, document.connections@, now, cli_version)
        },
    }
}

/// Reports on every Connection that a selector names, from what was found
/// when each of them was looked at. Nothing needs to be looked at behind a
/// Connection that blocks.
pub fn status(
    config: &Config,
    selector: &Selector,
    probes: Vec<Probe>,
    now: Timestamp,
    mono_now_usec: Option<u64>,
    cli_version: String,
) -> (result: Result<StatusDocument, StatusCommandError>)
    requires
        select::selected(config.connections@, *selector) matches Ok(connections) ==> sufficient(
            connections,
            probes@,
        ) && connections.len() <= u32::MAX,
    ensures
        match select::selected(config.connections@, *selector) {
            Err(error) => result == Err::<StatusDocument, StatusCommandError>(
                StatusCommandError::Select(error),
            ),
            Ok(connections) => status_result(
                result,
                connections,
                probes@,
                now@,
                mono_now_usec,
                cli_version@,
            ),
        },
{
    let targets = match select::expand(config, selector) {
        Ok(targets) => targets,
        Err(error) => return Err(StatusCommandError::Select(error)),
    };
    let ghost connections = select::targets(targets@);
    let ghost all = probes@;
    let mut rest = probes;
    let mut rows: Vec<StatusRow> = Vec::new();
    let mut i: usize = 0;
    assert(all.skip(0) =~= all);
    while i < targets.len()
        invariant
            connections == select::targets(targets@),
            select::selected(config.connections@, *selector) == Ok::<Seq<Connection>, SelectError>(
                connections,
            ),
            sufficient(connections, all),
            all == probes@,
            i <= targets@.len(),
            i <= all.len(),
            rest@ == all.skip(i as int),
            rows@.len() == i,
            forall|j: int| 0 <= j < i ==> !#[trigger] blocks(connections[j], all[j]),
            forall|j: int|
                0 <= j < i ==> row_result(
                    Ok(#[trigger] rows@[j]),
                    connections[j],
                    all[j],
                    now@,
                    mono_now_usec,
                ),
        decreases targets@.len() - i,
    {
        let connection = targets[i];
        assert(connections[i as int] == *connection);
        assert(i < all.len()) by {
            if i == all.len() {
                assert(!blocks(connections[i - 1], all[i - 1]));
            }
        }
        let probe = rest.remove(0);
        assert(probe == all[i as int]);
        assert(rest@ =~= all.skip(i + 1));
        match observe_and_reconcile(connection, probe, now, mono_now_usec) {
            Ok(row) => rows.push(row),
            Err(error) => {
                assert(blocks(connections[i as int], all[i as int]));
                return Err(error);
            },
        }
        i += 1;
    }
    Ok(assemble_document(rows, now, cli_version))
}

// ---------------------------------------------------------------------------
// Laws of the document.
// ---------------------------------------------------------------------------

/// Every Connection of a document is in exactly one of the four counters.
pub proof fn states_add_up(
    document: StatusDocument,
    rows: Seq<StatusRow>,
    now: int,
    cli_version: Seq<char>,
)
    requires
        documents(document, rows, now, cli_version),
    ensures
        document.running + document.starting + document.error + document.stopped
            == document.total,
{
    counts_are_bounded(rows);
}

/// The sum of the groups' totals.
pub open spec fn sum_of_totals(groups: Seq<GroupEntry>) -> int
    decreases groups.len(),
{
    if groups.len() == 0 {
        0
    } else {
        sum_of_totals(groups.drop_last()) + groups.last().counts.total
    }
}

/// Every Connection of a document is in exactly one group: the groups' totals
/// add up to the document's.
pub proof fn group_totals_add_up(
    document: StatusDocument,
    rows: Seq<StatusRow>,
    now: int,
    cli_version: Seq<char>,
)
    requires
        documents(document, rows, now, cli_version),
    ensures
        sum_of_totals(document.groups@) == document.total,
{
    let groups = document.groups@;
    totals_are_group_sizes(groups, rows);
    assert(rows.take(rows.len() as int) =~= rows);
    group_sizes_add_up(groups, rows, rows.len() as int);
}

/// The sizes of the groups within a list of rows, added up.
spec fn sum_of_sizes(groups: Seq<GroupEntry>, rows: Seq<StatusRow>) -> int
    decreases groups.len(),
{
    if groups.len() == 0 {
        0
    } else {
        sum_of_sizes(groups.drop_last(), rows) + group_rows(rows, groups.last().name@).len()
    }
}

proof fn totals_are_group_sizes(groups: Seq<GroupEntry>, rows: Seq<StatusRow>)
    requires
        forall|a: int|
            0 <= a < groups.len() ==> tallies(
                (#[trigger] groups[a]).counts,
                group_rows(rows, groups[a].name@),
            ),
    ensures
        sum_of_totals(groups) == sum_of_sizes(groups, rows),
    decreases groups.len(),
{
    if groups.len() > 0 {
        totals_are_group_sizes(groups.drop_last(), rows);
        assert(groups[groups.len() - 1] == groups.last());
    }
}

/// How often a name stands among groups.
spec fn occurrences(groups: Seq<GroupEntry>, name: Seq<char>) -> int
    decreases groups.len(),
{
    if groups.len() == 0 {
        0
    } else {
        occurrences(groups.drop_last(), name) + if groups.last().name@ == name {
            1int
        } else {
            0
        }
    }
}

proof fn sizes_of_one_more(groups: Seq<GroupEntry>, rows: Seq<StatusRow>, row: StatusRow)
    ensures
        sum_of_sizes(groups, rows.push(row)) == sum_of_sizes(groups, rows) + occurrences(
            groups,
            row.group@,
        ),
    decreases groups.len(),
{
    if groups.len() > 0 {
        sizes_of_one_more(groups.drop_last(), rows, row);
        group_rows_of_one_more(rows, row, groups.last().name@);
    }
}

proof fn names_occur_once(groups: Seq<GroupEntry>, name: Seq<char>)
    requires
        forall|a: int, b: int|
            0 <= a < b < groups.len() ==> text::precedes(
                (#[trigger] groups[a]).name@,
                (#[trigger] groups[b]).name@,
            ),
    ensures
        occurrences(groups, name) == if has_group(groups, name) {
            1int
        } else {
            0
        },
    decreases groups.len(),
{
    if groups.len() > 0 {
        let front = groups.drop_last();
        let last = groups.last();
        names_occur_once(front, name);
        if has_group(front, name) {
            let a = choose|a: int| 0 <= a < front.len() && (#[trigger] front[a]).name@ == name;
            assert(groups[a].name@ == name);
            assert(text::precedes(groups[a].name@, groups[groups.len() - 1].name@));
            text::order_is_irreflexive(name);
        } else if last.name@ == name {
            assert(groups[groups.len() - 1].name@ == name);
        } else {
            assert forall|a: int| 0 <= a < groups.len() implies (#[trigger] groups[a]).name@
                != name by {
                if a < front.len() {
                    assert(front[a] == groups[a]);
                }
            }
        }
    }
}

proof fn group_sizes_add_up(groups: Seq<GroupEntry>, rows: Seq<StatusRow>, n: int)
    requires
        0 <= n <= rows.len(),
        grouped(groups, rows),
    ensures
        sum_of_sizes(groups, rows.take(n)) == n,
    decreases n,
{
    if n == 0 {
        empty_groups_have_no_size(groups, rows.take(0));
    } else {
        group_sizes_add_up(groups, rows, n - 1);
        let row = rows[n - 1];
        assert(rows.take(n) =~= rows.take(n - 1).push(row));
        sizes_of_one_more(groups, rows.take(n - 1), row);
        names_occur_once(groups, row.group@);
        assert(has_group(groups, rows[n - 1].group@));
    }
}

proof fn empty_groups_have_no_size(groups: Seq<GroupEntry>, rows: Seq<StatusRow>)
    requires
        rows.len() == 0,
    ensures
        sum_of_sizes(groups, rows) == 0,
    decreases groups.len(),
{
    if groups.len() > 0 {
        empty_groups_have_no_size(groups.drop_last(), rows);
        rows.lemma_filter_len(belongs_to(groups.last().name@));
    }
}

// ---------------------------------------------------------------------------
// Laws of rows.
// ---------------------------------------------------------------------------

/// Whether a number is the exit status that systemd reported: an exit code or a
/// signal as it was, and 0 where nothing has exited.
pub open spec fn reported_status(exec_outcome: ExecOutcome, status: i32) -> bool {
    match exec_outcome {
        ExecOutcome::NotExited => status == 0,
        ExecOutcome::ExitCode(code) => code == status,
        ExecOutcome::Signal(number) => number == status,
        ExecOutcome::Unknown { status: other, .. } => other == status,
    }
}

/// A failure signal has the exit status that systemd reported, and systemd's
/// result; a result that is not known is none of those that can be clean.
pub proof fn failure_signals_keep_what_systemd_reported(
    result: &SupervisorUnitResult,
    exec_outcome: ExecOutcome,
    signal: FailureSignal,
)
    requires
        call_ensures(failure_signal, (result, exec_outcome), signal),
    ensures
        reported_status(exec_outcome, signal.exec_main_status),
        signal.result == reconcile::UnitResult::Success <==> *result is Success,
        signal.result == reconcile::UnitResult::ExitCode <==> *result is ExitCode,
        signal.result == reconcile::UnitResult::Signal <==> *result is Signal,
        signal.result == reconcile::UnitResult::CoreDump <==> *result is CoreDump,
        signal.result == reconcile::UnitResult::ExecCondition <==> *result is ExecCondition,
{
}

/// Whether a row is that of a Connection whose unit and port were seen.
pub open spec fn seen(
    row: StatusRow,
    connection: &Connection,
    snapshot: UnitSnapshot,
    port: PortObservation,
    now: Timestamp,
    mono_now_usec: Option<u64>,
) -> bool {
    call_ensures(
        observe_and_reconcile,
        (connection, Probe::Seen { snapshot, port }, now, mono_now_usec),
        Ok(row),
    )
}

/// A failed unit is reported as an error unless it was stopped on request: it
/// succeeded, or exited with 0 or 143, or died of signal 15. Even then it is an
/// error while its port is open or a process is left. A result that is not
/// known is never taken for a stop on request.
pub proof fn crashes_are_reported(
    row: StatusRow,
    connection: &Connection,
    snapshot: UnitSnapshot,
    port: PortObservation,
    now: Timestamp,
    mono_now_usec: Option<u64>,
    status: i32,
)
    requires
        seen(row, connection, snapshot, port, now, mono_now_usec),
        snapshot is Loaded,
        snapshot->active_state is Failed,
        reported_status(snapshot->exec_outcome, status),
    ensures
        ({
            let on_request = match snapshot->result {
                SupervisorUnitResult::Success => true,
                SupervisorUnitResult::ExitCode => status == 0 || status == 143,
                SupervisorUnitResult::Signal => status == 15,
                SupervisorUnitResult::Timeout => false,
                SupervisorUnitResult::CoreDump => false,
                SupervisorUnitResult::ExecCondition => false,
                SupervisorUnitResult::Unknown(_) => false,
            };
            let gone = port.probe != PortProbe::Open && snapshot->main_pid is None;
            if on_request && gone {
                row.state == HealthState::Stopped && row.source == Source::NoUnit
            } else {
                &&& reconcile::fails_with(
                    row,
                    if snapshot->result is ExecCondition {
                        ErrorCode::ExecFailed
                    } else {
                        ErrorCode::UnitFailed
                    },
                )
                &&& row.source == Source::Unit <==> snapshot->main_pid is Some
            }
        }),
{
}

/// A failed unit whose process exited with a status other than 0 and 143 is an
/// error of the unit, whatever its port and its processes.
pub proof fn failing_exit_codes_are_errors(
    row: StatusRow,
    connection: &Connection,
    snapshot: UnitSnapshot,
    port: PortObservation,
    now: Timestamp,
    mono_now_usec: Option<u64>,
    status: i32,
)
    requires
        seen(row, connection, snapshot, port, now, mono_now_usec),
        snapshot is Loaded,
        snapshot->active_state is Failed,
        snapshot->result is ExitCode,
        snapshot->exec_outcome == ExecOutcome::ExitCode(status),
        status != 0,
        status != 143,
    ensures
        reconcile::fails_with(row, ErrorCode::UnitFailed),
{
}

/// A unit that is absent or inactive is stopped; an open port is then another
/// process's. An active state that is not known is an error.
pub proof fn absent_units_are_stopped_or_in_conflict(
    row: StatusRow,
    connection: &Connection,
    snapshot: UnitSnapshot,
    port: PortObservation,
    now: Timestamp,
    mono_now_usec: Option<u64>,
)
    requires
        seen(row, connection, snapshot, port, now, mono_now_usec),
    ensures
        snapshot is Absent || snapshot->active_state is Inactive ==> {
            &&& row.source == Source::NoUnit
            &&& port.probe != PortProbe::Open ==> row.state == HealthState::Stopped
            &&& port.probe == PortProbe::Open ==> reconcile::fails_with(row, ErrorCode::PortInUse)
        },
        snapshot is Loaded && snapshot->active_state is Unknown ==> reconcile::fails_with(
            row,
            ErrorCode::UnitFailed,
        ),
        snapshot is Loaded && snapshot->active_state is Deactivating ==> {
            &&& port.probe == PortProbe::Open ==> row.state == HealthState::Running && row.source
                == Source::Unit
            &&& port.probe != PortProbe::Open ==> row.state == HealthState::Stopped
        },
{
}

/// The microseconds since a start, where both readings of the monotonic clock
/// are there and do not run backwards.
pub open spec fn micros_since_start(started: Option<u64>, mono_now: Option<u64>) -> Option<int> {
    if started is Some && mono_now is Some && started->0 <= mono_now->0 {
        Some(mono_now->0 - started->0)
    } else {
        None
    }
}

/// A unit that starts or runs is running with its port open, unless another
/// process is known to hold it. With its port closed it is starting for ten
/// seconds by the monotonic clock, and an error from then on. Where a process
/// is ours, the row shows the whole seconds since its start.
pub proof fn units_start_within_ten_seconds(
    row: StatusRow,
    connection: &Connection,
    snapshot: UnitSnapshot,
    port: PortObservation,
    now: Timestamp,
    mono_now_usec: Option<u64>,
)
    requires
        seen(row, connection, snapshot, port, now, mono_now_usec),
        0 <= now@ < 0x8000_0000_0000_0000 * 1_000_000_000,
        snapshot is Loaded,
        snapshot->active_state is Activating || snapshot->active_state is Active,
    ensures
        ({
            let main = snapshot->main_pid;
            let holder = port.listener_pid;
            let foreign = holder is Some && (main is None || main->0 != holder->0);
            let age = micros_since_start(snapshot->started_at_monotonic_usec, mono_now_usec);
            &&& port.probe == PortProbe::Open && !foreign ==> row.state == HealthState::Running
            &&& port.probe == PortProbe::Open && foreign ==> reconcile::fails_with(
                row,
                ErrorCode::PortInUse,
            )
            &&& port.probe != PortProbe::Open && age is Some && age->0 <= 10_000_000 ==> row.state
                == HealthState::Starting
            &&& port.probe != PortProbe::Open && (age is None || age->0 > 10_000_000)
                ==> reconcile::fails_with(
                row,
                if snapshot->active_state is Activating {
                    ErrorCode::StartTimeout
                } else {
                    ErrorCode::UnitFailed
                },
            )
            &&& row.source == Source::Unit ==> row.pid == main && (row.uptime_sec is Some <==> age
                is Some)
            &&& row.source == Source::Unit && age is Some ==> row.uptime_sec->0 * 1_000_000
                <= age->0 < (row.uptime_sec->0 + 1) * 1_000_000
        }),
{
    let age = micros_since_start(snapshot->started_at_monotonic_usec, mono_now_usec);
    if age is Some {
        assert(now@ - age->0 * 1_000 >= clock::earliest());
    }
}

/// What a look at a Connection comes to: a row with its identity, or an error
/// with its id where it has no unit name or its unit could not be read. An
/// address that is none is an error of the config.
pub proof fn looks_come_to_rows_or_errors(
    connection: &Connection,
    probe: Probe,
    now: Timestamp,
    mono_now_usec: Option<u64>,
    result: Result<StatusRow, StatusCommandError>,
)
    requires
        call_ensures(observe_and_reconcile, (connection, probe, now, mono_now_usec), result),
    ensures
        result is Err <==> model::unit_name_of(connection.id@) is Err || probe is SupervisorFailed,
        result matches Ok(row) ==> {
            &&& row.id@ == connection.id@
            &&& row.name@ == connection.name@
            &&& row.group@ == connection.group@
            &&& row.instance@ == connection.instance@
            &&& row.address@ == connection.address@
            &&& row.port == connection.port
            &&& row.private_ip == connection.private_ip
            &&& row.enabled == connection.enabled
            &&& row.unit matches Some(unit) && model::unit_name_of(connection.id@) == Ok::<
                Seq<char>,
                UnitNameError,
            >(unit@)
            &&& row.error is Some <==> row.state == HealthState::Error
        },
        result matches Ok(row) ==> (probe is InvalidAddress ==> {
            &&& reconcile::fails_with(row, ErrorCode::Config)
            &&& row.source == Source::NoUnit
            &&& row.pid is None
            &&& row.uptime_sec is None
            &&& !row.port_open
        }),
        result matches Ok(row) ==> (probe is Seen ==> (row.port_open <==> probe->port.probe
            == PortProbe::Open)),
        result matches Err(StatusCommandError::UnitName { id, source }) ==> id@ == connection.id@
            && model::unit_name_of(connection.id@) == Err::<Seq<char>, UnitNameError>(source),
        result matches Err(StatusCommandError::Supervisor { id, source }) ==> id@ == connection.id@
            && probe == Probe::SupervisorFailed(source),
        result matches Err(error) ==> (error is UnitName <==> model::unit_name_of(connection.id@)
            is Err) && !(error is Select),
{
}

// ---------------------------------------------------------------------------
// Laws of counters.
// ---------------------------------------------------------------------------

pub open spec fn in_state(state: HealthState) -> spec_fn(StatusRow) -> bool {
    |row: StatusRow| row.state == state
}

proof fn counts_are_those_of_filters(rows: Seq<StatusRow>, state: HealthState)
    ensures
        count(rows, state) == rows.filter(in_state(state)).len(),
    decreases rows.len(),
{
    if rows.len() > 0 {
        let front = rows.drop_last();
        counts_are_those_of_filters(front, state);
        assert(front.push(rows.last()) =~= rows);
        front.lemma_filter_push(rows.last(), in_state(state));
    } else {
        rows.lemma_filter_len(in_state(state));
    }
}

/// Whether counters say how many rows there are in each state, and in all.
pub open spec fn counts_rows(
    rows: Seq<StatusRow>,
    running: u32,
    starting: u32,
    error: u32,
    stopped: u32,
    total: u32,
) -> bool {
    &&& running == rows.filter(|row: StatusRow| row.state == HealthState::Running).len()
    &&& starting == rows.filter(|row: StatusRow| row.state == HealthState::Starting).len()
    &&& error == rows.filter(|row: StatusRow| row.state == HealthState::Error).len()
    &&& stopped == rows.filter(|row: StatusRow| row.state == HealthState::Stopped).len()
    &&& total == rows.len()
}

proof fn tallies_count_rows(counts: GroupCounts, rows: Seq<StatusRow>)
    requires
        tallies(counts, rows),
    ensures
        counts_rows(
            rows,
            counts.running,
            counts.starting,
            counts.error,
            counts.stopped,
            counts.total,
        ),
{
    counts_are_those_of_filters(rows, HealthState::Running);
    counts_are_those_of_filters(rows, HealthState::Starting);
    counts_are_those_of_filters(rows, HealthState::Error);
    counts_are_those_of_filters(rows, HealthState::Stopped);
    assert(in_state(HealthState::Running) =~= (|row: StatusRow| row.state == HealthState::Running));
    assert(in_state(HealthState::Starting) =~= (|row: StatusRow|
        row.state == HealthState::Starting));
    assert(in_state(HealthState::Error) =~= (|row: StatusRow| row.state == HealthState::Error));
    assert(in_state(HealthState::Stopped) =~= (|row: StatusRow| row.state == HealthState::Stopped));
}

/// A document holds the rows as they are, and its counters count them by their
/// states. It has one entry for each group that occurs and none for any other,
/// in ascending order, and each entry's counters count the rows of its group.
pub proof fn documents_count_their_rows(
    rows: Vec<StatusRow>,
    now: Timestamp,
    cli_version: String,
    document: StatusDocument,
)
    requires
        rows@.len() <= u32::MAX,
        call_ensures(assemble_document, (rows, now, cli_version), document),
    ensures
        document.version == 1,
        document.cli_version@ == cli_version@,
        forall|stamp: String|
            call_ensures(clock::format_rfc3339, (now,), stamp) ==> document.ts@ == stamp@,
        document.connections@ == rows@,
        counts_rows(
            rows@,
            document.running,
            document.starting,
            document.error,
            document.stopped,
            document.total,
        ),
        forall|r: int|
            0 <= r < rows@.len() ==> exists|a: int|
                0 <= a < document.groups@.len() && (#[trigger] document.groups@[a]).name@ == (
                #[trigger] rows@[r]).group@,
        forall|a: int|
            0 <= a < document.groups@.len() ==> exists|r: int|
                0 <= r < rows@.len() && (#[trigger] rows@[r]).group@ == (
                #[trigger] document.groups@[a]).name@,
        forall|a: int, b: int|
            0 <= a < b < document.groups@.len() ==> text::precedes(
                (#[trigger] document.groups@[a]).name@,
                (#[trigger] document.groups@[b]).name@,
            ),
        forall|a: int|
            0 <= a < document.groups@.len() ==> counts_rows(
                rows@.filter(
                    |row: StatusRow| row.group@ == (#[trigger] document.groups@[a]).name@,
                ),
                document.groups@[a].counts.running,
                document.groups@[a].counts.starting,
                document.groups@[a].counts.error,
                document.groups@[a].counts.stopped,
                document.groups@[a].counts.total,
            ),
{
    broadcast use vstd::seq_lib::group_filter_ensures;

    let all = rows@;
    let groups = document.groups@;
    tallies_count_rows(
        GroupCounts {
            running: document.running,
            starting: document.starting,
            error: document.error,
            stopped: document.stopped,
            total: document.total,
        },
        all,
    );
    assert forall|r: int| 0 <= r < all.len() implies exists|a: int|
        0 <= a < groups.len() && (#[trigger] groups[a]).name@ == (#[trigger] all[r]).group@ by {
        assert(has_group(groups, all[r].group@));
    }
    assert forall|a: int| 0 <= a < groups.len() implies exists|r: int|
        0 <= r < all.len() && (#[trigger] all[r]).group@ == (#[trigger] groups[a]).name@ by {
        let keep = belongs_to(groups[a].name@);
        let own = all.filter(keep);
        assert(group_rows(all, groups[a].name@).len() > 0);
        assert(keep(own[0]));
        all.lemma_filter_contains_rev(keep, own[0]);
        let r = choose|r: int| 0 <= r < all.len() && all[r] == own[0];
        assert(all[r].group@ == groups[a].name@);
    }
    assert forall|a: int| 0 <= a < groups.len() implies counts_rows(
        all.filter(|row: StatusRow| row.group@ == (#[trigger] groups[a]).name@),
        groups[a].counts.running,
        groups[a].counts.starting,
        groups[a].counts.error,
        groups[a].counts.stopped,
        groups[a].counts.total,
    ) by {
        let keep = |row: StatusRow| row.group@ == groups[a].name@;
        assert(keep =~= belongs_to(groups[a].name@));
        tallies_count_rows(groups[a].counts, group_rows(all, groups[a].name@));
    }
}

/// `status` reports on every Connection that its selector names, in their
/// order, or fails with the first one that has no unit name or whose unit could
/// not be read. A selector that names nothing is an error of its own.
pub proof fn every_selected_connection_is_reported(
    config: &Config,
    selector: &Selector,
    probes: Vec<Probe>,
    now: Timestamp,
    mono_now_usec: Option<u64>,
    cli_version: String,
    chosen: Result<Vec<&Connection>, SelectError>,
    result: Result<StatusDocument, StatusCommandError>,
)
    requires
        call_ensures(select::expand, (config, selector), chosen),
        chosen matches Ok(targets) ==> sufficient(select::targets(targets@), probes@)
            && targets@.len() <= u32::MAX,
        call_ensures(
            status,
            (config, selector, probes, now, mono_now_usec, cli_version),
            result,
        ),
    ensures
        chosen matches Err(error) ==> result == Err::<StatusDocument, StatusCommandError>(
            StatusCommandError::Select(error),
        ),
        chosen matches Ok(targets) ==> match result {
            Ok(document) => {
                &&& probes@.len() == targets@.len()
                &&& document.connections@.len() == targets@.len()
                &&& forall|i: int|
                    0 <= i < targets@.len() ==> (#[trigger] document.connections@[i]).id@
                        == targets@[i].id@
                &&& forall|i: int|
                    0 <= i < targets@.len() ==> model::unit_name_of((#[trigger] targets@[i]).id@)
                        is Ok && !(probes@[i] is SupervisorFailed)
                &&& counts_rows(
                    document.connections@,
                    document.running,
                    document.starting,
                    document.error,
                    document.stopped,
                    document.total,
                )
            },
            Err(error) => exists|i: int| #[trigger] blocked_at(targets@, probes@, i) && {
                &&& error matches StatusCommandError::Supervisor { id, source } ==> id@
                    == targets@[i].id@ && probes@[i] == Probe::SupervisorFailed(source)
                &&& error matches StatusCommandError::UnitName { id, .. } ==> id@
                    == targets@[i].id@
                &&& !(error is Select)
            },
        },
{
    if chosen is Ok {
        let targets = chosen->Ok_0@;
        let connections = select::targets(targets);
        assert forall|i: int| 0 <= i < targets.len() implies #[trigger] connections[i]
            == *targets[i] by {}
        match result {
            Ok(document) => {
                assert forall|i: int| 0 <= i < targets.len() implies (
                #[trigger] document.connections@[i]).id@ == targets[i].id@ by {
                    assert(connections[i] == *targets[i]);
                    assert(row_result(
                        Ok(document.connections@[i]),
                        connections[i],
                        probes@[i],
                        now@,
                        mono_now_usec,
                    ));
                }
                assert forall|i: int| 0 <= i < targets.len() implies model::unit_name_of(
                    (#[trigger] targets[i]).id@,
                ) is Ok && !(probes@[i] is SupervisorFailed) by {
                    assert(!blocks(connections[i], probes@[i]));
                }
                tallies_count_rows(
                    GroupCounts {
                        running: document.running,
                        starting: document.starting,
                        error: document.error,
                        stopped: document.stopped,
                        total: document.total,
                    },
                    document.connections@,
                );
            },
            Err(error) => {
                let i = choose|i: int|
                    0 <= i < probes@.len() && #[trigger] blocks(connections[i], probes@[i]) && (
                    forall|j: int|
                        0 <= j < i ==> !#[trigger] blocks(connections[j], probes@[j]))
                        && row_result(
                        Err(error),
                        connections[i],
                        probes@[i],
                        now@,
                        mono_now_usec,
                    );
                assert forall|j: int| 0 <= j < i implies !((
                #[trigger] probes@[j]) is SupervisorFailed) && model::unit_name_of(
                    targets[j].id@,
                ) is Ok by {
                    assert(!blocks(connections[j], probes@[j]));
                }
                assert(connections[i] == *targets[i]);
                assert(blocked_at(targets, probes@, i));
            },
        }
    }
}

/// Whether a Connection is the first that has no unit name or whose unit could
/// not be read.
pub open spec fn blocked_at(targets: Seq<&Connection>, probes: Seq<Probe>, i: int) -> bool {
    &&& 0 <= i < targets.len()
    &&& i < probes.len()
    &&& model::unit_name_of(targets[i].id@) is Err || probes[i] is SupervisorFailed
    &&& forall|j: int|
        0 <= j < i ==> !((#[trigger] probes[j]) is SupervisorFailed) && model::unit_name_of(
            targets[j].id@,
        ) is Ok
}

/// A unit's start lies as far before now on the wall clock as on the monotonic
/// clock. It is not known where the monotonic clock runs backwards, nor where
/// instants do not reach back so far.
pub proof fn starts_are_dated_by_their_age(
    start_usec: u64,
    now_usec: u64,
    now: Timestamp,
    instant: Option<Timestamp>,
)
    requires
        call_ensures(started_at_from_monotonic, (start_usec, now_usec, now), instant),
    ensures
        instant matches Some(start) ==> start_usec <= now_usec && now@ - start@ == (now_usec
            - start_usec) * 1_000,
        instant is Some <==> start_usec <= now_usec && now@ - (now_usec - start_usec) * 1_000
            >= -0x8000_0000_0000_0000 * 1_000_000_000,
{
}

/// Counting a Connection adds one to the counter of its state and to the total,
/// and nothing to the other counters.
pub proof fn one_connection_counts_once(counts: &mut GroupCounts, state: HealthState)
    requires
        old(counts).total < u32::MAX,
        old(counts).running < u32::MAX,
        old(counts).starting < u32::MAX,
        old(counts).error < u32::MAX,
        old(counts).stopped < u32::MAX,
        call_ensures(tally, (counts, state), ()),
    ensures
        final(counts).total == old(counts).total + 1,
        final(counts).running - old(counts).running == if state == HealthState::Running {
            1int
        } else {
            0
        },
        final(counts).starting - old(counts).starting == if state == HealthState::Starting {
            1int
        } else {
            0
        },
        final(counts).error - old(counts).error == if state == HealthState::Error {
            1int
        } else {
            0
        },
        final(counts).stopped - old(counts).stopped == if state == HealthState::Stopped {
            1int
        } else {
            0
        },
{
}

/// A row of a loaded unit shows the unit's main process and the whole seconds
/// since its start wherever that process is ours, and neither where it is not.
pub proof fn rows_show_the_main_process(
    row: StatusRow,
    connection: &Connection,
    snapshot: UnitSnapshot,
    port: PortObservation,
    now: Timestamp,
    mono_now_usec: Option<u64>,
)
    requires
        seen(row, connection, snapshot, port, now, mono_now_usec),
        0 <= now@ < 0x8000_0000_0000_0000 * 1_000_000_000,
        snapshot is Loaded,
    ensures
        row.source == Source::NoUnit ==> row.pid is None && row.uptime_sec is None,
        row.source == Source::Unit ==> {
            let age = micros_since_start(snapshot->started_at_monotonic_usec, mono_now_usec);
            &&& row.pid == snapshot->main_pid
            &&& row.uptime_sec is Some <==> age is Some
            &&& age is Some ==> row.uptime_sec->0 * 1_000_000 <= age->0 < (row.uptime_sec->0 + 1)
                * 1_000_000
        },
        snapshot->active_state is Deactivating && port.probe != PortProbe::Open ==> (row.source
            == Source::Unit <==> snapshot->main_pid is Some),
{
    let age = micros_since_start(snapshot->started_at_monotonic_usec, mono_now_usec);
    if age is Some {
        assert(now@ - age->0 * 1_000 >= clock::earliest());
    }
}

/// An address that is none is reported with the Connection and the address.
pub proof fn invalid_addresses_are_named(
    connection: &Connection,
    detail: String,
    now: Timestamp,
    mono_now_usec: Option<u64>,
    row: StatusRow,
)
    requires
        call_ensures(
            observe_and_reconcile,
            (connection, Probe::InvalidAddress { detail }, now, mono_now_usec),
            Ok(row),
        ),
    ensures
        row.error is Some,
        row.error->0.detail@ == "connection `"@ + connection.id@ + "` has an invalid address `"@
            + connection.address@ + "`: "@ + detail@,
{
}

/// An error of one Connection names it, with the reason behind it.
pub proof fn errors_name_their_connection(error: &StatusCommandError, message: String)
    requires
        call_ensures(StatusCommandError::message, (error,), message),
    ensures
        error matches StatusCommandError::Select(source) ==> forall|reason: String|
            call_ensures(SelectError::message, (&source,), reason) ==> message@ == reason@,
        error matches StatusCommandError::UnitName { id, source } ==> forall|reason: String|
            call_ensures(UnitNameError::message, (&source,), reason) ==> message@
                == "connection `"@ + id@ + "`: "@ + reason@,
        error matches StatusCommandError::Supervisor { id, source } ==> forall|reason: String|
            call_ensures(SupervisorError::message, (&source,), reason) ==> message@
                == "connection `"@ + id@ + "`: "@ + reason@,
{
}

} // verus!
