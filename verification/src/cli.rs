//! The command line's decisions: selectors, what is printed where, and exit
//! codes.
//!
//! Exit codes: 0 success, 1 some targets failed, 2 usage or config, 3 the
//! environment, 4 every attempted target failed.

use vstd::prelude::*;

use crate::commands::logs::LogsCommandError;
use crate::commands::mutate;
use crate::commands::mutate::{BatchOutcome, ResultKind, TargetOutcome, TargetResult};
use crate::commands::select::{SelectError, Selector};
use crate::commands::status::StatusCommandError;
use crate::config::ConfigError;
use crate::journal::Dump;
use crate::model;
use crate::model::{
    CheckRow, CheckStatus, DoctorReport, ErrorCode, HealthState, Source, StatusDocument, StatusRow,
};
use crate::text;

verus! {

/// The most bytes of a Status document.
pub const STATUS_MAX_BYTES: usize = 262_144;

/// The most bytes of a Doctor report.
pub const DOCTOR_MAX_BYTES: usize = 65_536;

pub const DEFAULT_LOG_LINES: u32 = 100;

// ---------------------------------------------------------------------------
// Output.
// ---------------------------------------------------------------------------

/// Something to print.
#[derive(Debug, PartialEq, Eq)]
pub enum Output {
    /// A line on stdout.
    Line(String),
    /// A line on stderr.
    ErrorLine(String),
    /// Text on stdout, as it stands.
    Text(String),
    /// Bytes on stdout, as they stand.
    Bytes(Vec<u8>),
}

#[verifier::ext_equal]
pub enum OutputView {
    Line(Seq<char>),
    ErrorLine(Seq<char>),
    Text(Seq<char>),
    Bytes(Seq<u8>),
}

impl View for Output {
    type V = OutputView;

    open spec fn view(&self) -> OutputView {
        match self {
            Output::Line(line) => OutputView::Line(line@),
            Output::ErrorLine(line) => OutputView::ErrorLine(line@),
            Output::Text(text) => OutputView::Text(text@),
            Output::Bytes(bytes) => OutputView::Bytes(bytes@),
        }
    }
}

/// The views of a list of outputs.
pub open spec fn output_views(outputs: Seq<Output>) -> Seq<OutputView> {
    outputs.map_values(|output: Output| output@)
}

/// What a command prints, and the exit code it ends with.
#[derive(Debug, PartialEq, Eq)]
pub struct CommandOutput {
    pub outputs: Vec<Output>,
    pub exit: i32,
}

/// Whether a command prints exactly these outputs and ends with this code.
pub open spec fn ends_with(command: CommandOutput, outputs: Seq<OutputView>, exit: int) -> bool {
    output_views(command.outputs@) == outputs && command.exit == exit
}

fn one(output: Output, exit: i32) -> (command: CommandOutput)
    ensures
        ends_with(command, seq![output@], exit as int),
{
    let mut outputs: Vec<Output> = Vec::new();
    let ghost view = output@;
    outputs.push(output);
    assert(output_views(outputs@) =~= seq![view]);
    CommandOutput { outputs, exit }
}

pub open spec fn error_line(message: Seq<char>) -> OutputView {
    OutputView::ErrorLine("error: "@ + message)
}

fn error_output(message: &str) -> (output: Output)
    ensures
        output@ == error_line(message@),
{
    Output::ErrorLine(text::concat("error: ", message))
}

/// What is printed without running a command: the bare version where it is
/// asked for, and a usage error where no command is given.
pub fn run(version: bool, has_command: bool, cli_version: &str) -> (command: Option<CommandOutput>)
    ensures
        match command {
            Some(command) => if version {
                ends_with(command, seq![OutputView::Line(cli_version@)], 0)
            } else {
                !has_command && ends_with(
                    command,
                    seq![error_line("a subcommand is required (see --help)"@)],
                    2,
                )
            },
            None => !version && has_command,
        },
{
    if version {
        Some(one(Output::Line(cli_version.to_owned()), 0))
    } else if !has_command {
        Some(one(error_output("a subcommand is required (see --help)"), 2))
    } else {
        None
    }
}

// ---------------------------------------------------------------------------
// Selectors.
// ---------------------------------------------------------------------------

/// The target arguments of a command, as they were given.
#[derive(Debug, PartialEq, Eq)]
pub struct SelectorArgs {
    pub id: Option<String>,
    pub group: Option<String>,
    pub all: bool,
}

/// A mistake in the arguments.
#[derive(Debug, PartialEq, Eq)]
pub struct UsageError(pub String);

pub const COMBINED_TARGETS: &'static str =
    "id, --group, and --all cannot combine (docs/cli-contract.v1.md, \"Target selectors\": \"Mutual exclusion\")";

pub const MISSING_TARGET: &'static str =
    "an explicit target is required: ID, --group NAME, or --all (docs/cli-contract.v1.md, \"Target selectors\": \"Defaults\")";

/// How many targets the arguments name.
pub open spec fn given(args: SelectorArgs) -> int {
    (if args.id is Some {
        1int
    } else {
        0
    }) + (if args.group is Some {
        1int
    } else {
        0
    }) + (if args.all {
        1int
    } else {
        0
    })
}

/// Whether a result is what the arguments come to: at most one target, and
/// all of them where none is given and none is required.
pub open spec fn selector_resolved(
    result: Result<Selector, UsageError>,
    args: SelectorArgs,
    require_target: bool,
) -> bool {
    if given(args) > 1 {
        result matches Err(UsageError(message)) && message@ == COMBINED_TARGETS@
    } else if args.id is Some {
        result == Ok::<Selector, UsageError>(Selector::Id(args.id->0))
    } else if args.group is Some {
        result == Ok::<Selector, UsageError>(Selector::Group(args.group->0))
    } else if args.all || !require_target {
        result == Ok::<Selector, UsageError>(Selector::All)
    } else {
        result matches Err(UsageError(message)) && message@ == MISSING_TARGET@
    }
}

/// The selector that the arguments stand for.
pub fn resolve_selector(args: SelectorArgs, require_target: bool) -> (result: Result<
    Selector,
    UsageError,
>)
    ensures
        selector_resolved(result, args, require_target),
{
    let mut provided: usize = 0;
    if args.id.is_some() {
        provided += 1;
    }
    if args.group.is_some() {
        provided += 1;
    }
    if args.all {
        provided += 1;
    }
    if provided > 1 {
        return Err(UsageError(COMBINED_TARGETS.to_owned()));
    }
    match args.id {
        Some(id) => return Ok(Selector::Id(id)),
        None => {},
    }
    match args.group {
        Some(group) => return Ok(Selector::Group(group)),
        None => {},
    }
    if args.all || !require_target {
        Ok(Selector::All)
    } else {
        Err(UsageError(MISSING_TARGET.to_owned()))
    }
}

// ---------------------------------------------------------------------------
// Labels.
// ---------------------------------------------------------------------------

pub open spec fn state_text(state: HealthState) -> Seq<char> {
    match state {
        HealthState::Stopped => "stopped"@,
        HealthState::Starting => "starting"@,
        HealthState::Running => "running"@,
        HealthState::Error => "error"@,
    }
}

pub fn state_label(state: HealthState) -> (label: &'static str)
    ensures
        label@ == state_text(state),
{
    match state {
        HealthState::Stopped => "stopped",
        HealthState::Starting => "starting",
        HealthState::Running => "running",
        HealthState::Error => "error",
    }
}

pub open spec fn source_text(source: Source) -> Seq<char> {
    match source {
        Source::Unit => "unit"@,
        Source::NoUnit => "none"@,
    }
}

pub fn source_label(source: Source) -> (label: &'static str)
    ensures
        label@ == source_text(source),
{
    match source {
        Source::Unit => "unit",
        Source::NoUnit => "none",
    }
}

pub open spec fn error_code_text(code: ErrorCode) -> Seq<char> {
    match code {
        ErrorCode::BinMissing => "bin_missing"@,
        ErrorCode::PortInUse => "port_in_use"@,
        ErrorCode::ExecFailed => "exec_failed"@,
        ErrorCode::UnitFailed => "unit_failed"@,
        ErrorCode::StartTimeout => "start_timeout"@,
        ErrorCode::Auth => "auth"@,
        ErrorCode::Config => "config"@,
        ErrorCode::Unknown => "unknown"@,
    }
}

pub fn error_code_label(code: ErrorCode) -> (label: &'static str)
    ensures
        label@ == error_code_text(code),
{
    match code {
        ErrorCode::BinMissing => "bin_missing",
        ErrorCode::PortInUse => "port_in_use",
        ErrorCode::ExecFailed => "exec_failed",
        ErrorCode::UnitFailed => "unit_failed",
        ErrorCode::StartTimeout => "start_timeout",
        ErrorCode::Auth => "auth",
        ErrorCode::Config => "config",
        ErrorCode::Unknown => "unknown",
    }
}

pub open spec fn check_status_text(status: CheckStatus) -> Seq<char> {
    match status {
        CheckStatus::Pass => "PASS"@,
        CheckStatus::Warn => "WARN"@,
        CheckStatus::Fail => "FAIL"@,
    }
}

fn check_status_label(status: CheckStatus) -> (label: &'static str)
    ensures
        label@ == check_status_text(status),
{
    match status {
        CheckStatus::Pass => "PASS",
        CheckStatus::Warn => "WARN",
        CheckStatus::Fail => "FAIL",
    }
}

// ---------------------------------------------------------------------------
// Errors that end a command.
// ---------------------------------------------------------------------------

pub fn usage_exit(error: &UsageError) -> (command: CommandOutput)
    ensures
        ends_with(command, seq![error_line(error.0@)], 2),
{
    one(error_output(error.0.as_str()), 2)
}

pub fn config_exit(error: &ConfigError) -> (command: CommandOutput)
    ensures
        ends_with(command, seq![error_line(error@.text())], 2),
{
    one(error_output(error.message().as_str()), 2)
}

pub fn select_error_exit(error: &SelectError) -> (command: CommandOutput)
    ensures
        ends_with(command, seq![error_line(error.text())], 2),
{
    one(error_output(error.message().as_str()), 2)
}

/// An unknown target or a bad id is a usage error; a supervisor that cannot
/// be read is one of the environment.
pub fn status_error_exit(error: &StatusCommandError) -> (command: CommandOutput)
    ensures
        ends_with(
            command,
            seq![error_line(error.text())],
            if error is Supervisor {
                3
            } else {
                2
            },
        ),
{
    let exit: i32 = match error {
        StatusCommandError::Select(_) => 2,
        StatusCommandError::UnitName { .. } => 2,
        StatusCommandError::Supervisor { .. } => 3,
    };
    one(error_output(error.message().as_str()), exit)
}

// ---------------------------------------------------------------------------
// JSON documents.
// ---------------------------------------------------------------------------

/// Why a document is not printed.
#[derive(Debug, Clone, Copy, PartialEq, Eq, Structural)]
pub enum OutputCapError {
    CapExceeded { cap: usize },
}

/// A JSON document as it is printed: with a final newline.
pub open spec fn framed(json: Seq<char>) -> Seq<char> {
    json + "\n"@
}

/// How many bytes a text takes.
pub open spec fn byte_length(text: Seq<char>) -> nat {
    vstd::utf8::encode_utf8(text).len()
}

/// Whether a result is what framing under a cap comes to: the whole text, or
/// nothing of it.
pub open spec fn capped(result: Result<String, OutputCapError>, json: Seq<char>, cap: usize) -> bool {
    match result {
        Ok(text) => text@ == framed(json) && byte_length(framed(json)) <= cap,
        Err(error) => byte_length(framed(json)) > cap && error == (OutputCapError::CapExceeded {
            cap,
        }),
    }
}

fn frame_json(json: &str, cap: usize) -> (result: Result<String, OutputCapError>)
    ensures
        capped(result, json@, cap),
{
    let text = text::concat(json, "\n");
    if text.as_str().as_bytes().len() <= cap {
        Ok(text)
    } else {
        Err(OutputCapError::CapExceeded { cap })
    }
}

/// The Status document as it is printed, unless it is too large.
pub fn write_status_json(json: &str) -> (result: Result<String, OutputCapError>)
    ensures
        capped(result, json@, STATUS_MAX_BYTES),
{
    frame_json(json, STATUS_MAX_BYTES)
}

/// The Doctor report as it is printed, unless it is too large.
pub fn write_doctor_json(json: &str) -> (result: Result<String, OutputCapError>)
    ensures
        capped(result, json@, DOCTOR_MAX_BYTES),
{
    frame_json(json, DOCTOR_MAX_BYTES)
}

pub open spec fn too_large_text(what: Seq<char>, cap: usize) -> Seq<char> {
    what + " exceeds maximum allowed output size ("@ + text::digits(cap as nat) + " bytes)"@
}

fn too_large(what: &str, cap: usize) -> (output: Output)
    ensures
        output@ == error_line(too_large_text(what@, cap)),
{
    let mut message = what.to_owned();
    message.append(" exceeds maximum allowed output size (");
    message.append(text::decimal(cap as u64).as_str());
    message.append(" bytes)");
    error_output(message.as_str())
}

// ---------------------------------------------------------------------------
// status.
// ---------------------------------------------------------------------------

pub open spec fn status_summary(document: StatusDocument) -> Seq<char> {
    text::digits(document.running as nat) + " running, "@ + text::digits(document.starting as nat)
        + " starting, "@ + text::digits(document.error as nat) + " error, "@ + text::digits(
        document.stopped as nat,
    ) + " stopped (of "@ + text::digits(document.total as nat) + ")"@
}

pub open spec fn status_line(row: StatusRow) -> Seq<char> {
    text::left_aligned(row.id@, 20) + " "@ + text::left_aligned(state_text(row.state), 9) + " "@
        + text::left_aligned(text::digits(row.port as nat), 6) + " "@ + text::left_aligned(
        source_text(row.source),
        5,
    ) + " "@ + match row.error {
        Some(error) => error.detail@,
        None => "-"@,
    }
}

pub open spec fn status_lines(document: StatusDocument) -> Seq<OutputView> {
    seq![OutputView::Line(status_summary(document))] + document.connections@.map_values(
        |row: StatusRow| OutputView::Line(status_line(row)),
    )
}

fn status_row_text(row: &StatusRow) -> (line: String)
    ensures
        line@ == status_line(*row),
{
    let mut line = text::align_left(row.id.as_str(), 20);
    line.append(" ");
    line.append(text::align_left(state_label(row.state), 9).as_str());
    line.append(" ");
    line.append(text::align_left(text::decimal(row.port as u64).as_str(), 6).as_str());
    line.append(" ");
    line.append(text::align_left(source_label(row.source), 5).as_str());
    line.append(" ");
    match &row.error {
        Some(error) => line.append(error.detail.as_str()),
        None => line.append("-"),
    }
    line
}

/// The Status document for human eyes.
pub fn print_status_text(document: &StatusDocument) -> (outputs: Vec<Output>)
    ensures
        output_views(outputs@) == status_lines(*document),
{
    let mut summary = text::decimal(document.running as u64);
    summary.append(" running, ");
    summary.append(text::decimal(document.starting as u64).as_str());
    summary.append(" starting, ");
    summary.append(text::decimal(document.error as u64).as_str());
    summary.append(" error, ");
    summary.append(text::decimal(document.stopped as u64).as_str());
    summary.append(" stopped (of ");
    summary.append(text::decimal(document.total as u64).as_str());
    summary.append(")");
    let mut outputs: Vec<Output> = Vec::new();
    outputs.push(Output::Line(summary));
    let rows = &document.connections;
    let mut i: usize = 0;
    while i < rows.len()
        invariant
            rows == document.connections,
            i <= rows@.len(),
            outputs@.len() == i + 1,
            outputs@[0]@ == OutputView::Line(status_summary(*document)),
            forall|k: int|
                0 <= k < i ==> (#[trigger] outputs@[k + 1])@ == OutputView::Line(
                    status_line(rows@[k]),
                ),
        decreases rows@.len() - i,
    {
        outputs.push(Output::Line(status_row_text(&rows[i])));
        i += 1;
    }
    proof {
        let views = output_views(outputs@);
        let expected = status_lines(*document);
        assert forall|k: int| 0 <= k < views.len() implies #[trigger] views[k] == expected[k] by {
            if k > 0 {
                assert(outputs@[(k - 1) + 1]@ == OutputView::Line(status_line(rows@[k - 1])));
            }
        }
        assert(views =~= expected);
    }
    outputs
}

/// What `status` prints and ends with: its error, its document for human
/// eyes, or the document's JSON unless that is too large.
pub open spec fn status_command(
    command: CommandOutput,
    result: Result<StatusDocument, StatusCommandError>,
    json: Option<Seq<char>>,
) -> bool {
    match result {
        Err(error) => ends_with(
            command,
            seq![error_line(error.text())],
            if error is Supervisor {
                3
            } else {
                2
            },
        ),
        Ok(document) => match json {
            None => ends_with(command, status_lines(document), 0),
            Some(json) => if byte_length(framed(json)) <= STATUS_MAX_BYTES {
                ends_with(command, seq![OutputView::Text(framed(json))], 0)
            } else {
                ends_with(
                    command,
                    seq![error_line(too_large_text("status document"@, STATUS_MAX_BYTES))],
                    3,
                )
            },
        },
    }
}

pub open spec fn json_view(json: Option<&str>) -> Option<Seq<char>> {
    match json {
        Some(json) => Some(json@),
        None => None,
    }
}

/// What `status` prints, given its result and, where JSON was asked for, the
/// document's JSON.
pub fn run_status(result: &Result<StatusDocument, StatusCommandError>, json: Option<&str>) -> (
    command: CommandOutput)
    ensures
        status_command(command, *result, json_view(json)),
{
    match result {
        Err(error) => status_error_exit(error),
        Ok(document) => match json {
            None => CommandOutput { outputs: print_status_text(document), exit: 0 },
            Some(json) => match write_status_json(json) {
                Ok(text) => one(Output::Text(text), 0),
                Err(OutputCapError::CapExceeded { cap }) => one(
                    too_large("status document", cap),
                    3,
                ),
            },
        },
    }
}

// ---------------------------------------------------------------------------
// start, stop, restart.
// ---------------------------------------------------------------------------

pub open spec fn target_output(target: TargetOutcome) -> OutputView {
    match target.result {
        TargetResult::Succeeded => OutputView::Line(target.id@ + ": ok"@),
        TargetResult::SkippedDisabled => OutputView::ErrorLine(
            target.id@ + ": skipped (disabled)"@,
        ),
        TargetResult::RefusedDisabled => OutputView::ErrorLine(
            target.id@ + ": refused \u{2014} connection is disabled"@,
        ),
        TargetResult::Failed { code, message } => OutputView::ErrorLine(
            target.id@ + ": failed ("@ + error_code_text(code) + "): "@ + message@,
        ),
        TargetResult::Dependency { message } => OutputView::ErrorLine(
            target.id@ + ": dependency error: "@ + message@,
        ),
    }
}

/// One target's line: a success on stdout, anything else on stderr.
pub fn print_target_outcome(target: &TargetOutcome) -> (output: Output)
    ensures
        output@ == target_output(*target),
{
    let mut line = target.id.clone();
    match &target.result {
        TargetResult::Succeeded => {
            line.append(": ok");
            Output::Line(line)
        },
        TargetResult::SkippedDisabled => {
            line.append(": skipped (disabled)");
            Output::ErrorLine(line)
        },
        TargetResult::RefusedDisabled => {
            line.append(": refused \u{2014} connection is disabled");
            Output::ErrorLine(line)
        },
        TargetResult::Failed { code, message } => {
            line.append(": failed (");
            line.append(error_code_label(*code));
            line.append("): ");
            line.append(message.as_str());
            Output::ErrorLine(line)
        },
        TargetResult::Dependency { message } => {
            line.append(": dependency error: ");
            line.append(message.as_str());
            Output::ErrorLine(line)
        },
    }
}

pub open spec fn batch_summary(targets: Seq<TargetOutcome>) -> Seq<char> {
    text::digits(mutate::count(targets, ResultKind::Succeeded)) + " succeeded, "@ + text::digits(
        mutate::count(targets, ResultKind::Skipped),
    ) + " skipped, "@ + text::digits(
        mutate::count(targets, ResultKind::Failed) + mutate::count(targets, ResultKind::Dependency),
    ) + " failed"@
}

pub open spec fn batch_lines(targets: Seq<TargetOutcome>) -> Seq<OutputView> {
    targets.map_values(|target: TargetOutcome| target_output(target)).push(
        OutputView::Line(batch_summary(targets)),
    )
}

/// A batch's lines: one for each target, then the summary.
pub fn print_batch(outcome: &BatchOutcome) -> (outputs: Vec<Output>)
    ensures
        output_views(outputs@) == batch_lines(outcome.targets@),
{
    let targets = &outcome.targets;
    let mut outputs: Vec<Output> = Vec::new();
    let mut i: usize = 0;
    while i < targets.len()
        invariant
            targets == outcome.targets,
            i <= targets@.len(),
            outputs@.len() == i,
            forall|k: int| 0 <= k < i ==> (#[trigger] outputs@[k])@ == target_output(targets@[k]),
        decreases targets@.len() - i,
    {
        outputs.push(print_target_outcome(&targets[i]));
        i += 1;
    }
    proof {
        mutate::kinds_add_up(targets@);
    }
    let mut summary = text::decimal(outcome.succeeded_count() as u64);
    summary.append(" succeeded, ");
    summary.append(text::decimal(outcome.skipped_count() as u64).as_str());
    summary.append(" skipped, ");
    let failed: usize = outcome.failed_count() + outcome.dependency_count();
    summary.append(text::decimal(failed as u64).as_str());
    summary.append(" failed");
    outputs.push(Output::Line(summary));
    assert(output_views(outputs@) =~= batch_lines(outcome.targets@));
    outputs
}

/// A batch's exit code: a refused target is a usage error, a failing
/// environment comes before failing targets, and failures are partial where
/// something succeeded.
pub open spec fn batch_exit(targets: Seq<TargetOutcome>) -> int {
    if mutate::count(targets, ResultKind::Refused) > 0 {
        2
    } else if mutate::count(targets, ResultKind::Dependency) > 0 {
        3
    } else if mutate::count(targets, ResultKind::Failed) == 0 {
        0
    } else if mutate::count(targets, ResultKind::Succeeded) > 0 {
        1
    } else {
        4
    }
}

pub fn exit_for_batch(outcome: &BatchOutcome) -> (exit: i32)
    ensures
        exit == batch_exit(outcome.targets@),
{
    if outcome.count_of(ResultKind::Refused) > 0 {
        2
    } else if outcome.dependency_count() > 0 {
        3
    } else if outcome.failed_count() == 0 {
        0
    } else if outcome.succeeded_count() > 0 {
        1
    } else {
        4
    }
}

/// What `start`, `stop` and `restart` print, given the results of their
/// targets.
pub fn run_mutate(result: &Result<BatchOutcome, SelectError>) -> (command: CommandOutput)
    ensures
        match *result {
            Ok(outcome) => ends_with(
                command,
                batch_lines(outcome.targets@),
                batch_exit(outcome.targets@),
            ),
            Err(error) => ends_with(command, seq![error_line(error.text())], 2),
        },
{
    match result {
        Ok(outcome) => CommandOutput {
            outputs: print_batch(outcome),
            exit: exit_for_batch(outcome),
        },
        Err(error) => select_error_exit(error),
    }
}

// ---------------------------------------------------------------------------
// logs.
// ---------------------------------------------------------------------------

pub const LINES_USAGE: &'static str = "--lines must be an integer >= 1";

/// The usage error of a log request for no lines.
pub fn check_lines(lines: u32) -> (result: Result<(), UsageError>)
    ensures
        match result {
            Ok(()) => lines >= 1,
            Err(error) => lines == 0 && error.0@ == LINES_USAGE@,
        },
{
    if lines < 1 {
        Err(UsageError(LINES_USAGE.to_owned()))
    } else {
        Ok(())
    }
}

pub open spec fn no_entries_text(id: Seq<char>) -> Seq<char> {
    match model::unit_name_of(id) {
        Ok(unit) => "no journal entries for unit "@ + unit
            + " (never started, vacuumed, or empty)"@,
        Err(_) => "no journal entries for `"@ + id + "` (never started, vacuumed, or empty)"@,
    }
}

pub open spec fn logs_error_text(error: LogsCommandError) -> Seq<char> {
    if error is Journal {
        error.text() + " (run `cloud-sql-tracker doctor` for details)"@
    } else {
        error.text()
    }
}

/// A logs error's line; a journal that cannot be read points to `doctor`.
pub fn print_logs_error(error: &LogsCommandError) -> (output: Output)
    ensures
        output@ == error_line(logs_error_text(*error)),
{
    let mut message = error.message();
    match error {
        LogsCommandError::Journal(_) => {
            message.append(" (run `cloud-sql-tracker doctor` for details)");
        },
        LogsCommandError::UnknownId(_) | LogsCommandError::UnitName { .. } => {},
    }
    error_output(message.as_str())
}

pub fn logs_error_exit(error: &LogsCommandError) -> (exit: i32)
    ensures
        exit == if error is Journal {
            3int
        } else {
            2
        },
{
    match error {
        LogsCommandError::UnknownId(_) => 2,
        LogsCommandError::UnitName { .. } => 2,
        LogsCommandError::Journal(_) => 3,
    }
}

/// What `logs` prints, given its result: the journal's bytes unchanged, or a
/// hint where there are none.
pub fn run_logs(id: &str, result: Result<Dump, LogsCommandError>) -> (command: CommandOutput)
    ensures
        match result {
            Ok(Dump::Empty) => ends_with(
                command,
                seq![OutputView::ErrorLine(no_entries_text(id@))],
                0,
            ),
            Ok(Dump::Bytes(bytes)) => ends_with(command, seq![OutputView::Bytes(bytes@)], 0),
            Err(error) => ends_with(
                command,
                seq![error_line(logs_error_text(error))],
                if error is Journal {
                    3
                } else {
                    2
                },
            ),
        },
{
    match result {
        Ok(Dump::Empty) => {
            let mut line = String::new();
            match model::unit_name(id) {
                Ok(unit) => {
                    line.append("no journal entries for unit ");
                    line.append(unit.as_str());
                    line.append(" (never started, vacuumed, or empty)");
                },
                Err(_) => {
                    line.append("no journal entries for `");
                    line.append(id);
                    line.append("` (never started, vacuumed, or empty)");
                },
            }
            assert(line@ =~= no_entries_text(id@));
            one(Output::ErrorLine(line), 0)
        },
        Ok(Dump::Bytes(bytes)) => one(Output::Bytes(bytes), 0),
        Err(error) => one(print_logs_error(&error), logs_error_exit(&error)),
    }
}

// ---------------------------------------------------------------------------
// doctor.
// ---------------------------------------------------------------------------

pub open spec fn check_line(row: CheckRow) -> Seq<char> {
    let start = "["@ + check_status_text(row.status) + "] "@ + row.id@ + ": "@ + row.detail@;
    match row.hint {
        Some(hint) => start + " (hint: "@ + hint@ + ")"@,
        None => start,
    }
}

pub open spec fn doctor_lines(report: DoctorReport) -> Seq<OutputView> {
    report.checks@.map_values(|row: CheckRow| OutputView::Line(check_line(row))).push(
        OutputView::Line(
            if report.ok {
                "ok"@
            } else {
                "FAILED"@
            },
        ),
    )
}

fn check_row_text(row: &CheckRow) -> (line: String)
    ensures
        line@ == check_line(*row),
{
    let mut line = "[".to_owned();
    line.append(check_status_label(row.status));
    line.append("] ");
    line.append(row.id.as_str());
    line.append(": ");
    line.append(row.detail.as_str());
    match &row.hint {
        Some(hint) => {
            line.append(" (hint: ");
            line.append(hint.as_str());
            line.append(")");
        },
        None => {},
    }
    line
}

/// The Doctor report for human eyes.
pub fn print_doctor_text(report: &DoctorReport) -> (outputs: Vec<Output>)
    ensures
        output_views(outputs@) == doctor_lines(*report),
{
    let checks = &report.checks;
    let mut outputs: Vec<Output> = Vec::new();
    let mut i: usize = 0;
    while i < checks.len()
        invariant
            checks == report.checks,
            i <= checks@.len(),
            outputs@.len() == i,
            forall|k: int|
                0 <= k < i ==> (#[trigger] outputs@[k])@ == OutputView::Line(
                    check_line(checks@[k]),
                ),
        decreases checks@.len() - i,
    {
        outputs.push(Output::Line(check_row_text(&checks[i])));
        i += 1;
    }
    let verdict = if report.ok {
        "ok".to_owned()
    } else {
        "FAILED".to_owned()
    };
    outputs.push(Output::Line(verdict));
    assert(output_views(outputs@) =~= doctor_lines(*report));
    outputs
}

/// What `doctor` prints and ends with: its report for human eyes or as JSON,
/// unless that is too large.
pub open spec fn doctor_command(
    command: CommandOutput,
    report: DoctorReport,
    json: Option<Seq<char>>,
) -> bool {
    let exit: int = if report.ok {
        0
    } else {
        3
    };
    match json {
        None => ends_with(command, doctor_lines(report), exit),
        Some(json) => if byte_length(framed(json)) <= DOCTOR_MAX_BYTES {
            ends_with(command, seq![OutputView::Text(framed(json))], exit)
        } else {
            ends_with(
                command,
                seq![error_line(too_large_text("doctor report"@, DOCTOR_MAX_BYTES))],
                3,
            )
        },
    }
}

/// What `doctor` prints, given its report and, where JSON was asked for, the
/// report's JSON.
pub fn run_doctor(report: &DoctorReport, json: Option<&str>) -> (command: CommandOutput)
    ensures
        doctor_command(command, *report, json_view(json)),
{
    let exit: i32 = if report.ok {
        0
    } else {
        3
    };
    match json {
        None => CommandOutput { outputs: print_doctor_text(report), exit },
        Some(json) => match write_doctor_json(json) {
            Ok(text) => one(Output::Text(text), exit),
            Err(OutputCapError::CapExceeded { cap }) => one(too_large("doctor report", cap), 3),
        },
    }
}

// ---------------------------------------------------------------------------
// Laws.
// ---------------------------------------------------------------------------

/// Every batch ends with 0, 1, 2, 3 or 4. It ends with 0 exactly when nothing
/// was refused and nothing failed, so skipped targets alone do not change the
/// code, and an empty batch succeeds.
pub proof fn batches_end_with_a_known_code(targets: Seq<TargetOutcome>)
    ensures
        0 <= batch_exit(targets) <= 4,
        batch_exit(targets) == 0 <==> mutate::count(targets, ResultKind::Refused) == 0
            && mutate::count(targets, ResultKind::Dependency) == 0 && mutate::count(
            targets,
            ResultKind::Failed,
        ) == 0,
        targets.len() == 0 ==> batch_exit(targets) == 0,
{
}

/// Skipped targets do not change a batch's exit code.
pub proof fn skips_do_not_change_the_code(targets: Seq<TargetOutcome>, skipped: TargetOutcome)
    requires
        skipped.result is SkippedDisabled,
    ensures
        batch_exit(targets.push(skipped)) == batch_exit(targets),
{
    assert(targets.push(skipped).drop_last() =~= targets);
}

/// A document that is printed as JSON fits its cap and ends with a newline;
/// one that does not fit is not printed at all.
pub proof fn printed_documents_fit_their_cap(
    result: Result<String, OutputCapError>,
    json: Seq<char>,
    cap: usize,
)
    requires
        capped(result, json, cap),
    ensures
        result matches Ok(text) ==> byte_length(text@) <= cap && text@.len() > 0 && text@.last()
            == '\n',
        result is Err <==> byte_length(framed(json)) > cap,
{
    reveal_strlit("\n");
}

/// Whether some target's result is of a kind.
pub open spec fn occurs(targets: Seq<TargetOutcome>, kind: spec_fn(TargetResult) -> bool) -> bool {
    exists|i: int| 0 <= i < targets.len() && kind((#[trigger] targets[i]).result)
}

proof fn counted_kinds_occur(
    targets: Seq<TargetOutcome>,
    counted: ResultKind,
    kind: spec_fn(TargetResult) -> bool,
)
    requires
        forall|result: TargetResult| #[trigger] kind(result) == (mutate::kind_of(result)
            == counted),
    ensures
        mutate::count(targets, counted) > 0 <==> occurs(targets, kind),
    decreases targets.len(),
{
    if targets.len() > 0 {
        let front = targets.drop_last();
        counted_kinds_occur(front, counted, kind);
        assert(targets[targets.len() - 1] == targets.last());
        assert(kind(targets.last().result) == (mutate::kind_of(targets.last().result) == counted));
        if occurs(front, kind) {
            let i = choose|i: int| 0 <= i < front.len() && kind((#[trigger] front[i]).result);
            assert(kind(targets[i].result));
        }
        if occurs(targets, kind) && !occurs(front, kind) {
            let i = choose|i: int| 0 <= i < targets.len() && kind((#[trigger] targets[i]).result);
            if i < front.len() {
                assert(kind(front[i].result));
            }
        }
    }
}

/// A batch ends with 2 where a target was refused, else with 3 where the
/// environment failed, else with 0 where no target failed, else with 1 where
/// some target succeeded, and with 4 where none did.
pub proof fn exit_codes_say_what_happened(outcome: &BatchOutcome, exit: i32)
    requires
        call_ensures(exit_for_batch, (outcome,), exit),
    ensures
        ({
            let targets = outcome.targets@;
            let refused = occurs(targets, |result: TargetResult| result is RefusedDisabled);
            let dependency = occurs(targets, |result: TargetResult| result is Dependency);
            let failed = occurs(targets, |result: TargetResult| result is Failed);
            let succeeded = occurs(targets, |result: TargetResult| result is Succeeded);
            &&& refused ==> exit == 2
            &&& !refused && dependency ==> exit == 3
            &&& !refused && !dependency && !failed ==> exit == 0
            &&& !refused && !dependency && failed && succeeded ==> exit == 1
            &&& !refused && !dependency && failed && !succeeded ==> exit == 4
        }),
{
    let targets = outcome.targets@;
    counted_kinds_occur(
        targets,
        ResultKind::Refused,
        |result: TargetResult| result is RefusedDisabled,
    );
    counted_kinds_occur(
        targets,
        ResultKind::Dependency,
        |result: TargetResult| result is Dependency,
    );
    counted_kinds_occur(targets, ResultKind::Failed, |result: TargetResult| result is Failed);
    counted_kinds_occur(
        targets,
        ResultKind::Succeeded,
        |result: TargetResult| result is Succeeded,
    );
}

/// Arguments name one target at most. Without any, all Connections are meant
/// unless a target is required.
pub proof fn arguments_name_one_target(
    args: SelectorArgs,
    require_target: bool,
    result: Result<Selector, UsageError>,
)
    requires
        call_ensures(resolve_selector, (args, require_target), result),
    ensures
        args.id matches Some(id) ==> (args.group is None && !args.all ==> result == Ok::<
            Selector,
            UsageError,
        >(Selector::Id(id))),
        args.group matches Some(group) ==> (args.id is None && !args.all ==> result == Ok::<
            Selector,
            UsageError,
        >(Selector::Group(group))),
        args.id is None && args.group is None && args.all ==> result == Ok::<Selector, UsageError>(
            Selector::All,
        ),
        args.id is None && args.group is None && !args.all && !require_target ==> result == Ok::<
            Selector,
            UsageError,
        >(Selector::All),
        args.id is None && args.group is None && !args.all && require_target ==> result is Err,
        args.id is Some && args.group is Some ==> result is Err,
        args.all && (args.id is Some || args.group is Some) ==> result is Err,
        result matches Err(UsageError(message)) ==> message@ == if args.id is None && args.group
            is None {
            MISSING_TARGET@
        } else {
            COMBINED_TARGETS@
        },
{
}

/// Without a command to run, the version goes to stdout where it is asked for,
/// and anything else is a usage error on stderr.
pub proof fn versions_are_printed_bare(
    version: bool,
    has_command: bool,
    cli_version: &str,
    command: Option<CommandOutput>,
)
    requires
        call_ensures(run, (version, has_command, cli_version), command),
    ensures
        command is None <==> !version && has_command,
        version ==> (command matches Some(command) && command.exit == 0 && command.outputs@.len()
            == 1 && command.outputs@[0]@ == OutputView::Line(cli_version@)),
        !version && !has_command ==> (command matches Some(command) && command.exit == 2
            && command.outputs@.len() == 1 && command.outputs@[0]@ is ErrorLine),
{
    if command is Some {
        let outputs = command->0.outputs@;
        assert(output_views(outputs).len() == outputs.len());
        assert(outputs.len() == 1);
        assert(output_views(outputs)[0] == outputs[0]@);
    }
}

/// The words for states, owners and errors are those that scripts rely on.
pub proof fn labels_are_stable(
    state: HealthState,
    source: Source,
    code: ErrorCode,
    state_word: &'static str,
    source_word: &'static str,
    code_word: &'static str,
)
    requires
        call_ensures(state_label, (state,), state_word),
        call_ensures(source_label, (source,), source_word),
        call_ensures(error_code_label, (code,), code_word),
    ensures
        state == HealthState::Stopped <==> state_word@ == "stopped"@,
        state == HealthState::Starting <==> state_word@ == "starting"@,
        state == HealthState::Running <==> state_word@ == "running"@,
        state == HealthState::Error <==> state_word@ == "error"@,
        source == Source::Unit <==> source_word@ == "unit"@,
        source == Source::NoUnit <==> source_word@ == "none"@,
        code == ErrorCode::BinMissing <==> code_word@ == "bin_missing"@,
        code == ErrorCode::PortInUse <==> code_word@ == "port_in_use"@,
        code == ErrorCode::ExecFailed <==> code_word@ == "exec_failed"@,
        code == ErrorCode::UnitFailed <==> code_word@ == "unit_failed"@,
        code == ErrorCode::StartTimeout <==> code_word@ == "start_timeout"@,
        code == ErrorCode::Auth <==> code_word@ == "auth"@,
        code == ErrorCode::Config <==> code_word@ == "config"@,
        code == ErrorCode::Unknown <==> code_word@ == "unknown"@,
{
    reveal_strlit("stopped");
    reveal_strlit("starting");
    reveal_strlit("running");
    reveal_strlit("error");
    reveal_strlit("unit");
    reveal_strlit("none");
    reveal_strlit("bin_missing");
    reveal_strlit("port_in_use");
    reveal_strlit("exec_failed");
    reveal_strlit("unit_failed");
    reveal_strlit("start_timeout");
    reveal_strlit("auth");
    reveal_strlit("config");
    reveal_strlit("unknown");
    assert("stopped"@.len() == 7 && "starting"@.len() == 8 && "running"@.len() == 7
        && "error"@.len() == 5);
    assert("stopped"@[0] == 's' && "running"@[0] == 'r');
    assert("unit"@[0] == 'u' && "none"@[0] == 'n');
    assert("bin_missing"@[0] == 'b' && "port_in_use"@[0] == 'p' && "exec_failed"@[0] == 'e'
        && "unit_failed"@[0] == 'u' && "start_timeout"@[0] == 's' && "auth"@[0] == 'a'
        && "config"@[0] == 'c' && "unknown"@[0] == 'u');
    assert("unit_failed"@.len() == 11 && "unknown"@.len() == 7);
}

/// The errors that end a command go to stderr, one line each: with 2 where the
/// arguments or the config are at fault, with 3 where systemd cannot be read.
pub proof fn errors_end_commands(
    usage: &UsageError,
    config: &ConfigError,
    selection: &SelectError,
    observation: &StatusCommandError,
    on_usage: CommandOutput,
    on_config: CommandOutput,
    on_selection: CommandOutput,
    on_observation: CommandOutput,
)
    requires
        call_ensures(usage_exit, (usage,), on_usage),
        call_ensures(config_exit, (config,), on_config),
        call_ensures(select_error_exit, (selection,), on_selection),
        call_ensures(status_error_exit, (observation,), on_observation),
    ensures
        on_usage.exit == 2,
        on_config.exit == 2,
        on_selection.exit == 2,
        on_observation.exit == 3 <==> *observation is Supervisor,
        on_observation.exit == 2 <==> !(*observation is Supervisor),
        says_only(on_usage, OutputView::ErrorLine("error: "@ + usage.0@)),
        forall|message: String|
            call_ensures(ConfigError::message, (config,), message) ==> says_only(
                on_config,
                OutputView::ErrorLine("error: "@ + message@),
            ),
        forall|message: String|
            call_ensures(SelectError::message, (selection,), message) ==> says_only(
                on_selection,
                OutputView::ErrorLine("error: "@ + message@),
            ),
        forall|message: String|
            call_ensures(StatusCommandError::message, (observation,), message) ==> says_only(
                on_observation,
                OutputView::ErrorLine("error: "@ + message@),
            ),
{
    single_outputs_are_said_alone(on_usage);
    single_outputs_are_said_alone(on_config);
    single_outputs_are_said_alone(on_selection);
    single_outputs_are_said_alone(on_observation);
}

/// Whether a command prints one thing and nothing else.
pub open spec fn says_only(command: CommandOutput, output: OutputView) -> bool {
    command.outputs@.len() == 1 && command.outputs@[0]@ == output
}

proof fn single_outputs_are_said_alone(command: CommandOutput)
    ensures
        output_views(command.outputs@).len() == 1 ==> says_only(
            command,
            output_views(command.outputs@)[0],
        ),
{
    let views = output_views(command.outputs@);
    assert(views.len() == command.outputs@.len());
    if views.len() == 1 {
        assert(views[0] == command.outputs@[0]@);
    }
}

/// The document's JSON goes to stdout with a newline behind it and nothing
/// else, unless it is larger than 262144 bytes: then nothing of it is printed,
/// and the command fails with 3. An error ends the command instead.
pub proof fn status_json_is_printed_whole(
    result: &Result<StatusDocument, StatusCommandError>,
    json: &str,
    command: CommandOutput,
)
    requires
        call_ensures(run_status, (result, Some(json)), command),
    ensures
        result matches Err(error) ==> command.exit == if error is Supervisor {
            3int
        } else {
            2
        } && command.outputs@.len() == 1 && command.outputs@[0]@ is ErrorLine,
        result is Ok && vstd::utf8::encode_utf8(json@ + "\n"@).len() <= 262_144 ==> command.exit
            == 0 && says_only(command, OutputView::Text(json@ + "\n"@)),
        result is Ok && vstd::utf8::encode_utf8(json@ + "\n"@).len() > 262_144 ==> command.exit
            == 3 && command.outputs@.len() == 1 && command.outputs@[0]@ is ErrorLine,
{
    single_outputs_are_said_alone(command);
}

/// The document for human eyes has a line with the counters, then one line for
/// each Connection in their order, and ends with 0 whatever their health. Each
/// line starts with the Connection's id and ends with its error, or a dash.
pub proof fn status_text_has_a_line_per_connection(
    result: &Result<StatusDocument, StatusCommandError>,
    command: CommandOutput,
    i: int,
)
    requires
        call_ensures(run_status, (result, Option::<&str>::None), command),
        result is Ok,
        0 <= i < result->Ok_0.connections@.len(),
    ensures
        command.exit == 0,
        command.outputs@.len() == 1 + result->Ok_0.connections@.len(),
        command.outputs@[0]@ == OutputView::Line(
            text::digits(result->Ok_0.running as nat) + " running, "@ + text::digits(
                result->Ok_0.starting as nat,
            ) + " starting, "@ + text::digits(result->Ok_0.error as nat) + " error, "@
                + text::digits(result->Ok_0.stopped as nat) + " stopped (of "@ + text::digits(
                result->Ok_0.total as nat,
            ) + ")"@,
        ),
        command.outputs@[i + 1]@ matches OutputView::Line(line) && {
            let row = result->Ok_0.connections@[i];
            let end = if row.error is Some {
                row.error->0.detail@
            } else {
                "-"@
            };
            &&& row.id@.is_prefix_of(line)
            &&& end.len() <= line.len()
            &&& line.skip(line.len() - end.len()) == end
        },
{
    let document = result->Ok_0;
    let views = output_views(command.outputs@);
    assert(views == status_lines(document));
    assert(views.len() == command.outputs@.len());
    assert(views[0] == command.outputs@[0]@);
    assert(views[i + 1] == command.outputs@[i + 1]@);
    let row = document.connections@[i];
    let line = status_line(row);
    assert(views[i + 1] == OutputView::Line(line));
    let end = if row.error is Some {
        row.error->0.detail@
    } else {
        "-"@
    };
    assert(line.take(row.id@.len() as int) =~= row.id@);
    assert(line.skip(line.len() - end.len()) =~= end);
}

/// A success goes to stdout, anything else to stderr, on a line that starts
/// with the Connection's id. A failure tells its code and its message.
pub proof fn only_successes_go_to_stdout(target: &TargetOutcome, output: Output)
    requires
        call_ensures(print_target_outcome, (target,), output),
    ensures
        output is Line <==> target.result is Succeeded,
        output is ErrorLine <==> !(target.result is Succeeded),
        target.result is Succeeded ==> output@ == OutputView::Line(target.id@ + ": ok"@),
        target.result is SkippedDisabled ==> output@ == OutputView::ErrorLine(
            target.id@ + ": skipped (disabled)"@,
        ),
        target.result is RefusedDisabled ==> (output@ matches OutputView::ErrorLine(line)
            && target.id@.is_prefix_of(line) && line != target.id@ + ": skipped (disabled)"@),
        target.result matches TargetResult::Failed { code, message } ==> forall|word: &'static str|
            call_ensures(error_code_label, (code,), word) ==> output@ == OutputView::ErrorLine(
                target.id@ + ": failed ("@ + word@ + "): "@ + message@,
            ),
        target.result matches TargetResult::Dependency { message } ==> output@
            == OutputView::ErrorLine(target.id@ + ": dependency error: "@ + message@),
{
    if target.result is RefusedDisabled {
        reveal_strlit(": refused \u{2014} connection is disabled");
        reveal_strlit(": skipped (disabled)");
        let refused = target.id@ + ": refused \u{2014} connection is disabled"@;
        let skipped = target.id@ + ": skipped (disabled)"@;
        let n = target.id@.len() as int;
        assert(refused.take(n) =~= target.id@);
        assert(refused[n + 2] == 'r' && skipped[n + 2] == 's');
    }
}

/// A batch has one line for each target in their order, then a line with how
/// many succeeded, were skipped, and failed for whatever reason; and it ends
/// with the code of what happened. A selector that names nothing ends with 2.
pub proof fn batches_have_a_line_per_target(
    result: &Result<BatchOutcome, SelectError>,
    command: CommandOutput,
)
    requires
        call_ensures(run_mutate, (result,), command),
    ensures
        result is Err ==> command.exit == 2 && command.outputs@.len() == 1
            && command.outputs@[0]@ is ErrorLine,
        result matches Ok(outcome) ==> {
            &&& command.outputs@.len() == outcome.targets@.len() + 1
            &&& forall|i: int, output: Output|
                0 <= i < outcome.targets@.len() && #[trigger] call_ensures(
                    print_target_outcome,
                    (&outcome.targets@[i],),
                    output,
                ) ==> command.outputs@[i]@ == output@
            &&& forall|exit: i32|
                call_ensures(exit_for_batch, (&outcome,), exit) ==> command.exit == exit
            &&& forall|succeeded: usize, skipped: usize, failed: usize, dependency: usize|
                #![trigger call_ensures(BatchOutcome::succeeded_count, (&outcome,), succeeded),
                    call_ensures(BatchOutcome::skipped_count, (&outcome,), skipped),
                    call_ensures(BatchOutcome::failed_count, (&outcome,), failed),
                    call_ensures(BatchOutcome::dependency_count, (&outcome,), dependency)]
                call_ensures(BatchOutcome::succeeded_count, (&outcome,), succeeded)
                    && call_ensures(BatchOutcome::skipped_count, (&outcome,), skipped)
                    && call_ensures(BatchOutcome::failed_count, (&outcome,), failed)
                    && call_ensures(BatchOutcome::dependency_count, (&outcome,), dependency)
                    ==> command.outputs@[outcome.targets@.len() as int]@ == OutputView::Line(
                    text::digits(succeeded as nat) + " succeeded, "@ + text::digits(
                        skipped as nat,
                    ) + " skipped, "@ + text::digits((failed + dependency) as nat) + " failed"@,
                )
        },
{
    let views = output_views(command.outputs@);
    assert(views.len() == command.outputs@.len());
    if result is Ok {
        let outcome = result->Ok_0;
        assert(views == batch_lines(outcome.targets@));
        assert forall|i: int, output: Output|
            0 <= i < outcome.targets@.len() && #[trigger] call_ensures(
                print_target_outcome,
                (&outcome.targets@[i],),
                output,
            ) implies command.outputs@[i]@ == output@ by {
            assert(views[i] == command.outputs@[i]@);
        }
        assert(views[outcome.targets@.len() as int]
            == command.outputs@[outcome.targets@.len() as int]@);
    } else {
        single_outputs_are_said_alone(command);
    }
}

/// `logs` needs at least one line.
pub proof fn logs_need_a_line(lines: u32, result: Result<(), UsageError>)
    requires
        call_ensures(check_lines, (lines,), result),
    ensures
        result is Err <==> lines == 0,
{
}

/// The journal's bytes go to stdout as they are. Where there are none, stderr
/// says so and the command succeeds all the same; a journal that cannot be read
/// ends it with 3, an id that stands for no unit with 2.
pub proof fn journal_bytes_are_printed_as_they_are(
    id: &str,
    result: Result<Dump, LogsCommandError>,
    command: CommandOutput,
)
    requires
        call_ensures(run_logs, (id, result), command),
    ensures
        result matches Ok(Dump::Bytes(bytes)) ==> command.exit == 0 && says_only(
            command,
            OutputView::Bytes(bytes@),
        ),
        result matches Ok(Dump::Empty) ==> command.exit == 0 && command.outputs@.len() == 1
            && command.outputs@[0]@ is ErrorLine,
        result matches Err(error) ==> command.exit == if error is Journal {
            3int
        } else {
            2
        } && command.outputs@.len() == 1 && command.outputs@[0]@ is ErrorLine,
{
    single_outputs_are_said_alone(command);
}

/// A fine report ends with 0 and any other with 3. As JSON it goes to stdout
/// with a newline behind it and nothing else, unless it is larger than 65536
/// bytes: then nothing of it is printed, and the command ends with 3.
pub proof fn reports_end_with_their_verdict(
    report: &DoctorReport,
    json: &str,
    as_text: CommandOutput,
    as_json: CommandOutput,
)
    requires
        call_ensures(run_doctor, (report, Option::<&str>::None), as_text),
        call_ensures(run_doctor, (report, Some(json)), as_json),
    ensures
        as_text.exit == if report.ok {
            0int
        } else {
            3
        },
        ({
            let fits = vstd::utf8::encode_utf8(json@ + "\n"@).len() <= 65_536;
            &&& fits ==> says_only(as_json, OutputView::Text(json@ + "\n"@)) && as_json.exit
                == if report.ok {
                0int
            } else {
                3
            }
            &&& !fits ==> as_json.exit == 3 && as_json.outputs@.len() == 1
                && as_json.outputs@[0]@ is ErrorLine
        }),
        as_text.outputs@.len() == report.checks@.len() + 1,
        as_text.outputs@[report.checks@.len() as int]@ == OutputView::Line(
            if report.ok {
                "ok"@
            } else {
                "FAILED"@
            },
        ),
        forall|i: int|
            0 <= i < report.checks@.len() ==> (#[trigger] as_text.outputs@[i])@
                == OutputView::Line(
                "["@ + match report.checks@[i].status {
                    CheckStatus::Pass => "PASS"@,
                    CheckStatus::Warn => "WARN"@,
                    CheckStatus::Fail => "FAIL"@,
                } + "] "@ + report.checks@[i].id@ + ": "@ + report.checks@[i].detail@
                    + match report.checks@[i].hint {
                    Some(hint) => " (hint: "@ + hint@ + ")"@,
                    None => Seq::empty(),
                },
            ),
{
    single_outputs_are_said_alone(as_json);
    let views = output_views(as_text.outputs@);
    assert(views == doctor_lines(*report));
    assert(views.len() == as_text.outputs@.len());
    assert(views[report.checks@.len() as int] == as_text.outputs@[report.checks@.len() as int]@);
    assert forall|i: int| 0 <= i < report.checks@.len() implies (#[trigger] as_text.outputs@[i])@
        == OutputView::Line(
        "["@ + match report.checks@[i].status {
            CheckStatus::Pass => "PASS"@,
            CheckStatus::Warn => "WARN"@,
            CheckStatus::Fail => "FAIL"@,
        } + "] "@ + report.checks@[i].id@ + ": "@ + report.checks@[i].detail@
            + match report.checks@[i].hint {
            Some(hint) => " (hint: "@ + hint@ + ")"@,
            None => Seq::empty(),
        },
    ) by {
        let row = report.checks@[i];
        assert(views[i] == as_text.outputs@[i]@);
        let start = "["@ + check_status_text(row.status) + "] "@ + row.id@ + ": "@ + row.detail@;
        if row.hint is Some {
            assert(check_line(row) =~= start + (" (hint: "@ + row.hint->0@ + ")"@));
        } else {
            assert(check_line(row) =~= start + Seq::<char>::empty());
        }
    }
}

/// A Connection's line shows its id, its state, its port and its owner in
/// columns, and then its error.
pub proof fn status_lines_show_columns(
    result: &Result<StatusDocument, StatusCommandError>,
    command: CommandOutput,
    i: int,
    state: &'static str,
    source: &'static str,
)
    requires
        call_ensures(run_status, (result, Option::<&str>::None), command),
        result is Ok,
        0 <= i < result->Ok_0.connections@.len(),
        call_ensures(state_label, (result->Ok_0.connections@[i].state,), state),
        call_ensures(source_label, (result->Ok_0.connections@[i].source,), source),
    ensures
        ({
            let row = result->Ok_0.connections@[i];
            let columns = text::left_aligned(row.id@, 20) + " "@ + text::left_aligned(state@, 9)
                + " "@ + text::left_aligned(text::digits(row.port as nat), 6) + " "@
                + text::left_aligned(source@, 5) + " "@;
            command.outputs@[i + 1]@ == OutputView::Line(
                columns + if row.error is Some {
                    row.error->0.detail@
                } else {
                    "-"@
                },
            )
        }),
{
    let views = output_views(command.outputs@);
    assert(views == status_lines(result->Ok_0));
    assert(views.len() == command.outputs@.len());
    assert(views[i + 1] == command.outputs@[i + 1]@);
}

/// What does not fit is told with its limit, and an empty journal with its
/// unit; a journal that cannot be read points to `doctor`.
pub proof fn refusals_to_print_are_explained(
    result: &Result<StatusDocument, StatusCommandError>,
    report: &DoctorReport,
    json: &str,
    id: &str,
    error: LogsCommandError,
    status: CommandOutput,
    doctor: CommandOutput,
    empty: CommandOutput,
    failed: CommandOutput,
    message: String,
)
    requires
        call_ensures(run_status, (result, Some(json)), status),
        call_ensures(run_doctor, (report, Some(json)), doctor),
        call_ensures(run_logs, (id, Ok(Dump::Empty)), empty),
        call_ensures(run_logs, (id, Err(error)), failed),
        call_ensures(LogsCommandError::message, (&error,), message),
    ensures
        result is Ok && status.exit == 3 ==> says_only(
            status,
            OutputView::ErrorLine(
                "error: "@ + ("status document"@ + " exceeds maximum allowed output size ("@
                    + text::digits(262_144) + " bytes)"@),
            ),
        ),
        vstd::utf8::encode_utf8(json@ + "\n"@).len() > 65_536 ==> says_only(
            doctor,
            OutputView::ErrorLine(
                "error: "@ + ("doctor report"@ + " exceeds maximum allowed output size ("@
                    + text::digits(65_536) + " bytes)"@),
            ),
        ),
        model::unit_name_of(id@) matches Ok(unit) ==> says_only(
            empty,
            OutputView::ErrorLine(
                "no journal entries for unit "@ + unit + " (never started, vacuumed, or empty)"@,
            ),
        ),
        model::unit_name_of(id@) is Err ==> says_only(
            empty,
            OutputView::ErrorLine(
                "no journal entries for `"@ + id@ + "` (never started, vacuumed, or empty)"@,
            ),
        ),
        error is Journal ==> says_only(
            failed,
            OutputView::ErrorLine(
                "error: "@ + (message@ + " (run `cloud-sql-tracker doctor` for details)"@),
            ),
        ),
        !(error is Journal) ==> says_only(failed, OutputView::ErrorLine("error: "@ + message@)),
{
    single_outputs_are_said_alone(status);
    single_outputs_are_said_alone(doctor);
    single_outputs_are_said_alone(empty);
    single_outputs_are_said_alone(failed);
}

} // verus!
