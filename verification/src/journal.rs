//! The user journal: the `journalctl` calls behind `logs` and Doctor's
//! smoke check, and what their outcomes mean.

use vstd::prelude::*;

use crate::model::{CheckRow, CheckRowView, CheckStatus, UnitName};
use crate::text;
use crate::text::CharSet;

verus! {

pub const JOURNALCTL_BIN: &'static str = "journalctl";

pub const JOURNAL_USER_HINT: &'static str =
    "Check that a systemd --user session is active (e.g. `loginctl enable-linger $USER`) and that journald is running.";

/// A journal read.
#[derive(Debug, PartialEq, Eq)]
pub enum Dump {
    /// No lines matched.
    Empty,
    /// What journalctl wrote, unchanged.
    Bytes(Vec<u8>),
}

/// Why a journal read could not run.
#[derive(Debug, PartialEq, Eq)]
pub enum JournalError {
    /// `journalctl` is not on `PATH`.
    NotFound,
    /// `journalctl` could not be run, or failed.
    Failed { detail: String },
}

impl JournalError {
    pub open spec fn text(self) -> Seq<char> {
        match self {
            JournalError::NotFound => "journalctl not found on PATH"@,
            JournalError::Failed { detail } => "journalctl failed: "@ + detail@,
        }
    }

    /// The error in words.
    pub fn message(&self) -> (message: String)
        ensures
            message@ == self.text(),
    {
        match self {
            JournalError::NotFound => "journalctl not found on PATH".to_owned(),
            JournalError::Failed { detail } => text::concat(
                "journalctl failed: ",
                detail.as_str(),
            ),
        }
    }
}

/// What one run of `journalctl` left behind.
#[derive(Debug, PartialEq, Eq)]
pub struct JournalctlOutput {
    pub success: bool,
    /// The exit status in words.
    pub status: String,
    pub stdout: Vec<u8>,
    pub stderr: Vec<u8>,
}

/// Why `journalctl` could not be started.
#[derive(Debug, PartialEq, Eq)]
pub enum SpawnFailure {
    NotFound,
    Other { detail: String },
}

/// The arguments of a journal dump.
pub open spec fn dump_argv(unit: Seq<char>, lines: u32) -> Seq<Seq<char>> {
    seq![
        "--user"@,
        "--unit="@ + unit,
        "--no-pager"@,
        "--quiet"@,
        "-n"@,
        text::digits(lines as nat),
        "-o"@,
        "short-iso"@,
    ]
}

/// The arguments that dump a unit's most recent lines.
pub fn dump_args(unit: &UnitName, lines: u32) -> (args: Vec<String>)
    ensures
        text::views(args@) == dump_argv(unit@, lines),
{
    let mut args: Vec<String> = Vec::new();
    args.push("--user".to_owned());
    args.push(text::concat("--unit=", unit.as_str()));
    args.push("--no-pager".to_owned());
    args.push("--quiet".to_owned());
    args.push("-n".to_owned());
    args.push(text::decimal(lines as u64));
    args.push("-o".to_owned());
    args.push("short-iso".to_owned());
    assert(text::views(args@) =~= dump_argv(unit@, lines));
    args
}

/// The arguments of Doctor's smoke check.
pub fn journal_user_args() -> (args: Vec<String>)
    ensures
        text::views(args@) == seq!["--user"@, "-n"@, "0"@, "--no-pager"@],
{
    let mut args: Vec<String> = Vec::new();
    args.push("--user".to_owned());
    args.push("-n".to_owned());
    args.push("0".to_owned());
    args.push("--no-pager".to_owned());
    assert(text::views(args@) =~= seq!["--user"@, "-n"@, "0"@, "--no-pager"@]);
    args
}

/// The whitespace of ASCII: space, tab, newline, form feed, carriage return.
pub open spec fn blank_byte(byte: u8) -> bool {
    byte == 0x20 || byte == 0x09 || byte == 0x0a || byte == 0x0c || byte == 0x0d
}

/// Nothing but whitespace.
pub open spec fn blank(bytes: Seq<u8>) -> bool {
    forall|i: int| 0 <= i < bytes.len() ==> blank_byte(#[trigger] bytes[i])
}

/// What journalctl wrote: no lines where it is all whitespace, else every
/// byte of it.
pub fn dump_from_output(stdout: Vec<u8>) -> (dump: Dump)
    ensures
        dump == if blank(stdout@) {
            Dump::Empty
        } else {
            Dump::Bytes(stdout)
        },
{
    let mut i: usize = 0;
    while i < stdout.len()
        invariant
            i <= stdout@.len(),
            forall|k: int| 0 <= k < i ==> blank_byte(#[trigger] stdout@[k]),
        decreases stdout@.len() - i,
    {
        let byte: u8 = stdout[i];
        if !(byte == 0x20 || byte == 0x09 || byte == 0x0a || byte == 0x0c || byte == 0x0d) {
            assert(!blank_byte(stdout@[i as int]));
            return Dump::Bytes(stdout);
        }
        i += 1;
    }
    Dump::Empty
}

/// Why a run failed, from what it wrote to stderr: the trimmed text, or the
/// exit status where there is none.
pub open spec fn failure_text(stderr: Seq<char>, status: Seq<char>) -> Seq<char> {
    let message = text::trimmed(stderr, CharSet::Whitespace);
    if message.len() == 0 {
        "journalctl exited with status "@ + status
    } else {
        message
    }
}

/// Why a run failed, from the text of its stderr and its exit status.
pub fn failure_detail_from_text(stderr: &str, status: &str) -> (detail: String)
    ensures
        detail@ == failure_text(stderr@, status@),
{
    let message = text::trim(stderr, CharSet::Whitespace);
    if text::chars_of(message.as_str()).len() == 0 {
        text::concat("journalctl exited with status ", status)
    } else {
        message
    }
}

/// Why a run failed, from what it left behind.
pub fn journalctl_failure_detail(output: &JournalctlOutput) -> (detail: String)
    ensures
        detail@ == failure_text(text::utf8_lossy(output.stderr@), output.status@),
{
    let stderr = text::lossy(&output.stderr);
    failure_detail_from_text(stderr.as_str(), output.status.as_str())
}

/// What a run of `journalctl` comes to: what it wrote, or why it failed.
pub fn run_journalctl(run: Result<JournalctlOutput, SpawnFailure>) -> (result: Result<
    Vec<u8>,
    JournalError,
>)
    ensures
        match run {
            Ok(output) => if output.success {
                result == Ok::<Vec<u8>, JournalError>(output.stdout)
            } else {
                result matches Err(JournalError::Failed { detail }) && detail@ == failure_text(
                    text::utf8_lossy(output.stderr@),
                    output.status@,
                )
            },
            Err(SpawnFailure::NotFound) => result == Err::<Vec<u8>, JournalError>(
                JournalError::NotFound,
            ),
            Err(SpawnFailure::Other { detail }) => result == Err::<Vec<u8>, JournalError>(
                JournalError::Failed { detail },
            ),
        },
{
    match run {
        Ok(output) => if output.success {
            Ok(output.stdout)
        } else {
            Err(JournalError::Failed { detail: journalctl_failure_detail(&output) })
        },
        Err(SpawnFailure::NotFound) => Err(JournalError::NotFound),
        Err(SpawnFailure::Other { detail }) => Err(JournalError::Failed { detail }),
    }
}

/// The journal dump that a finished read gives.
pub fn dump(read: Result<Vec<u8>, JournalError>) -> (result: Result<Dump, JournalError>)
    ensures
        result == match read {
            Ok(stdout) => if blank(stdout@) {
                Ok(Dump::Empty)
            } else {
                Ok(Dump::Bytes(stdout))
            },
            Err(error) => Err(error),
        },
{
    match read {
        Ok(stdout) => Ok(dump_from_output(stdout)),
        Err(error) => Err(error),
    }
}

pub open spec fn journal_user_row(error: Option<Seq<char>>) -> CheckRowView {
    match error {
        None => CheckRowView {
            id: "journal_user"@,
            status: CheckStatus::Pass,
            detail: "user journal is accessible"@,
            hint: None,
        },
        Some(detail) => CheckRowView {
            id: "journal_user"@,
            status: CheckStatus::Fail,
            detail,
            hint: Some(JOURNAL_USER_HINT@),
        },
    }
}

pub open spec fn error_text(read: Result<Vec<u8>, JournalError>) -> Option<Seq<char>> {
    match read {
        Ok(_) => None,
        Err(error) => Some(error.text()),
    }
}

/// What a run of `journalctl` reports as its error.
pub open spec fn run_error_text(run: Result<JournalctlOutput, SpawnFailure>) -> Option<Seq<char>> {
    match run {
        Ok(output) => if output.success {
            None
        } else {
            Some(
                "journalctl failed: "@ + failure_text(
                    text::utf8_lossy(output.stderr@),
                    output.status@,
                ),
            )
        },
        Err(SpawnFailure::NotFound) => Some("journalctl not found on PATH"@),
        Err(SpawnFailure::Other { detail }) => Some("journalctl failed: "@ + detail@),
    }
}

/// Doctor's check that the user journal can be read, given the outcome of a
/// read.
pub fn check_row_for_journal_user(read: &Result<Vec<u8>, JournalError>) -> (row: CheckRow)
    ensures
        row@ == journal_user_row(error_text(*read)),
{
    match read {
        Ok(_) => CheckRow {
            id: "journal_user".to_owned(),
            status: CheckStatus::Pass,
            detail: "user journal is accessible".to_owned(),
            hint: None,
        },
        Err(error) => CheckRow {
            id: "journal_user".to_owned(),
            status: CheckStatus::Fail,
            detail: error.message(),
            hint: Some(JOURNAL_USER_HINT.to_owned()),
        },
    }
}

/// Doctor's check that the user journal can be read, given the smoke run.
pub fn journal_user_check(run: Result<JournalctlOutput, SpawnFailure>) -> (row: CheckRow)
    ensures
        row@ == journal_user_row(run_error_text(run)),
{
    check_row_for_journal_user(&run_journalctl(run))
}

// ---------------------------------------------------------------------------
// Laws.
// ---------------------------------------------------------------------------

/// A dump asks the user journal for one unit's most recent lines, as many as
/// are wanted, without a pager and in a fixed format.
pub proof fn dumps_ask_for_one_unit(unit: &UnitName, lines: u32, args: Vec<String>)
    requires
        call_ensures(dump_args, (unit, lines), args),
    ensures
        text::views(args@).contains("--user"@),
        text::views(args@).contains("--unit="@ + unit@),
        text::views(args@).contains("--no-pager"@),
        text::views(args@).contains("--quiet"@),
        args@.len() == 8,
        args@[4]@ == "-n"@,
        text::numeric(args@[5]@),
        text::value(args@[5]@) == lines,
        args@[6]@ == "-o"@,
        args@[7]@ == "short-iso"@,
{
    let all = text::views(args@);
    assert(all == dump_argv(unit@, lines));
    assert(all.len() == args@.len());
    assert(all[0] == "--user"@ && all[1] == "--unit="@ + unit@ && all[2] == "--no-pager"@ && all[3]
        == "--quiet"@);
    assert(all[4] == args@[4]@ && all[5] == args@[5]@ && all[6] == args@[6]@ && all[7]
        == args@[7]@);
    text::decimals_are_read_back(lines as nat);
}

/// Doctor's smoke check reads nothing of the user journal.
pub proof fn smoke_checks_read_nothing(args: Vec<String>)
    requires
        call_ensures(journal_user_args, (), args),
    ensures
        args@.len() == 4,
        args@[0]@ == "--user"@,
        args@[1]@ == "-n"@,
        args@[2]@ == "0"@,
        args@[3]@ == "--no-pager"@,
{
    let all = text::views(args@);
    assert(all == seq!["--user"@, "-n"@, "0"@, "--no-pager"@]);
    assert(all.len() == args@.len());
    assert(all[0] == args@[0]@ && all[1] == args@[1]@ && all[2] == args@[2]@ && all[3]
        == args@[3]@);
}

/// Whether a byte is a space, a tab, a newline, a form feed or a carriage
/// return.
pub open spec fn shows_nothing(byte: u8) -> bool {
    byte == 32 || byte == 9 || byte == 10 || byte == 12 || byte == 13
}

/// What journalctl wrote is handed on byte by byte. Only output of nothing but
/// white space counts as no lines, and only a failed read as an error.
pub proof fn dumps_are_handed_on_unchanged(
    read: Result<Vec<u8>, JournalError>,
    result: Result<Dump, JournalError>,
)
    requires
        call_ensures(dump, (read,), result),
    ensures
        read matches Err(error) ==> result == Err::<Dump, JournalError>(error),
        read matches Ok(stdout) ==> match result {
            Ok(Dump::Bytes(bytes)) => bytes@ == stdout@ && exists|i: int|
                0 <= i < stdout@.len() && !shows_nothing(#[trigger] stdout@[i]),
            Ok(Dump::Empty) => forall|i: int|
                0 <= i < stdout@.len() ==> shows_nothing(#[trigger] stdout@[i]),
            Err(_) => false,
        },
{
    if read is Ok {
        let stdout = read->Ok_0@;
        if blank(stdout) {
            assert forall|i: int| 0 <= i < stdout.len() implies shows_nothing(
                #[trigger] stdout[i],
            ) by {
                assert(blank_byte(stdout[i]));
            }
        } else {
            let i = choose|i: int| 0 <= i < stdout.len() && !blank_byte(#[trigger] stdout[i]);
            assert(!shows_nothing(stdout[i]));
        }
    }
}

/// A run that succeeded gives its output, and a run that did not is an error
/// whatever it wrote; a missing program is told from one that could not run.
pub proof fn only_successful_runs_give_output(
    run: Result<JournalctlOutput, SpawnFailure>,
    result: Result<Vec<u8>, JournalError>,
)
    requires
        call_ensures(run_journalctl, (run,), result),
    ensures
        result is Ok <==> run is Ok && run->Ok_0.success,
        result matches Ok(bytes) ==> bytes@ == run->Ok_0.stdout@,
        result == Err::<Vec<u8>, JournalError>(JournalError::NotFound) <==> run == Err::<
            JournalctlOutput,
            SpawnFailure,
        >(SpawnFailure::NotFound),
        run matches Err(SpawnFailure::Other { detail }) ==> result == Err::<Vec<u8>, JournalError>(
            JournalError::Failed { detail },
        ),
        run matches Ok(output) ==> (!output.success ==> (result matches Err(
            JournalError::Failed { detail },
        ) && forall|reason: String|
            call_ensures(journalctl_failure_detail, (&output,), reason) ==> detail@ == reason@)),
{
}

/// A failed run is explained by what it wrote to stderr, without the white
/// space around it, and by its exit status where it wrote nothing.
pub proof fn failures_are_explained(
    stderr: &str,
    status: &str,
    message: String,
    detail: String,
)
    requires
        call_ensures(failure_detail_from_text, (stderr, status), detail),
        call_ensures(text::trim, (stderr, CharSet::Whitespace), message),
    ensures
        message@.len() > 0 ==> detail@ == message@,
        message@.len() == 0 ==> detail@ == "journalctl exited with status "@ + status@,
{
}

/// Doctor's check of the journal passes exactly where its run succeeded.
pub proof fn journals_pass_where_they_can_be_read(
    run: Result<JournalctlOutput, SpawnFailure>,
    row: CheckRow,
)
    requires
        call_ensures(journal_user_check, (run,), row),
    ensures
        row.id@ == "journal_user"@,
        row.status == CheckStatus::Pass <==> run is Ok && run->Ok_0.success,
        row.status == CheckStatus::Fail <==> row.hint is Some,
        row.status != CheckStatus::Warn,
        forall|read: Result<Vec<u8>, JournalError>, message: String|
            #![trigger call_ensures(run_journalctl, (run,), read), call_ensures(
                JournalError::message,
                (&read->Err_0,),
                message,
            )]
            call_ensures(run_journalctl, (run,), read) && read is Err && call_ensures(
                JournalError::message,
                (&read->Err_0,),
                message,
            ) ==> row.detail@ == message@,
{
}

/// A read that failed is told why.
pub proof fn journal_errors_tell_why(error: &JournalError, message: String)
    requires
        call_ensures(JournalError::message, (error,), message),
    ensures
        error is NotFound ==> message@ == "journalctl not found on PATH"@,
        error matches JournalError::Failed { detail } ==> message@ == "journalctl failed: "@
            + detail@,
{
}

/// What is explained of a failed run is the text of its stderr.
pub proof fn failed_runs_are_explained_by_their_stderr(
    output: &JournalctlOutput,
    stderr: &str,
    status: &str,
    detail: String,
    explained: String,
)
    requires
        call_ensures(journalctl_failure_detail, (output,), detail),
        stderr@ == text::utf8_lossy(output.stderr@),
        status@ == output.status@,
        call_ensures(failure_detail_from_text, (stderr, status), explained),
    ensures
        detail@ == explained@,
{
}

} // verus!
