//! What `cloud-sql-proxy -v` has to print to count as the proxy.

use vstd::prelude::*;

use crate::text;

verus! {

/// How long the version probe may take, in seconds.
pub const PROXY_VERSION_TIMEOUT_SECS: u64 = 2;

pub const MAX_PROXY_VERSION_TOKEN_LEN: usize = 128;

pub const PROXY_BIN_IDENTITY_HINT: &'static str =
    "The resolved binary did not identify as cloud-sql-proxy. Install cloud-sql-proxy, or set \"proxy_bin\" in connections.json to the real proxy path.";

pub const PROXY_BIN_PROBE_HINT: &'static str =
    "Could not read a version from the resolved binary. Install cloud-sql-proxy, or set \"proxy_bin\" in connections.json to a working proxy path.";

/// What precedes the version on its line.
pub const VERSION_MARKER: &'static str = "cloud-sql-proxy version ";

pub const IDENTITY_MISMATCH: &'static str = "output is not a cloud-sql-proxy version line";

/// Why the version probe failed.
#[derive(Debug, PartialEq, Eq)]
pub enum ProxyVersionError {
    /// The binary could not be started.
    SpawnFailed { detail: String },
    /// The binary could not be waited for.
    WaitFailed { detail: String },
    /// The binary did not exit in time.
    TimedOut,
    /// The binary exited with a failure.
    NonZeroExit { status: String },
    /// The output names no version of the proxy.
    IdentityMismatch { detail: String },
}

impl ProxyVersionError {
    pub open spec fn hint_text(self) -> Seq<char> {
        match self {
            ProxyVersionError::IdentityMismatch { .. } => PROXY_BIN_IDENTITY_HINT@,
            _ => PROXY_BIN_PROBE_HINT@,
        }
    }

    pub fn hint(&self) -> (hint: &'static str)
        ensures
            hint@ == self.hint_text(),
    {
        match self {
            ProxyVersionError::IdentityMismatch { .. } => PROXY_BIN_IDENTITY_HINT,
            ProxyVersionError::SpawnFailed { .. }
            | ProxyVersionError::WaitFailed { .. }
            | ProxyVersionError::TimedOut
            | ProxyVersionError::NonZeroExit { .. } => PROXY_BIN_PROBE_HINT,
        }
    }

    pub open spec fn text(self) -> Seq<char> {
        match self {
            ProxyVersionError::SpawnFailed { detail } => "could not run version probe: "@ + detail@,
            ProxyVersionError::WaitFailed { detail } => "could not wait for version probe: "@
                + detail@,
            ProxyVersionError::TimedOut => "version probe timed out after "@ + text::digits(
                PROXY_VERSION_TIMEOUT_SECS as nat,
            ) + "s"@,
            ProxyVersionError::NonZeroExit { status } => "version probe exited "@ + status@,
            ProxyVersionError::IdentityMismatch { detail } => detail@,
        }
    }

    /// The error in words.
    pub fn message(&self) -> (message: String)
        ensures
            message@ == self.text(),
    {
        match self {
            ProxyVersionError::SpawnFailed { detail } => text::concat(
                "could not run version probe: ",
                detail.as_str(),
            ),
            ProxyVersionError::WaitFailed { detail } => text::concat(
                "could not wait for version probe: ",
                detail.as_str(),
            ),
            ProxyVersionError::TimedOut => {
                let mut message = "version probe timed out after ".to_owned();
                message.append(text::decimal(PROXY_VERSION_TIMEOUT_SECS).as_str());
                message.append("s");
                message
            },
            ProxyVersionError::NonZeroExit { status } => text::concat(
                "version probe exited ",
                status.as_str(),
            ),
            ProxyVersionError::IdentityMismatch { detail } => detail.clone(),
        }
    }
}

/// How often the probe's process is tried to be started.
pub const SPAWN_ATTEMPTS: u64 = 10;

/// The number of the error "text file busy".
pub fn libc_etxtbsy() -> (errno: i32)
    ensures
        errno == 26,
{
    26
}

/// The pause in milliseconds before a failed start is tried again: a program
/// file that is still open for writing is worth another attempt, later each
/// time, and nothing else is.
pub open spec fn spawn_pause(attempt: u64, os_error: Option<i32>) -> Option<u64> {
    if os_error == Some(26i32) && attempt + 1 < SPAWN_ATTEMPTS {
        Some((5 + 5 * attempt) as u64)
    } else {
        None
    }
}

/// Whether to try again after attempt number `attempt`, counted from zero,
/// failed with an error of the system: the pause before the next attempt, or
/// nothing where the probe has to give up.
pub fn spawn_version_probe(attempt: u64, os_error: Option<i32>) -> (pause_ms: Option<u64>)
    ensures
        pause_ms == spawn_pause(attempt, os_error),
{
    let busy = match os_error {
        Some(errno) => errno == libc_etxtbsy(),
        None => false,
    };
    if busy && attempt < SPAWN_ATTEMPTS - 1 {
        Some(5 + 5 * attempt)
    } else {
        None
    }
}

/// What a finished probe left behind.
#[derive(Debug, PartialEq, Eq)]
pub struct ProxyVersionOutput {
    pub success: bool,
    /// The exit status in words.
    pub status: String,
    pub stdout: Vec<u8>,
    pub stderr: Vec<u8>,
}

/// How the probe's process ended, as far as it was waited for.
#[derive(Debug, PartialEq, Eq)]
pub enum ProbeWait {
    /// The process could not be started.
    SpawnFailed { detail: String },
    Finished(ProxyVersionOutput),
    /// The process could not be waited for.
    WaitFailed { detail: String },
    /// The process had not ended when the time was over.
    TimedOut,
    /// Whoever waited ended without a word.
    Disconnected,
}

pub const NO_WAIT_RESULT: &'static str = "version probe wait thread ended without a result";

/// What the end of the probe's process comes to.
pub fn run_proxy_version_command(wait: ProbeWait) -> (result: Result<
    ProxyVersionOutput,
    ProxyVersionError,
>)
    ensures
        match wait {
            ProbeWait::SpawnFailed { detail } => result == Err::<
                ProxyVersionOutput,
                ProxyVersionError,
            >(ProxyVersionError::SpawnFailed { detail }),
            ProbeWait::Finished(output) => result == Ok::<ProxyVersionOutput, ProxyVersionError>(
                output,
            ),
            ProbeWait::WaitFailed { detail } => result == Err::<
                ProxyVersionOutput,
                ProxyVersionError,
            >(ProxyVersionError::WaitFailed { detail }),
            ProbeWait::TimedOut => result == Err::<ProxyVersionOutput, ProxyVersionError>(
                ProxyVersionError::TimedOut,
            ),
            ProbeWait::Disconnected => result matches Err(
                ProxyVersionError::WaitFailed { detail },
            ) && detail@ == NO_WAIT_RESULT@,
        },
{
    match wait {
        ProbeWait::SpawnFailed { detail } => Err(ProxyVersionError::SpawnFailed { detail }),
        ProbeWait::Finished(output) => Ok(output),
        ProbeWait::WaitFailed { detail } => Err(ProxyVersionError::WaitFailed { detail }),
        ProbeWait::TimedOut => Err(ProxyVersionError::TimedOut),
        ProbeWait::Disconnected => Err(
            ProxyVersionError::WaitFailed { detail: NO_WAIT_RESULT.to_owned() },
        ),
    }
}

pub open spec fn printable_ascii(c: char) -> bool {
    ' ' <= c <= '~'
}

/// Printable ASCII with a digit in it, not too long.
pub open spec fn version_like(token: Seq<char>) -> bool {
    &&& 0 < token.len() <= MAX_PROXY_VERSION_TOKEN_LEN
    &&& forall|i: int| 0 <= i < token.len() ==> printable_ascii(#[trigger] token[i])
    &&& exists|i: int| 0 <= i < token.len() && text::ascii_digit(#[trigger] token[i])
}

/// The version that a line names: the first word behind the marker.
pub open spec fn line_version(line: Seq<char>) -> Option<Seq<char>> {
    match text::after_first(line, VERSION_MARKER@) {
        None => None,
        Some(rest) => if version_like(text::first_word_of(rest)) {
            Some(text::first_word_of(rest))
        } else {
            None
        },
    }
}

/// The version of the first line that names one.
pub open spec fn first_version(lines: Seq<Seq<char>>) -> Option<Seq<char>>
    decreases lines.len(),
{
    if lines.len() == 0 {
        None
    } else if line_version(lines[0]) is Some {
        line_version(lines[0])
    } else {
        first_version(lines.drop_first())
    }
}

/// The version that a text names.
pub open spec fn text_version(output: Seq<char>) -> Option<Seq<char>> {
    first_version(text::pieces(output, '\n'))
}

/// The version that a probe's two streams name: stdout before stderr.
pub open spec fn output_version(stdout: Seq<u8>, stderr: Seq<u8>) -> Option<Seq<char>> {
    if text_version(text::utf8_lossy(stdout)) is Some {
        text_version(text::utf8_lossy(stdout))
    } else {
        text_version(text::utf8_lossy(stderr))
    }
}

pub fn token_looks_like_version(token: &str) -> (yes: bool)
    ensures
        yes == version_like(token@),
{
    let chars = text::chars_of(token);
    if chars.len() == 0 || chars.len() > MAX_PROXY_VERSION_TOKEN_LEN {
        return false;
    }
    let mut has_digit = false;
    let mut i: usize = 0;
    while i < chars.len()
        invariant
            chars@ == token@,
            i <= chars@.len(),
            forall|k: int| 0 <= k < i ==> printable_ascii(#[trigger] token@[k]),
            has_digit == exists|k: int| 0 <= k < i && text::ascii_digit(#[trigger] token@[k]),
        decreases chars@.len() - i,
    {
        let c = chars[i];
        if !(' ' <= c && c <= '~') {
            assert(!printable_ascii(token@[i as int]));
            return false;
        }
        if text::is_ascii_digit(c) {
            assert(text::ascii_digit(token@[i as int]));
            has_digit = true;
        }
        i += 1;
    }
    has_digit
}

/// The version that a line names.
pub fn version_token_from_line(line: &str) -> (version: Option<String>)
    ensures
        text::option_view(version) == line_version(line@),
{
    match text::find_after(line, VERSION_MARKER) {
        None => None,
        Some(rest) => {
            let token = text::first_word(rest.as_str());
            if token_looks_like_version(token.as_str()) {
                Some(token)
            } else {
                None
            }
        },
    }
}

/// The version that a text names on one of its lines.
pub fn version_token_from_text(output: &str) -> (version: Option<String>)
    ensures
        text::option_view(version) == text_version(output@),
{
    let lines = text::split(output, '\n');
    let ghost model = text::pieces(output@, '\n');
    assert(model.skip(0) =~= model);
    let mut i: usize = 0;
    while i < lines.len()
        invariant
            model == text::pieces(output@, '\n'),
            model == text::views(lines@),
            i <= lines@.len(),
            first_version(model) == first_version(model.skip(i as int)),
        decreases lines@.len() - i,
    {
        assert(model.skip(i as int)[0] == lines@[i as int]@);
        let version = version_token_from_line(lines[i].as_str());
        if version.is_some() {
            return version;
        }
        assert(model.skip(i as int).drop_first() =~= model.skip(i + 1));
        i += 1;
    }
    None
}

/// The version that a stream names on one of its lines.
pub fn version_token_from_bytes(bytes: &Vec<u8>) -> (version: Option<String>)
    ensures
        text::option_view(version) == text_version(text::utf8_lossy(bytes@)),
{
    let output = text::lossy(bytes);
    version_token_from_text(output.as_str())
}

/// The version that a probe's streams name, or an identity mismatch.
pub fn parse_proxy_version_output(stdout: &Vec<u8>, stderr: &Vec<u8>) -> (result: Result<
    String,
    ProxyVersionError,
>)
    ensures
        match result {
            Ok(version) => output_version(stdout@, stderr@) == Some(version@),
            Err(error) => output_version(stdout@, stderr@) is None && (error matches
                ProxyVersionError::IdentityMismatch { detail } && detail@ == IDENTITY_MISMATCH@),
        },
{
    match version_token_from_bytes(stdout) {
        Some(version) => return Ok(version),
        None => {},
    }
    match version_token_from_bytes(stderr) {
        Some(version) => return Ok(version),
        None => {},
    }
    Err(ProxyVersionError::IdentityMismatch { detail: IDENTITY_MISMATCH.to_owned() })
}

/// What a version probe comes to, given how its process ended.
pub fn probe_proxy_version(run: Result<ProxyVersionOutput, ProxyVersionError>) -> (result: Result<
    String,
    ProxyVersionError,
>)
    ensures
        match run {
            Err(error) => result == Err::<String, ProxyVersionError>(error),
            Ok(output) => if !output.success {
                result == Err::<String, ProxyVersionError>(
                    ProxyVersionError::NonZeroExit { status: output.status },
                )
            } else {
                match result {
                    Ok(version) => output_version(output.stdout@, output.stderr@) == Some(version@),
                    Err(error) => output_version(output.stdout@, output.stderr@) is None && (
                    error matches ProxyVersionError::IdentityMismatch { detail } && detail@
                        == IDENTITY_MISMATCH@),
                }
            },
        },
{
    match run {
        Err(error) => Err(error),
        Ok(output) => if !output.success {
            Err(ProxyVersionError::NonZeroExit { status: output.status })
        } else {
            parse_proxy_version_output(&output.stdout, &output.stderr)
        },
    }
}

// ---------------------------------------------------------------------------
// Laws.
// ---------------------------------------------------------------------------

/// Every version that a text names is printable ASCII with a digit in it, and
/// not too long.
pub proof fn versions_look_like_versions(lines: Seq<Seq<char>>)
    requires
        first_version(lines) is Some,
    ensures
        version_like(first_version(lines)->0),
    decreases lines.len(),
{
    if line_version(lines[0]) is None {
        versions_look_like_versions(lines.drop_first());
    }
}

/// The marker is found wherever it stands in a line.
pub proof fn markers_are_found_behind_prefixes(
    prefix: Seq<char>,
    marker: Seq<char>,
    rest: Seq<char>,
)
    ensures
        text::after_first(prefix + marker + rest, marker) is Some,
    decreases prefix.len(),
{
    let line = prefix + marker + rest;
    if prefix.len() == 0 {
        assert(line.take(marker.len() as int) =~= marker);
    } else if !marker.is_prefix_of(line) {
        markers_are_found_behind_prefixes(prefix.drop_first(), marker, rest);
        assert(line.drop_first() =~= prefix.drop_first() + marker + rest);
    }
}

/// A version is one to 128 printable ASCII characters, of which one at least is
/// a digit.
pub proof fn versions_are_short_and_printable(token: &str, yes: bool)
    requires
        call_ensures(token_looks_like_version, (token,), yes),
    ensures
        yes <==> {
            &&& 1 <= token@.len() <= 128
            &&& forall|i: int|
                0 <= i < token@.len() ==> 0x20 <= (#[trigger] token@[i]) as int <= 0x7e
            &&& exists|i: int|
                0 <= i < token@.len() && 0x30 <= (#[trigger] token@[i]) as int <= 0x39
        },
{
    if version_like(token@) {
        assert forall|i: int| 0 <= i < token@.len() implies 0x20 <= (#[trigger] token@[i]) as int
            <= 0x7e by {
            assert(printable_ascii(token@[i]));
        }
        let i = choose|i: int| 0 <= i < token@.len() && text::ascii_digit(#[trigger] token@[i]);
        assert(0x30 <= token@[i] as int <= 0x39);
    }
    if 1 <= token@.len() <= 128 && (forall|i: int|
        0 <= i < token@.len() ==> 0x20 <= (#[trigger] token@[i]) as int <= 0x7e) && exists|i: int|
        0 <= i < token@.len() && 0x30 <= (#[trigger] token@[i]) as int <= 0x39 {
        assert forall|i: int| 0 <= i < token@.len() implies printable_ascii(
            #[trigger] token@[i],
        ) by {
            assert(0x20 <= token@[i] as int <= 0x7e);
        }
        let i = choose|i: int|
            0 <= i < token@.len() && 0x30 <= (#[trigger] token@[i]) as int <= 0x39;
        assert(text::ascii_digit(token@[i]));
    }
}

/// A line's version is the first word behind the first `cloud-sql-proxy
/// version ` in it, where that looks like a version; any other line has none.
pub proof fn versions_follow_the_marker(
    line: &str,
    rest: Option<String>,
    behind: &str,
    word: String,
    spelled: &str,
    looks: bool,
    version: Option<String>,
)
    requires
        call_ensures(version_token_from_line, (line,), version),
        call_ensures(text::find_after, (line, "cloud-sql-proxy version "), rest),
        rest matches Some(found) ==> behind@ == found@,
        call_ensures(text::first_word, (behind,), word),
        spelled@ == word@,
        call_ensures(token_looks_like_version, (spelled,), looks),
    ensures
        rest is None ==> version is None,
        rest is Some && !looks ==> version is None,
        rest is Some && looks ==> version is Some && version->0@ == word@,
{
}

proof fn the_first_version_comes_first(lines: Seq<Seq<char>>) -> (at: int)
    ensures
        match first_version(lines) {
            Some(version) => 0 <= at < lines.len() && line_version(lines[at]) == Some(version)
                && forall|j: int| 0 <= j < at ==> line_version(#[trigger] lines[j]) is None,
            None => forall|j: int| 0 <= j < lines.len() ==> line_version(#[trigger] lines[j]) is None,
        },
    decreases lines.len(),
{
    if lines.len() == 0 || line_version(lines[0]) is Some {
        0
    } else {
        let rest = lines.drop_first();
        let at = the_first_version_comes_first(rest);
        assert forall|j: int| 1 <= j < lines.len() implies #[trigger] lines[j] == rest[j - 1] by {}
        at + 1
    }
}

/// A text's version is that of the first of its lines that has one.
pub proof fn the_first_line_with_a_version_counts(
    output: &str,
    lines: Vec<String>,
    version: Option<String>,
) -> (at: int)
    requires
        call_ensures(version_token_from_text, (output,), version),
        call_ensures(text::split, (output, '\n'), lines),
    ensures
        match version {
            Some(version) => {
                &&& 0 <= at < lines@.len()
                &&& line_version(lines@[at]@) == Some(version@)
                &&& forall|j: int| 0 <= j < at ==> line_version((#[trigger] lines@[j])@) is None
            },
            None => forall|j: int|
                0 <= j < lines@.len() ==> line_version((#[trigger] lines@[j])@) is None,
        },
        forall|line: &str, named: Option<String>|
            #[trigger] call_ensures(version_token_from_line, (line,), named) ==> text::option_view(
                named,
            ) == line_version(line@),
{
    let pieces = text::pieces(output@, '\n');
    let at = the_first_version_comes_first(pieces);
    assert(pieces == text::views(lines@));
    assert(pieces.len() == lines@.len());
    assert forall|j: int| 0 <= j < lines@.len() implies pieces[j] == (#[trigger] lines@[j])@ by {}
    if version is Some {
        assert(pieces[at] == lines@[at]@);
        assert forall|j: int| 0 <= j < at implies line_version((#[trigger] lines@[j])@) is None by {
            assert(pieces[j] == lines@[j]@);
        }
    } else {
        assert forall|j: int| 0 <= j < lines@.len() implies line_version(
            (#[trigger] lines@[j])@,
        ) is None by {
            assert(pieces[j] == lines@[j]@);
        }
    }
    at
}

/// A probe's version is stdout's, and stderr's only where stdout has none; a
/// probe without any is not the proxy's.
pub proof fn stdout_comes_before_stderr(
    stdout: &Vec<u8>,
    stderr: &Vec<u8>,
    on_stdout: Option<String>,
    on_stderr: Option<String>,
    result: Result<String, ProxyVersionError>,
)
    requires
        call_ensures(version_token_from_bytes, (stdout,), on_stdout),
        call_ensures(version_token_from_bytes, (stderr,), on_stderr),
        call_ensures(parse_proxy_version_output, (stdout, stderr), result),
    ensures
        on_stdout matches Some(version) ==> (result matches Ok(found) && found@ == version@),
        on_stdout is None ==> (on_stderr matches Some(version) ==> (result matches Ok(found)
            && found@ == version@)),
        on_stdout is None && on_stderr is None ==> result is Err
            && result->Err_0 is IdentityMismatch,
{
}

/// A stream's version is that of its text.
pub proof fn streams_are_read_as_text(
    bytes: &Vec<u8>,
    output: &str,
    from_bytes: Option<String>,
    from_text: Option<String>,
)
    requires
        call_ensures(version_token_from_bytes, (bytes,), from_bytes),
        call_ensures(version_token_from_text, (output,), from_text),
        output@ == text::utf8_lossy(bytes@),
    ensures
        from_bytes is Some <==> from_text is Some,
        from_bytes matches Some(version) ==> version@ == from_text->0@,
{
}

/// A probe has a version only where its process succeeded: a failed process is
/// an error with its status whatever it printed.
pub proof fn only_successful_probes_have_versions(
    run: Result<ProxyVersionOutput, ProxyVersionError>,
    result: Result<String, ProxyVersionError>,
)
    requires
        call_ensures(probe_proxy_version, (run,), result),
    ensures
        result is Ok ==> run is Ok && run->Ok_0.success,
        run matches Err(error) ==> result == Err::<String, ProxyVersionError>(error),
        run matches Ok(output) ==> (!output.success ==> result == Err::<String, ProxyVersionError>(
            ProxyVersionError::NonZeroExit { status: output.status },
        )),
        run matches Ok(output) ==> (output.success ==> forall|
            parsed: Result<String, ProxyVersionError>,
        |
            call_ensures(parse_proxy_version_output, (&output.stdout, &output.stderr), parsed) ==> {
                &&& result is Ok <==> parsed is Ok
                &&& result is Ok ==> result->Ok_0@ == parsed->Ok_0@
            }),
{
}

/// How a process ended is told apart: not started, not waited for, not in time,
/// or finished with what it left behind.
pub proof fn ends_of_probes_are_told_apart(
    wait: ProbeWait,
    result: Result<ProxyVersionOutput, ProxyVersionError>,
)
    requires
        call_ensures(run_proxy_version_command, (wait,), result),
    ensures
        result is Ok <==> wait is Finished,
        wait matches ProbeWait::Finished(output) ==> result == Ok::<
            ProxyVersionOutput,
            ProxyVersionError,
        >(output),
        wait is TimedOut <==> result is Err && result->Err_0 is TimedOut,
        wait is SpawnFailed <==> result is Err && result->Err_0 is SpawnFailed,
        wait is WaitFailed || wait is Disconnected <==> result is Err
            && result->Err_0 is WaitFailed,
        wait matches ProbeWait::SpawnFailed { detail: why } ==> (result matches Err(
            ProxyVersionError::SpawnFailed { detail },
        ) && detail == why),
        wait matches ProbeWait::WaitFailed { detail: why } ==> (result matches Err(
            ProxyVersionError::WaitFailed { detail },
        ) && detail == why),
{
}

/// A start is tried again only where the program file is busy, ten times in
/// all, with a pause of five milliseconds that grows by as much each time.
pub proof fn busy_programs_are_tried_ten_times(
    attempt: u64,
    os_error: Option<i32>,
    pause_ms: Option<u64>,
)
    requires
        call_ensures(spawn_version_probe, (attempt, os_error), pause_ms),
    ensures
        pause_ms is Some <==> os_error == Some(26i32) && attempt < 9,
        pause_ms matches Some(pause) ==> pause == 5 * (attempt + 1),
{
}

/// A binary that ran and is not the proxy gets another hint than one that could
/// not be probed.
pub proof fn strangers_get_their_own_hint(error: &ProxyVersionError, hint: &'static str)
    requires
        call_ensures(ProxyVersionError::hint, (error,), hint),
    ensures
        *error is IdentityMismatch ==> hint@ == PROXY_BIN_IDENTITY_HINT@,
        !(*error is IdentityMismatch) ==> hint@ == PROXY_BIN_PROBE_HINT@,
{
}

/// A failed probe is told how it failed.
pub proof fn probe_errors_tell_why(error: &ProxyVersionError, message: String)
    requires
        call_ensures(ProxyVersionError::message, (error,), message),
    ensures
        error matches ProxyVersionError::SpawnFailed { detail } ==> message@
            == "could not run version probe: "@ + detail@,
        error matches ProxyVersionError::WaitFailed { detail } ==> message@
            == "could not wait for version probe: "@ + detail@,
        error is TimedOut ==> message@ == "version probe timed out after "@ + text::digits(2)
            + "s"@,
        error matches ProxyVersionError::NonZeroExit { status } ==> message@
            == "version probe exited "@ + status@,
        error matches ProxyVersionError::IdentityMismatch { detail } ==> message@ == detail@,
{
}

} // verus!
