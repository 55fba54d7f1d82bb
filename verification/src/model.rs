//! The shared vocabulary of the control plane: Connections, their health, the
//! Status and Doctor documents, and the one place where unit names are made.

use vstd::prelude::*;

use crate::config;
use crate::text;
use crate::text::CharSet;

verus! {

// ---------------------------------------------------------------------------
// Unit names.
// ---------------------------------------------------------------------------

pub const MAX_UNIT_NAME_LEN: usize = 255;

/// The systemd `--user` unit name of one Connection's managed proxy process:
/// always `cloud-sql-proxy-<part>.service`, where the part is a plain id as it
/// stands and any other id after sanitizing.
#[derive(Debug, PartialEq, Eq, Hash)]
pub struct UnitName(String);

impl View for UnitName {
    type V = Seq<char>;

    closed spec fn view(&self) -> Seq<char> {
        self.0@
    }
}

impl UnitName {
    pub fn as_str(&self) -> (name: &str)
        ensures
            name@ == self@,
    {
        self.0.as_str()
    }
}

impl Clone for UnitName {
    fn clone(&self) -> (copy: Self)
        ensures
            copy@ == self@,
    {
        UnitName(self.0.clone())
    }
}

/// Why a Connection id could not become a unit name.
#[derive(Debug, Clone, Copy, PartialEq, Eq, Structural)]
pub enum UnitNameError {
    /// The id sanitizes to nothing (e.g. `"---"`).
    Empty,
    /// The unit name would be `len` bytes long, where `max` are allowed.
    TooLong { len: usize, max: usize },
}

impl UnitNameError {
    pub open spec fn text(self) -> Seq<char> {
        match self {
            UnitNameError::Empty => "connection id sanitizes to an empty unit name"@,
            UnitNameError::TooLong { len, max } => "unit name is "@ + text::digits(len as nat)
                + " bytes, exceeds the systemd limit of "@ + text::digits(max as nat),
        }
    }

    /// The error in words.
    pub fn message(&self) -> (message: String)
        ensures
            message@ == self.text(),
    {
        match self {
            UnitNameError::Empty => "connection id sanitizes to an empty unit name".to_owned(),
            UnitNameError::TooLong { len, max } => {
                let mut message = "unit name is ".to_owned();
                message.append(text::decimal(*len as u64).as_str());
                message.append(" bytes, exceeds the systemd limit of ");
                message.append(text::decimal(*max as u64).as_str());
                message
            },
        }
    }
}

pub open spec fn id_char(c: char) -> bool {
    text::ascii_alphanumeric(c) || c == '_' || c == '-'
}

/// `^[a-zA-Z0-9][a-zA-Z0-9_-]*$`: an id that fits into a unit name as it is.
pub open spec fn plain_id(id: Seq<char>) -> bool {
    &&& id.len() > 0
    &&& text::ascii_alphanumeric(id[0])
    &&& forall|i: int| 0 <= i < id.len() ==> id_char(#[trigger] id[i])
}

pub open spec fn unit_safe(c: char) -> bool {
    text::ascii_alphanumeric(c) || c == ':' || c == '_' || c == '.' || c == ',' || c == '-'
}

/// Every character that a unit name cannot hold becomes a dash.
pub open spec fn with_safe_chars(id: Seq<char>) -> Seq<char> {
    id.map_values(
        |c: char|
            if unit_safe(c) {
                c
            } else {
                '-'
            },
    )
}

/// Every run of dashes becomes one dash.
pub open spec fn with_single_dashes(s: Seq<char>) -> Seq<char>
    decreases s.len(),
{
    if s.len() == 0 {
        s
    } else if s.len() >= 2 && s.last() == '-' && s[s.len() - 2] == '-' {
        with_single_dashes(s.drop_last())
    } else {
        with_single_dashes(s.drop_last()).push(s.last())
    }
}

/// What sanitizing leaves of an id: safe characters only, no run of dashes, no
/// dot or dash at either end.
pub open spec fn sanitized(id: Seq<char>) -> Seq<char> {
    text::trimmed(with_single_dashes(with_safe_chars(id)), CharSet::DotOrDash)
}

/// The part of a unit name that stands for an id: a plain id is kept, any
/// other is sanitized.
pub open spec fn unit_part(id: Seq<char>) -> Seq<char> {
    if plain_id(id) {
        id
    } else {
        sanitized(id)
    }
}

pub open spec fn unit_name_text(id: Seq<char>) -> Seq<char> {
    "cloud-sql-proxy-"@ + unit_part(id) + ".service"@
}

/// The unit name of an id, or why it has none.
pub open spec fn unit_name_of(id: Seq<char>) -> Result<Seq<char>, UnitNameError> {
    let name = unit_name_text(id);
    if unit_part(id).len() == 0 {
        Err(UnitNameError::Empty)
    } else if name.len() > MAX_UNIT_NAME_LEN {
        Err(UnitNameError::TooLong { len: name.len() as usize, max: MAX_UNIT_NAME_LEN })
    } else {
        Ok(name)
    }
}

/// Whether an id fits into a unit name as it is.
pub fn is_plain_id(id: &str) -> (yes: bool)
    ensures
        yes == plain_id(id@),
{
    let chars = text::chars_of(id);
    if chars.len() == 0 || !text::is_ascii_alphanumeric(chars[0]) {
        return false;
    }
    let mut i: usize = 0;
    while i < chars.len()
        invariant
            chars@ == id@,
            i <= chars@.len(),
            forall|k: int| 0 <= k < i ==> id_char(#[trigger] id@[k]),
        decreases chars@.len() - i,
    {
        let c = chars[i];
        if !(text::is_ascii_alphanumeric(c) || c == '_' || c == '-') {
            assert(!id_char(id@[i as int]));
            return false;
        }
        i += 1;
    }
    true
}

pub fn is_unit_safe_char(c: char) -> (yes: bool)
    ensures
        yes == unit_safe(c),
{
    text::is_ascii_alphanumeric(c) || c == ':' || c == '_' || c == '.' || c == ',' || c == '-'
}

/// Replaces every run of dashes by one dash.
pub fn collapse_repeated_dashes(s: &str) -> (collapsed: String)
    ensures
        collapsed@ == with_single_dashes(s@),
{
    let chars = text::chars_of(s);
    let mut out = String::new();
    let mut prev_was_dash = false;
    let mut i: usize = 0;
    while i < chars.len()
        invariant
            chars@ == s@,
            i <= chars@.len(),
            out@ == with_single_dashes(s@.take(i as int)),
            prev_was_dash == (i > 0 && s@[i - 1] == '-'),
        decreases chars@.len() - i,
    {
        let c = chars[i];
        proof {
            assert(s@.take(i + 1).drop_last() =~= s@.take(i as int));
        }
        i += 1;
        if c == '-' {
            if prev_was_dash {
                continue;
            }
            prev_was_dash = true;
        } else {
            prev_was_dash = false;
        }
        out.push(c);
    }
    assert(s@.take(s@.len() as int) =~= s@);
    out
}

/// An id after sanitizing, unless nothing of it is left.
pub fn sanitize_unit_id(id: &str) -> (result: Result<String, UnitNameError>)
    ensures
        match result {
            Ok(part) => part@ == sanitized(id@) && sanitized(id@).len() > 0,
            Err(error) => error == UnitNameError::Empty && sanitized(id@).len() == 0,
        },
{
    let chars = text::chars_of(id);
    let mut mapped = String::new();
    let mut i: usize = 0;
    while i < chars.len()
        invariant
            chars@ == id@,
            i <= chars@.len(),
            mapped@ == with_safe_chars(id@.take(i as int)),
        decreases chars@.len() - i,
    {
        let c = chars[i];
        mapped.push(
            if is_unit_safe_char(c) {
                c
            } else {
                '-'
            },
        );
        i += 1;
        assert(mapped@ =~= with_safe_chars(id@.take(i as int)));
    }
    assert(id@.take(id@.len() as int) =~= id@);
    let collapsed = collapse_repeated_dashes(mapped.as_str());
    let trimmed = text::trim(collapsed.as_str(), CharSet::DotOrDash);
    if text::chars_of(trimmed.as_str()).len() == 0 {
        Err(UnitNameError::Empty)
    } else {
        Ok(trimmed)
    }
}

/// The systemd `.service` unit name for a Connection id. A valid id passes
/// through unchanged.
pub fn unit_name(id: &str) -> (result: Result<UnitName, UnitNameError>)
    ensures
        match result {
            Ok(name) => unit_name_of(id@) == Ok::<Seq<char>, UnitNameError>(name@),
            Err(error) => unit_name_of(id@) == Err::<Seq<char>, UnitNameError>(error),
        },
        config::valid_id(id@) ==> (result matches Ok(name) && name@ == "cloud-sql-proxy-"@ + id@
            + ".service"@),
{
    let part = if is_plain_id(id) {
        id.to_owned()
    } else {
        match sanitize_unit_id(id) {
            Ok(part) => part,
            Err(error) => return Err(error),
        }
    };
    let mut name = "cloud-sql-proxy-".to_owned();
    name.append(part.as_str());
    name.append(".service");
    let len: usize = text::chars_of(name.as_str()).len();
    proof {
        unit_name_frame();
    }
    if len > MAX_UNIT_NAME_LEN {
        Err(UnitNameError::TooLong { len, max: MAX_UNIT_NAME_LEN })
    } else {
        Ok(UnitName(name))
    }
}

// ---------------------------------------------------------------------------
// Connections.
// ---------------------------------------------------------------------------

/// One configured Cloud SQL instance plus its fixed local listen endpoint.
#[derive(Debug, PartialEq, Eq)]
pub struct Connection {
    pub id: String,
    pub name: String,
    pub group: String,
    pub instance: String,
    pub address: String,
    pub port: u16,
    pub private_ip: bool,
    pub auto_iam_authn: bool,
    pub extra_args: Vec<String>,
    pub enabled: bool,
}

#[verifier::ext_equal]
pub struct ConnectionView {
    pub id: Seq<char>,
    pub name: Seq<char>,
    pub group: Seq<char>,
    pub instance: Seq<char>,
    pub address: Seq<char>,
    pub port: u16,
    pub private_ip: bool,
    pub auto_iam_authn: bool,
    pub extra_args: Seq<Seq<char>>,
    pub enabled: bool,
}

impl View for Connection {
    type V = ConnectionView;

    open spec fn view(&self) -> ConnectionView {
        ConnectionView {
            id: self.id@,
            name: self.name@,
            group: self.group@,
            instance: self.instance@,
            address: self.address@,
            port: self.port,
            private_ip: self.private_ip,
            auto_iam_authn: self.auto_iam_authn,
            extra_args: text::views(self.extra_args@),
            enabled: self.enabled,
        }
    }
}

impl Clone for Connection {
    fn clone(&self) -> (copy: Self)
        ensures
            copy@ == self@,
    {
        Connection {
            id: self.id.clone(),
            name: self.name.clone(),
            group: self.group.clone(),
            instance: self.instance.clone(),
            address: self.address.clone(),
            port: self.port,
            private_ip: self.private_ip,
            auto_iam_authn: self.auto_iam_authn,
            extra_args: text::copies(&self.extra_args),
            enabled: self.enabled,
        }
    }
}

/// The views of a list of Connections.
pub open spec fn connection_views(connections: Seq<Connection>) -> Seq<ConnectionView> {
    connections.map_values(|connection: Connection| connection@)
}

// ---------------------------------------------------------------------------
// Port observations.
// ---------------------------------------------------------------------------

/// What a TCP probe of a Connection's `address:port` found.
#[derive(Debug, Clone, Copy, PartialEq, Eq, Structural)]
pub enum PortProbe {
    Open,
    Closed,
    Unreachable,
}

/// What is known about a Connection's local port.
#[derive(Debug, PartialEq, Eq)]
pub struct PortObservation {
    pub probe: PortProbe,
    /// The process that holds the listening socket, where it could be found.
    pub listener_pid: Option<u32>,
    /// The name of that process, where it could be read.
    pub listener_name: Option<String>,
}

// ---------------------------------------------------------------------------
// Status rows and the Status document.
// ---------------------------------------------------------------------------

/// A Connection's health.
#[derive(Debug, Clone, Copy, PartialEq, Eq, Structural)]
pub enum HealthState {
    Stopped,
    Starting,
    Running,
    Error,
}

/// Process ownership, independent of [`HealthState`].
#[derive(Debug, Clone, Copy, PartialEq, Eq, Structural)]
pub enum Source {
    /// The process is the main process of our user unit.
    Unit,
    /// No managed unit process is attributed.
    NoUnit,
}

/// Stable machine token of a Status row's error.
#[derive(Debug, Clone, Copy, PartialEq, Eq, Structural)]
pub enum ErrorCode {
    BinMissing,
    PortInUse,
    ExecFailed,
    UnitFailed,
    StartTimeout,
    Auth,
    Config,
    Unknown,
}

/// Why a Connection is in [`HealthState::Error`].
#[derive(Debug, PartialEq, Eq)]
pub struct StatusError {
    pub code: ErrorCode,
    pub detail: String,
}

#[verifier::ext_equal]
pub struct StatusErrorView {
    pub code: ErrorCode,
    pub detail: Seq<char>,
}

impl View for StatusError {
    type V = StatusErrorView;

    open spec fn view(&self) -> StatusErrorView {
        StatusErrorView { code: self.code, detail: self.detail@ }
    }
}

impl Clone for StatusError {
    fn clone(&self) -> (copy: Self)
        ensures
            copy@ == self@,
    {
        StatusError { code: self.code, detail: self.detail.clone() }
    }
}

/// One Connection of the Status document.
#[derive(Debug, PartialEq, Eq)]
pub struct StatusRow {
    pub id: String,
    pub name: String,
    pub group: String,
    pub instance: String,
    pub address: String,
    pub port: u16,
    pub private_ip: bool,
    pub enabled: bool,
    pub state: HealthState,
    pub source: Source,
    pub pid: Option<u32>,
    pub unit: Option<UnitName>,
    pub port_open: bool,
    pub uptime_sec: Option<u64>,
    pub error: Option<StatusError>,
}

#[verifier::ext_equal]
pub struct StatusRowView {
    pub id: Seq<char>,
    pub name: Seq<char>,
    pub group: Seq<char>,
    pub instance: Seq<char>,
    pub address: Seq<char>,
    pub port: u16,
    pub private_ip: bool,
    pub enabled: bool,
    pub state: HealthState,
    pub source: Source,
    pub pid: Option<u32>,
    pub unit: Option<Seq<char>>,
    pub port_open: bool,
    pub uptime_sec: Option<u64>,
    pub error: Option<StatusErrorView>,
}

pub open spec fn error_view(error: Option<StatusError>) -> Option<StatusErrorView> {
    match error {
        Some(error) => Some(error@),
        None => None,
    }
}

pub open spec fn unit_view(unit: Option<UnitName>) -> Option<Seq<char>> {
    match unit {
        Some(unit) => Some(unit@),
        None => None,
    }
}

impl View for StatusRow {
    type V = StatusRowView;

    open spec fn view(&self) -> StatusRowView {
        StatusRowView {
            id: self.id@,
            name: self.name@,
            group: self.group@,
            instance: self.instance@,
            address: self.address@,
            port: self.port,
            private_ip: self.private_ip,
            enabled: self.enabled,
            state: self.state,
            source: self.source,
            pid: self.pid,
            unit: unit_view(self.unit),
            port_open: self.port_open,
            uptime_sec: self.uptime_sec,
            error: error_view(self.error),
        }
    }
}

/// How many Connections are in each health state.
#[derive(Debug, Clone, Copy, PartialEq, Eq, Structural)]
pub struct GroupCounts {
    pub running: u32,
    pub starting: u32,
    pub error: u32,
    pub stopped: u32,
    pub total: u32,
}

impl Default for GroupCounts {
    fn default() -> (counts: Self)
        ensures
            counts == (GroupCounts { running: 0, starting: 0, error: 0, stopped: 0, total: 0 }),
    {
        GroupCounts { running: 0, starting: 0, error: 0, stopped: 0, total: 0 }
    }
}

/// The counters of one group.
#[derive(Debug, PartialEq, Eq)]
pub struct GroupEntry {
    pub name: String,
    pub counts: GroupCounts,
}

/// The Status document. Its groups are in ascending order of their names.
#[derive(Debug, PartialEq, Eq)]
pub struct StatusDocument {
    pub version: u32,
    pub ts: String,
    pub cli_version: String,
    pub running: u32,
    pub starting: u32,
    pub error: u32,
    pub stopped: u32,
    pub total: u32,
    pub groups: Vec<GroupEntry>,
    pub connections: Vec<StatusRow>,
}

// ---------------------------------------------------------------------------
// The Doctor document.
// ---------------------------------------------------------------------------

/// One Doctor check's severity.
#[derive(Debug, Clone, Copy, PartialEq, Eq, Structural)]
pub enum CheckStatus {
    Pass,
    Warn,
    Fail,
}

/// One Doctor check.
#[derive(Debug, PartialEq, Eq)]
pub struct CheckRow {
    pub id: String,
    pub status: CheckStatus,
    pub detail: String,
    pub hint: Option<String>,
}

#[verifier::ext_equal]
pub struct CheckRowView {
    pub id: Seq<char>,
    pub status: CheckStatus,
    pub detail: Seq<char>,
    pub hint: Option<Seq<char>>,
}

impl View for CheckRow {
    type V = CheckRowView;

    open spec fn view(&self) -> CheckRowView {
        CheckRowView {
            id: self.id@,
            status: self.status,
            detail: self.detail@,
            hint: text::option_view(self.hint),
        }
    }
}

/// The views of a list of checks.
pub open spec fn check_views(rows: Seq<CheckRow>) -> Seq<CheckRowView> {
    rows.map_values(|row: CheckRow| row@)
}

/// The Doctor document.
#[derive(Debug, PartialEq, Eq)]
pub struct DoctorReport {
    pub version: u32,
    pub cli_version: String,
    pub ok: bool,
    pub checks: Vec<CheckRow>,
}

// ---------------------------------------------------------------------------
// Laws of unit names.
// ---------------------------------------------------------------------------

/// Text that sanitizing leaves alone.
pub open spec fn canonical(s: Seq<char>) -> bool {
    &&& s.len() > 0
    &&& forall|i: int| 0 <= i < s.len() ==> unit_safe(#[trigger] s[i])
    &&& no_double_dash(s)
    &&& !CharSet::DotOrDash.has(s[0])
    &&& !CharSet::DotOrDash.has(s.last())
}

pub open spec fn no_double_dash(s: Seq<char>) -> bool {
    forall|i: int, j: int|
        0 <= i && j == i + 1 && j < s.len() ==> !(#[trigger] s[i] == '-' && #[trigger] s[j] == '-')
}

proof fn single_dashes_of_single_dashes(s: Seq<char>)
    requires
        no_double_dash(s),
    ensures
        with_single_dashes(s) == s,
    decreases s.len(),
{
    if s.len() > 0 {
        single_dashes_of_single_dashes(s.drop_last());
        assert(s.drop_last().push(s.last()) =~= s);
    }
}

proof fn single_dashes_have_no_double_dash(s: Seq<char>)
    requires
        forall|i: int| 0 <= i < s.len() ==> unit_safe(#[trigger] s[i]),
    ensures
        no_double_dash(with_single_dashes(s)),
        forall|i: int|
            0 <= i < with_single_dashes(s).len() ==> unit_safe(#[trigger] with_single_dashes(s)[i]),
        s.len() > 0 ==> with_single_dashes(s).len() > 0 && with_single_dashes(s).last() == s.last(),
    decreases s.len(),
{
    if s.len() > 0 {
        single_dashes_have_no_double_dash(s.drop_last());
    }
}

proof fn trimming_takes_a_part(s: Seq<char>, set: CharSet) -> (from: int)
    ensures
        0 <= from,
        from + text::trimmed(s, set).len() <= s.len(),
        text::trimmed(s, set) == s.subrange(from, from + text::trimmed(s, set).len()),
        text::trimmed(s, set).len() > 0 ==> !set.has(text::trimmed(s, set)[0]) && !set.has(
            text::trimmed(s, set).last(),
        ),
{
    let from = trimming_the_start_takes_a_part(s, set);
    let start = text::trimmed_start(s, set);
    trimming_the_end_takes_a_part(start, set);
    let inner = text::trimmed(s, set);
    assert(inner =~= s.subrange(from, from + inner.len()));
    from
}

proof fn trimming_the_start_takes_a_part(s: Seq<char>, set: CharSet) -> (from: int)
    ensures
        0 <= from <= s.len(),
        text::trimmed_start(s, set) == s.skip(from),
        from < s.len() ==> !set.has(s[from]),
    decreases s.len(),
{
    if s.len() > 0 && set.has(s[0]) {
        let from = trimming_the_start_takes_a_part(s.drop_first(), set);
        assert(s.drop_first().skip(from) =~= s.skip(from + 1));
        from + 1
    } else {
        assert(s.skip(0) =~= s);
        0
    }
}

proof fn trimming_the_end_takes_a_part(s: Seq<char>, set: CharSet)
    ensures
        text::trimmed_end(s, set).len() <= s.len(),
        text::trimmed_end(s, set) == s.take(text::trimmed_end(s, set).len() as int),
        text::trimmed_end(s, set).len() > 0 ==> !set.has(text::trimmed_end(s, set).last()),
    decreases s.len(),
{
    if s.len() > 0 && set.has(s.last()) {
        trimming_the_end_takes_a_part(s.drop_last(), set);
        let n = text::trimmed_end(s, set).len() as int;
        assert(s.drop_last().take(n) =~= s.take(n));
    } else {
        assert(s.take(s.len() as int) =~= s);
    }
}

/// What sanitizing leaves of an id is canonical: safe characters only, no run
/// of dashes, no dot or dash at either end.
pub proof fn sanitized_ids_are_canonical(id: Seq<char>)
    requires
        sanitized(id).len() > 0,
    ensures
        canonical(sanitized(id)),
{
    let safe = with_safe_chars(id);
    single_dashes_have_no_double_dash(safe);
    let single = with_single_dashes(safe);
    let from = trimming_takes_a_part(single, CharSet::DotOrDash);
    let part = sanitized(id);
    assert forall|i: int, j: int| 0 <= i && j == i + 1 && j < part.len() implies !(#[trigger] part[i]
        == '-' && #[trigger] part[j] == '-') by {
        assert(part[i] == single[from + i] && part[j] == single[from + j]);
    }
    assert forall|i: int| 0 <= i < part.len() implies unit_safe(#[trigger] part[i]) by {
        assert(part[i] == single[from + i]);
    }
}

/// A canonical id is its own sanitized form.
pub proof fn canonical_ids_are_kept(id: Seq<char>)
    requires
        canonical(id),
    ensures
        sanitized(id) == id,
{
    assert(with_safe_chars(id) =~= id);
    single_dashes_of_single_dashes(id);
}

/// Sanitizing twice is sanitizing once.
pub proof fn sanitizing_is_idempotent(id: Seq<char>)
    ensures
        sanitized(sanitized(id)) == sanitized(id),
{
    if sanitized(id).len() > 0 {
        sanitized_ids_are_canonical(id);
        canonical_ids_are_kept(sanitized(id));
    } else {
        let empty = sanitized(id);
        assert(with_safe_chars(empty) =~= empty);
        assert(with_single_dashes(empty) =~= empty);
    }
}

/// Sanitizing leaves something of an id that starts with a letter or digit,
/// and adds nothing to it.
pub proof fn alphanumeric_starts_survive(id: Seq<char>)
    requires
        id.len() > 0,
        text::ascii_alphanumeric(id[0]),
    ensures
        0 < sanitized(id).len() <= id.len(),
{
    let safe = with_safe_chars(id);
    single_dashes_keep_the_start(safe);
    let single = with_single_dashes(safe);
    trimming_keeps_a_sound_start(single);
    let from = trimming_takes_a_part(single, CharSet::DotOrDash);
}

proof fn single_dashes_keep_the_start(s: Seq<char>)
    requires
        s.len() > 0,
    ensures
        0 < with_single_dashes(s).len() <= s.len(),
        with_single_dashes(s)[0] == s[0],
    decreases s.len(),
{
    if s.len() > 1 {
        single_dashes_keep_the_start(s.drop_last());
    } else {
        assert(with_single_dashes(s.drop_last()) =~= Seq::empty());
    }
}

proof fn trimming_keeps_a_sound_start(s: Seq<char>)
    requires
        s.len() > 0,
        !CharSet::DotOrDash.has(s[0]),
    ensures
        text::trimmed(s, CharSet::DotOrDash).len() > 0,
    decreases s.len(),
{
    assert(text::trimmed_start(s, CharSet::DotOrDash) == s);
    if CharSet::DotOrDash.has(s.last()) {
        trimming_keeps_a_sound_start(s.drop_last());
        assert(text::trimmed_start(s.drop_last(), CharSet::DotOrDash) == s.drop_last());
    }
}

/// Every unit name is `cloud-sql-proxy-<part>.service`, where the part is a
/// plain id or canonical. It holds unit-safe (so ASCII) characters only, and is
/// at most `MAX_UNIT_NAME_LEN` long.
pub proof fn unit_names_are_unit_safe(id: Seq<char>)
    requires
        unit_name_of(id) is Ok,
    ensures
        unit_name_of(id) == Ok::<Seq<char>, UnitNameError>(unit_name_text(id)),
        plain_id(unit_part(id)) || canonical(unit_part(id)),
        unit_name_text(id).len() == 24 + unit_part(id).len(),
        unit_name_text(id).len() <= MAX_UNIT_NAME_LEN,
        forall|i: int|
            0 <= i < unit_name_text(id).len() ==> unit_safe(#[trigger] unit_name_text(id)[i]),
{
    unit_name_frame();
    let part = unit_part(id);
    if plain_id(id) {
        assert forall|i: int| 0 <= i < part.len() implies unit_safe(#[trigger] part[i]) by {
            assert(id_char(id[i]));
        }
    } else {
        sanitized_ids_are_canonical(id);
    }
    let name = unit_name_text(id);
    assert forall|i: int| 0 <= i < name.len() implies unit_safe(#[trigger] name[i]) by {
        if 16 <= i && i < 16 + part.len() {
            assert(name[i] == part[i - 16]);
        }
    }
}

/// Plain and canonical ids stand in their unit names as they are, so two of
/// them with the same unit name are the same id.
pub proof fn kept_ids_have_their_own_unit_names(a: Seq<char>, b: Seq<char>)
    requires
        plain_id(a) || canonical(a),
        plain_id(b) || canonical(b),
        unit_name_text(a) == unit_name_text(b),
    ensures
        a == b,
{
    if !plain_id(a) {
        canonical_ids_are_kept(a);
    }
    if !plain_id(b) {
        canonical_ids_are_kept(b);
    }
    unit_name_frame();
    assert(unit_name_text(a).len() == 16 + a.len() + 8);
    assert(unit_name_text(b).len() == 16 + b.len() + 8);
    assert forall|i: int| 0 <= i < a.len() implies a[i] == b[i] by {
        assert(unit_name_text(a)[16 + i] == a[i]);
        assert(unit_name_text(b)[16 + i] == b[i]);
    }
    assert(a =~= b);
}

proof fn unit_name_frame()
    ensures
        "cloud-sql-proxy-"@.len() == 16,
        ".service"@.len() == 8,
        forall|i: int| 0 <= i < 16 ==> unit_safe(#[trigger] "cloud-sql-proxy-"@[i]),
        forall|i: int| 0 <= i < 8 ==> unit_safe(#[trigger] ".service"@[i]),
{
    reveal_strlit("cloud-sql-proxy-");
    reveal_strlit(".service");
}

/// A unit name can hold the ASCII letters and digits, the colon, the
/// underscore, the dot, the comma and the dash, and nothing else.
pub proof fn unit_safe_characters(c: char, yes: bool)
    requires
        call_ensures(is_unit_safe_char, (c,), yes),
    ensures
        yes <==> 0x30 <= c as u32 <= 0x39 || 0x41 <= c as u32 <= 0x5a || 0x61 <= c as u32 <= 0x7a
            || c == ':' || c == '_' || c == '.' || c == ',' || c == '-',
{
}

/// An id fits into a unit name as it is where it starts with a letter or digit
/// and holds letters, digits, underscores and dashes only.
pub proof fn plain_ids_hold_plain_characters(id: &str, yes: bool)
    requires
        call_ensures(is_plain_id, (id,), yes),
    ensures
        yes <==> id@.len() > 0 && id@[0] != '_' && id@[0] != '-' && forall|i: int|
            0 <= i < id@.len() ==> config::name_char(#[trigger] id@[i]),
{
    assert forall|i: int| 0 <= i < id@.len() implies config::name_char(#[trigger] id@[i])
        == id_char(id@[i]) by {
        config::letters_and_digits_are_alphanumeric(id@[i]);
    }
    if id@.len() > 0 {
        config::letters_and_digits_are_alphanumeric(id@[0]);
        assert(config::name_char(id@[0]) == id_char(id@[0]));
    }
    if plain_id(id@) {
        assert forall|i: int| 0 <= i < id@.len() implies config::name_char(
            #[trigger] id@[i],
        ) by {
            assert(id_char(id@[i]));
        }
    }
    if id@.len() > 0 && id@[0] != '_' && id@[0] != '-' && forall|i: int|
        0 <= i < id@.len() ==> config::name_char(#[trigger] id@[i]) {
        assert forall|i: int| 0 <= i < id@.len() implies id_char(#[trigger] id@[i]) by {
            assert(config::name_char(id@[i]));
        }
    }
}

/// Every unit name starts with `cloud-sql-proxy-`, ends with `.service`, has
/// something between them, and is at most 255 characters long. A longer one is
/// refused with its length.
pub proof fn unit_names_have_their_form(id: &str, result: Result<UnitName, UnitNameError>)
    requires
        call_ensures(unit_name, (id,), result),
        id@.len() <= usize::MAX - 24,
    ensures
        match result {
            Ok(name) => {
                &&& 24 < name@.len() <= 255
                &&& name@.take(16) == "cloud-sql-proxy-"@
                &&& name@.skip(name@.len() - 8) == ".service"@
            },
            Err(UnitNameError::TooLong { len, max }) => len > 255 && max == 255,
            Err(UnitNameError::Empty) => true,
        },
{
    unit_name_frame();
    let name = unit_name_text(id@);
    assert(name.take(16) =~= "cloud-sql-proxy-"@);
    assert(name.skip(name.len() - 8) =~= ".service"@);
    unit_parts_add_nothing(id@);
    assert(name.len() == 24 + unit_part(id@).len());
    if result is Ok {
        assert(result->Ok_0@ == name);
    }
}

proof fn unit_parts_add_nothing(id: Seq<char>)
    ensures
        unit_part(id).len() <= id.len(),
{
    single_dashes_add_nothing(with_safe_chars(id));
    let from = trimming_takes_a_part(
        with_single_dashes(with_safe_chars(id)),
        CharSet::DotOrDash,
    );
}

proof fn single_dashes_add_nothing(s: Seq<char>)
    ensures
        with_single_dashes(s).len() <= s.len(),
    decreases s.len(),
{
    if s.len() > 0 {
        single_dashes_add_nothing(s.drop_last());
    }
}

/// Whether two sanitized ids are the same.
pub open spec fn sanitized_alike(
    a: Result<String, UnitNameError>,
    b: Result<String, UnitNameError>,
) -> bool {
    match (a, b) {
        (Ok(a), Ok(b)) => a@ == b@,
        (Err(a), Err(b)) => a == b,
        _ => false,
    }
}

/// Sanitizing does not tell a character that a unit name cannot hold from a
/// dash.
pub proof fn unsafe_characters_are_dashes(
    a: &str,
    b: &str,
    i: int,
    from_a: Result<String, UnitNameError>,
    from_b: Result<String, UnitNameError>,
)
    requires
        call_ensures(sanitize_unit_id, (a,), from_a),
        call_ensures(sanitize_unit_id, (b,), from_b),
        0 <= i < a@.len(),
        call_ensures(is_unit_safe_char, (a@[i],), false),
        b@ == a@.update(i, '-'),
    ensures
        sanitized_alike(from_a, from_b),
{
    assert(with_safe_chars(a@) =~= with_safe_chars(b@));
}

proof fn double_dashes_collapse(front: Seq<char>, rest: Seq<char>)
    ensures
        with_single_dashes(front.push('-').push('-') + rest) == with_single_dashes(
            front.push('-') + rest,
        ),
    decreases rest.len(),
{
    let twice = front.push('-').push('-') + rest;
    let once = front.push('-') + rest;
    if rest.len() == 0 {
        assert(twice =~= front.push('-').push('-'));
        assert(once =~= front.push('-'));
        assert(twice.drop_last() =~= front.push('-'));
    } else {
        double_dashes_collapse(front, rest.drop_last());
        assert(twice.drop_last() =~= front.push('-').push('-') + rest.drop_last());
        assert(once.drop_last() =~= front.push('-') + rest.drop_last());
        assert(twice.last() == once.last());
        assert(twice[twice.len() - 2] == once[once.len() - 2]);
    }
}

/// Sanitizing does not tell two dashes in a row from one.
pub proof fn repeated_dashes_are_one(
    a: &str,
    b: &str,
    front: Seq<char>,
    rest: Seq<char>,
    from_a: Result<String, UnitNameError>,
    from_b: Result<String, UnitNameError>,
)
    requires
        call_ensures(sanitize_unit_id, (a,), from_a),
        call_ensures(sanitize_unit_id, (b,), from_b),
        a@ == front.push('-').push('-') + rest,
        b@ == front.push('-') + rest,
    ensures
        sanitized_alike(from_a, from_b),
{
    let safe_front = with_safe_chars(front);
    let safe_rest = with_safe_chars(rest);
    assert(with_safe_chars(a@) =~= safe_front.push('-').push('-') + safe_rest);
    assert(with_safe_chars(b@) =~= safe_front.push('-') + safe_rest);
    double_dashes_collapse(safe_front, safe_rest);
}

proof fn single_dashes_from_the_start(c: char, s: Seq<char>)
    ensures
        with_single_dashes(seq![c] + s) == if c == '-' && s.len() > 0 && s[0] == '-' {
            with_single_dashes(s)
        } else {
            seq![c] + with_single_dashes(s)
        },
    decreases s.len(),
{
    let whole = seq![c] + s;
    if s.len() == 0 {
        assert(whole.drop_last() =~= Seq::empty());
        assert(with_single_dashes(whole.drop_last()) =~= Seq::empty());
        assert(with_single_dashes(s) =~= Seq::empty());
        assert(with_single_dashes(whole) =~= seq![c]);
        assert(seq![c] + with_single_dashes(s) =~= seq![c]);
    } else {
        let front = s.drop_last();
        single_dashes_from_the_start(c, front);
        assert(whole.drop_last() =~= seq![c] + front);
        if s.len() == 1 {
            assert(front =~= Seq::empty());
            assert(with_single_dashes(front) =~= Seq::empty());
            assert(seq![c] + with_single_dashes(front) =~= seq![c]);
            assert(with_single_dashes(s) =~= s);
            assert(whole =~= seq![c].push(s[0]));
            if c == '-' && s[0] == '-' {
                assert(with_single_dashes(whole) =~= s);
            } else {
                assert(with_single_dashes(whole) =~= seq![c] + s);
            }
        } else {
            assert(whole[whole.len() - 2] == s[s.len() - 2]);
            assert(front[0] == s[0]);
            assert((seq![c] + with_single_dashes(front)).push(s.last()) =~= seq![c]
                + with_single_dashes(front).push(s.last()));
        }
    }
}

proof fn leading_ends_are_trimmed(c: char, s: Seq<char>, set: CharSet)
    requires
        set.has(c),
    ensures
        text::trimmed(seq![c] + s, set) == text::trimmed(s, set),
{
    assert((seq![c] + s).drop_first() =~= s);
}

proof fn trailing_ends_are_trimmed(s: Seq<char>, c: char, set: CharSet)
    requires
        set.has(c),
    ensures
        text::trimmed(s.push(c), set) == text::trimmed(s, set),
    decreases s.len(),
{
    if s.len() == 0 {
        let nothing = Seq::<char>::empty();
        assert(s =~= nothing);
        assert(s.push(c).drop_first() =~= nothing);
        assert(text::trimmed_start(nothing, set) == nothing);
        assert(text::trimmed_start(s.push(c), set) == nothing);
        assert(text::trimmed(s.push(c), set) =~= text::trimmed(s, set));
    } else if set.has(s[0]) {
        trailing_ends_are_trimmed(s.drop_first(), c, set);
        assert(s.push(c).drop_first() =~= s.drop_first().push(c));
    } else {
        assert(s.push(c).drop_last() =~= s);
    }
}

/// Sanitizing does not see a dot or a dash at either end.
pub proof fn dots_and_dashes_at_the_ends_vanish(
    a: &str,
    b: &str,
    c: char,
    from_a: Result<String, UnitNameError>,
    from_b: Result<String, UnitNameError>,
)
    requires
        call_ensures(sanitize_unit_id, (a,), from_a),
        call_ensures(sanitize_unit_id, (b,), from_b),
        c == '.' || c == '-',
        a@ == seq![c] + b@ || a@ == b@.push(c),
    ensures
        sanitized_alike(from_a, from_b),
{
    let safe = with_safe_chars(b@);
    let single = with_single_dashes(safe);
    if a@ == seq![c] + b@ {
        assert(with_safe_chars(a@) =~= seq![c] + safe);
        single_dashes_from_the_start(c, safe);
        leading_ends_are_trimmed(c, single, CharSet::DotOrDash);
    } else {
        assert(with_safe_chars(a@) =~= safe.push(c));
        assert(safe.push(c).drop_last() =~= safe);
        trailing_ends_are_trimmed(single, c, CharSet::DotOrDash);
    }
}

/// Sanitizing keeps an id of unit-safe characters that has no two dashes in a
/// row and neither a dot nor a dash at an end.
pub proof fn clean_ids_are_kept(id: &str, result: Result<String, UnitNameError>)
    requires
        call_ensures(sanitize_unit_id, (id,), result),
        id@.len() > 0,
        forall|i: int|
            0 <= i < id@.len() ==> call_ensures(is_unit_safe_char, (#[trigger] id@[i],), true),
        forall|i: int, j: int|
            0 <= i && j == i + 1 && j < id@.len() ==> !(#[trigger] id@[i] == '-'
                && #[trigger] id@[j] == '-'),
        id@[0] != '.' && id@[0] != '-',
        id@.last() != '.' && id@.last() != '-',
    ensures
        result matches Ok(part) && part@ == id@,
{
    assert forall|i: int| 0 <= i < id@.len() implies unit_safe(#[trigger] id@[i]) by {
        assert(call_ensures(is_unit_safe_char, (id@[i],), true));
    }
    canonical_ids_are_kept(id@);
}

/// The unit name of an id is made of the id itself where that is plain, and
/// else of what sanitizing leaves of it. It is refused only where nothing is
/// left, or where it is too long.
pub proof fn unit_names_are_made_of_ids(
    id: &str,
    plain: bool,
    part: Result<String, UnitNameError>,
    result: Result<UnitName, UnitNameError>,
)
    requires
        call_ensures(is_plain_id, (id,), plain),
        call_ensures(sanitize_unit_id, (id,), part),
        call_ensures(unit_name, (id,), result),
        id@.len() <= usize::MAX - 24,
    ensures
        plain && id@.len() <= 231 ==> (result matches Ok(name) && name@ == "cloud-sql-proxy-"@ + id@
            + ".service"@),
        !plain ==> (part matches Ok(kept) ==> (kept@.len() <= 231 ==> (result matches Ok(name)
            && name@ == "cloud-sql-proxy-"@ + kept@ + ".service"@))),
        !plain && part is Err ==> result == Err::<UnitName, UnitNameError>(UnitNameError::Empty),
        result matches Err(UnitNameError::TooLong { len, .. }) ==> len == 24 + if plain {
            id@.len()
        } else {
            part->Ok_0@.len()
        },
        result matches Err(UnitNameError::Empty) ==> !plain && part is Err,
{
    unit_name_frame();
    unit_parts_add_nothing(id@);
    assert(unit_name_text(id@).len() == 24 + unit_part(id@).len());
}

/// An id without a unit name is told why: nothing is left of it, or how long
/// its unit name would be and how long it may be.
pub proof fn unit_name_errors_tell_why(error: &UnitNameError, message: String)
    requires
        call_ensures(UnitNameError::message, (error,), message),
    ensures
        error is Empty ==> message@ == "connection id sanitizes to an empty unit name"@,
        error matches UnitNameError::TooLong { len, max } ==> message@ == "unit name is "@
            + text::digits(len as nat) + " bytes, exceeds the systemd limit of "@ + text::digits(
            max as nat,
        ),
{
}

/// Collapsing leaves no two dashes in a row, begins and ends with what the text
/// begins and ends with, and leaves a text without two dashes in a row alone.
pub proof fn collapsed_dashes_stand_alone(s: &str, collapsed: String)
    requires
        call_ensures(collapse_repeated_dashes, (s,), collapsed),
    ensures
        forall|i: int, j: int|
            0 <= i && j == i + 1 && j < collapsed@.len() ==> !(#[trigger] collapsed@[i] == '-'
                && #[trigger] collapsed@[j] == '-'),
        s@.len() > 0 ==> collapsed@.len() > 0 && collapsed@[0] == s@[0] && collapsed@.last()
            == s@.last(),
        (forall|i: int, j: int|
            0 <= i && j == i + 1 && j < s@.len() ==> !(#[trigger] s@[i] == '-' && #[trigger] s@[j]
                == '-')) ==> collapsed@ == s@,
{
    collapsing_leaves_single_dashes(s@);
    if s@.len() > 0 {
        single_dashes_keep_the_start(s@);
    }
    if forall|i: int, j: int|
        0 <= i && j == i + 1 && j < s@.len() ==> !(#[trigger] s@[i] == '-' && #[trigger] s@[j]
            == '-') {
        single_dashes_of_single_dashes(s@);
    }
}

proof fn collapsing_leaves_single_dashes(s: Seq<char>)
    ensures
        no_double_dash(with_single_dashes(s)),
        s.len() > 0 ==> with_single_dashes(s).len() > 0 && with_single_dashes(s).last() == s.last(),
    decreases s.len(),
{
    if s.len() > 0 {
        collapsing_leaves_single_dashes(s.drop_last());
    }
}

} // verus!
