//! The systemd `--user` vocabulary of one Connection's managed proxy process:
//! unit snapshots, the transient unit that a start asks for, and what a failed
//! D-Bus operation means.

use vstd::prelude::*;

use crate::model;
use crate::model::{
    CheckRow, CheckRowView, CheckStatus, Connection, ConnectionView, UnitName, UnitNameError,
};
use crate::text;

verus! {

/// systemd's error for a unit name it has never loaded.
pub const NO_SUCH_UNIT: &'static str = "org.freedesktop.systemd1.NoSuchUnit";

/// The bus's error for a name without an owner: no systemd user manager is
/// registered.
pub const SERVICE_UNKNOWN: &'static str = "org.freedesktop.DBus.Error.ServiceUnknown";

/// How long a unit may take to stop, in microseconds.
pub const TIMEOUT_STOP_USEC: u64 = 30_000_000;

/// How systemd treats a start of a unit name that is still loaded.
pub const START_MODE: &'static str = "fail";

/// How systemd treats a stop beside other jobs of the unit.
pub const STOP_MODE: &'static str = "replace";

/// The flag that makes the proxy exit with status 0 when it is stopped.
pub const EXIT_ZERO_ON_SIGTERM: &'static str = "--exit-zero-on-sigterm";

pub const SYSTEMD_USER_HINT: &'static str =
    "Needs a systemd --user session: log in graphically, or run `loginctl enable-linger $USER` for a headless/SSH session.";

// ---------------------------------------------------------------------------
// Snapshots.
// ---------------------------------------------------------------------------

/// What one look at a unit learns.
#[derive(Debug, PartialEq, Eq)]
pub enum UnitSnapshot {
    /// systemd has never loaded this unit.
    Absent,
    Loaded {
        active_state: UnitActiveState,
        /// The raw sub state; diagnostic only.
        sub_state: String,
        /// The main process, where there is a live one.
        main_pid: Option<u32>,
        result: UnitResult,
        exec_outcome: ExecOutcome,
        /// When the current start attempt began, on the monotonic clock.
        started_at_monotonic_usec: Option<u64>,
    },
}

/// A unit's `ActiveState`; a value that is not known stays visible.
#[derive(Debug, PartialEq, Eq)]
pub enum UnitActiveState {
    Inactive,
    Activating,
    Active,
    Deactivating,
    Failed,
    Unknown(String),
}

/// A unit's `Result`; a value that is not known stays visible.
#[derive(Debug, PartialEq, Eq)]
pub enum UnitResult {
    Success,
    ExitCode,
    Signal,
    Timeout,
    CoreDump,
    ExecCondition,
    Unknown(String),
}

/// What `ExecMainStatus` means, decided by `ExecMainCode`.
#[derive(Debug, Clone, Copy, PartialEq, Eq, Structural)]
pub enum ExecOutcome {
    /// There is no exec result yet.
    NotExited,
    ExitCode(i32),
    Signal(i32),
    Unknown { code: i32, status: i32 },
}

pub const CLD_EXITED: i32 = 1;

pub const CLD_KILLED: i32 = 2;

pub const CLD_DUMPED: i32 = 3;

pub open spec fn active_state_of(raw: String) -> UnitActiveState {
    if raw@ == "inactive"@ {
        UnitActiveState::Inactive
    } else if raw@ == "activating"@ {
        UnitActiveState::Activating
    } else if raw@ == "active"@ {
        UnitActiveState::Active
    } else if raw@ == "deactivating"@ {
        UnitActiveState::Deactivating
    } else if raw@ == "failed"@ {
        UnitActiveState::Failed
    } else {
        UnitActiveState::Unknown(raw)
    }
}

pub fn map_active_state(raw: String) -> (state: UnitActiveState)
    ensures
        state == active_state_of(raw),
{
    if text::same(raw.as_str(), "inactive") {
        UnitActiveState::Inactive
    } else if text::same(raw.as_str(), "activating") {
        UnitActiveState::Activating
    } else if text::same(raw.as_str(), "active") {
        UnitActiveState::Active
    } else if text::same(raw.as_str(), "deactivating") {
        UnitActiveState::Deactivating
    } else if text::same(raw.as_str(), "failed") {
        UnitActiveState::Failed
    } else {
        UnitActiveState::Unknown(raw)
    }
}

pub open spec fn unit_result_of(raw: String) -> UnitResult {
    if raw@ == "success"@ {
        UnitResult::Success
    } else if raw@ == "exit-code"@ {
        UnitResult::ExitCode
    } else if raw@ == "signal"@ {
        UnitResult::Signal
    } else if raw@ == "timeout"@ {
        UnitResult::Timeout
    } else if raw@ == "core-dump"@ {
        UnitResult::CoreDump
    } else if raw@ == "exec-condition"@ {
        UnitResult::ExecCondition
    } else {
        UnitResult::Unknown(raw)
    }
}

pub fn map_unit_result(raw: String) -> (result: UnitResult)
    ensures
        result == unit_result_of(raw),
{
    if text::same(raw.as_str(), "success") {
        UnitResult::Success
    } else if text::same(raw.as_str(), "exit-code") {
        UnitResult::ExitCode
    } else if text::same(raw.as_str(), "signal") {
        UnitResult::Signal
    } else if text::same(raw.as_str(), "timeout") {
        UnitResult::Timeout
    } else if text::same(raw.as_str(), "core-dump") {
        UnitResult::CoreDump
    } else if text::same(raw.as_str(), "exec-condition") {
        UnitResult::ExecCondition
    } else {
        UnitResult::Unknown(raw)
    }
}

pub open spec fn exec_outcome_of(exec_main_code: i32, exec_main_status: i32) -> ExecOutcome {
    if exec_main_code == 0 {
        ExecOutcome::NotExited
    } else if exec_main_code == CLD_EXITED {
        ExecOutcome::ExitCode(exec_main_status)
    } else if exec_main_code == CLD_KILLED || exec_main_code == CLD_DUMPED {
        ExecOutcome::Signal(exec_main_status)
    } else {
        ExecOutcome::Unknown { code: exec_main_code, status: exec_main_status }
    }
}

pub fn exec_outcome(exec_main_code: i32, exec_main_status: i32) -> (outcome: ExecOutcome)
    ensures
        outcome == exec_outcome_of(exec_main_code, exec_main_status),
{
    if exec_main_code == 0 {
        ExecOutcome::NotExited
    } else if exec_main_code == CLD_EXITED {
        ExecOutcome::ExitCode(exec_main_status)
    } else if exec_main_code == CLD_KILLED || exec_main_code == CLD_DUMPED {
        ExecOutcome::Signal(exec_main_status)
    } else {
        ExecOutcome::Unknown { code: exec_main_code, status: exec_main_status }
    }
}

// ---------------------------------------------------------------------------
// Errors.
// ---------------------------------------------------------------------------

/// A D-Bus call that was answered with an error, or not at all.
#[derive(Debug, PartialEq, Eq)]
pub struct CallError {
    /// The D-Bus error name of an error reply.
    pub name: Option<String>,
    pub detail: String,
}

/// Why a supervisor operation failed.
#[derive(Debug, PartialEq, Eq)]
pub enum SupervisorError {
    Bus { detail: String },
    Call(CallError),
    MissingProperty { property: &'static str },
    MalformedProperty { property: &'static str },
    UnitName(UnitNameError),
}

pub open spec fn is_named(error: CallError, name: Seq<char>) -> bool {
    text::option_view(error.name) == Some(name)
}

fn has_name(error: &CallError, name: &str) -> (yes: bool)
    ensures
        yes == is_named(*error, name@),
{
    match &error.name {
        Some(own) => text::same(own.as_str(), name),
        None => false,
    }
}

/// Whether systemd does not know the unit.
pub fn is_no_such_unit(error: &CallError) -> (yes: bool)
    ensures
        yes == is_named(*error, NO_SUCH_UNIT@),
{
    has_name(error, NO_SUCH_UNIT)
}

/// Whether there is no systemd user manager on the bus.
pub fn is_service_unknown(error: &CallError) -> (yes: bool)
    ensures
        yes == is_named(*error, SERVICE_UNKNOWN@),
{
    has_name(error, SERVICE_UNKNOWN)
}

impl SupervisorError {
    /// Nothing can be operated: the bus or the user manager is missing.
    pub open spec fn dependency(self) -> bool {
        match self {
            SupervisorError::Bus { .. } => true,
            SupervisorError::Call(error) => is_named(error, SERVICE_UNKNOWN@),
            _ => false,
        }
    }

    /// Whether the failure means that nothing can be operated, rather than
    /// that one Connection's operation failed.
    pub fn is_dependency(&self) -> (yes: bool)
        ensures
            yes == self.dependency(),
    {
        match self {
            SupervisorError::Bus { .. } => true,
            SupervisorError::Call(error) => is_service_unknown(error),
            SupervisorError::MissingProperty { .. }
            | SupervisorError::MalformedProperty { .. }
            | SupervisorError::UnitName(_) => false,
        }
    }

    pub open spec fn text(self) -> Seq<char> {
        match self {
            SupervisorError::Bus { detail } => "could not reach the systemd user bus: "@ + detail@,
            SupervisorError::Call(error) => "systemd D-Bus call failed: "@ + error.detail@,
            SupervisorError::MissingProperty { property } => "systemd did not report the `"@
                + property@ + "` property for a Unit"@,
            SupervisorError::MalformedProperty { property } =>
                "systemd reported an unexpected type for the `"@ + property@ + "` property"@,
            SupervisorError::UnitName(error) => error.text(),
        }
    }

    /// The error in words.
    pub fn message(&self) -> (message: String)
        ensures
            message@ == self.text(),
    {
        match self {
            SupervisorError::Bus { detail } => text::concat(
                "could not reach the systemd user bus: ",
                detail.as_str(),
            ),
            SupervisorError::Call(error) => text::concat(
                "systemd D-Bus call failed: ",
                error.detail.as_str(),
            ),
            SupervisorError::MissingProperty { property } => {
                let mut message = "systemd did not report the `".to_owned();
                message.append(property);
                message.append("` property for a Unit");
                message
            },
            SupervisorError::MalformedProperty { property } => {
                let mut message = "systemd reported an unexpected type for the `".to_owned();
                message.append(property);
                message.append("` property");
                message
            },
            SupervisorError::UnitName(error) => error.message(),
        }
    }
}

// ---------------------------------------------------------------------------
// Reading a unit.
// ---------------------------------------------------------------------------

/// A D-Bus property value, as far as units have them.
#[derive(Debug, PartialEq, Eq)]
pub enum PropertyValue {
    Text(String),
    U32(u32),
    I32(i32),
    U64(u64),
    Other,
}

#[derive(Debug, PartialEq, Eq)]
pub struct Property {
    pub name: String,
    pub value: PropertyValue,
}

/// The value of a property, where it is reported.
pub open spec fn property_of(properties: Seq<Property>, name: Seq<char>) -> Option<PropertyValue>
    decreases properties.len(),
{
    if properties.len() == 0 {
        None
    } else if properties[0].name@ == name {
        Some(properties[0].value)
    } else {
        property_of(properties.drop_first(), name)
    }
}

fn find_property<'a>(properties: &'a Vec<Property>, name: &str) -> (value: Option<
    &'a PropertyValue,
>)
    ensures
        match value {
            Some(value) => property_of(properties@, name@) == Some(*value),
            None => property_of(properties@, name@) is None,
        },
{
    let mut i: usize = 0;
    assert(properties@.skip(0) =~= properties@);
    while i < properties.len()
        invariant
            i <= properties@.len(),
            property_of(properties@, name@) == property_of(properties@.skip(i as int), name@),
        decreases properties@.len() - i,
    {
        if text::same(properties[i].name.as_str(), name) {
            return Some(&properties[i].value);
        }
        assert(properties@.skip(i as int).drop_first() =~= properties@.skip(i + 1));
        i += 1;
    }
    None
}

/// What a required property comes to: its value, or an error for a missing
/// one or one of another type.
pub open spec fn text_property(properties: Seq<Property>, name: &'static str) -> Result<
    String,
    SupervisorError,
> {
    match property_of(properties, name@) {
        None => Err(SupervisorError::MissingProperty { property: name }),
        Some(PropertyValue::Text(value)) => Ok(value),
        Some(_) => Err(SupervisorError::MalformedProperty { property: name }),
    }
}

pub open spec fn u32_property(properties: Seq<Property>, name: &'static str) -> Result<
    u32,
    SupervisorError,
> {
    match property_of(properties, name@) {
        None => Err(SupervisorError::MissingProperty { property: name }),
        Some(PropertyValue::U32(value)) => Ok(value),
        Some(_) => Err(SupervisorError::MalformedProperty { property: name }),
    }
}

pub open spec fn i32_property(properties: Seq<Property>, name: &'static str) -> Result<
    i32,
    SupervisorError,
> {
    match property_of(properties, name@) {
        None => Err(SupervisorError::MissingProperty { property: name }),
        Some(PropertyValue::I32(value)) => Ok(value),
        Some(_) => Err(SupervisorError::MalformedProperty { property: name }),
    }
}

pub open spec fn u64_property(properties: Seq<Property>, name: &'static str) -> Result<
    u64,
    SupervisorError,
> {
    match property_of(properties, name@) {
        None => Err(SupervisorError::MissingProperty { property: name }),
        Some(PropertyValue::U64(value)) => Ok(value),
        Some(_) => Err(SupervisorError::MalformedProperty { property: name }),
    }
}

fn required_text(properties: &Vec<Property>, name: &'static str) -> (result: Result<
    String,
    SupervisorError,
>)
    ensures
        result == text_property(properties@, name),
{
    match find_property(properties, name) {
        None => Err(SupervisorError::MissingProperty { property: name }),
        Some(PropertyValue::Text(value)) => Ok(value.clone()),
        Some(_) => Err(SupervisorError::MalformedProperty { property: name }),
    }
}

fn required_u32(properties: &Vec<Property>, name: &'static str) -> (result: Result<
    u32,
    SupervisorError,
>)
    ensures
        result == u32_property(properties@, name),
{
    match find_property(properties, name) {
        None => Err(SupervisorError::MissingProperty { property: name }),
        Some(PropertyValue::U32(value)) => Ok(*value),
        Some(_) => Err(SupervisorError::MalformedProperty { property: name }),
    }
}

fn required_i32(properties: &Vec<Property>, name: &'static str) -> (result: Result<
    i32,
    SupervisorError,
>)
    ensures
        result == i32_property(properties@, name),
{
    match find_property(properties, name) {
        None => Err(SupervisorError::MissingProperty { property: name }),
        Some(PropertyValue::I32(value)) => Ok(*value),
        Some(_) => Err(SupervisorError::MalformedProperty { property: name }),
    }
}

fn required_u64(properties: &Vec<Property>, name: &'static str) -> (result: Result<
    u64,
    SupervisorError,
>)
    ensures
        result == u64_property(properties@, name),
{
    match find_property(properties, name) {
        None => Err(SupervisorError::MissingProperty { property: name }),
        Some(PropertyValue::U64(value)) => Ok(*value),
        Some(_) => Err(SupervisorError::MalformedProperty { property: name }),
    }
}

/// The snapshot that a unit's properties make, or the first property that is
/// missing or of another type. A zero pid or start time means that there is
/// none.
pub open spec fn snapshot_of(unit: Seq<Property>, service: Seq<Property>) -> Result<
    UnitSnapshot,
    SupervisorError,
> {
    let active_state = text_property(unit, "ActiveState");
    let sub_state = text_property(unit, "SubState");
    let main_pid = u32_property(service, "MainPID");
    let result = text_property(service, "Result");
    let code = i32_property(service, "ExecMainCode");
    let status = i32_property(service, "ExecMainStatus");
    let started = u64_property(service, "ExecMainStartTimestampMonotonic");
    if active_state is Err {
        Err(active_state->Err_0)
    } else if sub_state is Err {
        Err(sub_state->Err_0)
    } else if main_pid is Err {
        Err(main_pid->Err_0)
    } else if result is Err {
        Err(result->Err_0)
    } else if code is Err {
        Err(code->Err_0)
    } else if status is Err {
        Err(status->Err_0)
    } else if started is Err {
        Err(started->Err_0)
    } else {
        Ok(
            UnitSnapshot::Loaded {
                active_state: active_state_of(active_state->Ok_0),
                sub_state: sub_state->Ok_0,
                main_pid: if main_pid->Ok_0 == 0 {
                    None
                } else {
                    Some(main_pid->Ok_0)
                },
                result: unit_result_of(result->Ok_0),
                exec_outcome: exec_outcome_of(code->Ok_0, status->Ok_0),
                started_at_monotonic_usec: if started->Ok_0 == 0 {
                    None
                } else {
                    Some(started->Ok_0)
                },
            },
        )
    }
}

/// Reads a unit's properties.
pub fn read_snapshot(unit_props: &Vec<Property>, service_props: &Vec<Property>) -> (result: Result<
    UnitSnapshot,
    SupervisorError,
>)
    ensures
        result == snapshot_of(unit_props@, service_props@),
{
    let active_state = match required_text(unit_props, "ActiveState") {
        Ok(raw) => map_active_state(raw),
        Err(error) => return Err(error),
    };
    let sub_state = match required_text(unit_props, "SubState") {
        Ok(raw) => raw,
        Err(error) => return Err(error),
    };
    let main_pid: Option<u32> = match required_u32(service_props, "MainPID") {
        Ok(pid) => if pid == 0 {
            None
        } else {
            Some(pid)
        },
        Err(error) => return Err(error),
    };
    let result = match required_text(service_props, "Result") {
        Ok(raw) => map_unit_result(raw),
        Err(error) => return Err(error),
    };
    let exec_main_code: i32 = match required_i32(service_props, "ExecMainCode") {
        Ok(code) => code,
        Err(error) => return Err(error),
    };
    let exec_main_status: i32 = match required_i32(service_props, "ExecMainStatus") {
        Ok(status) => status,
        Err(error) => return Err(error),
    };
    let started_at_monotonic_usec: Option<u64> = match required_u64(
        service_props,
        "ExecMainStartTimestampMonotonic",
    ) {
        Ok(usec) => if usec == 0 {
            None
        } else {
            Some(usec)
        },
        Err(error) => return Err(error),
    };
    Ok(
        UnitSnapshot::Loaded {
            active_state,
            sub_state,
            main_pid,
            result,
            exec_outcome: exec_outcome(exec_main_code, exec_main_status),
            started_at_monotonic_usec,
        },
    )
}

/// What a failed lookup of a unit means: a unit that systemd has never loaded
/// is absent, which is no error.
pub fn show(error: CallError) -> (result: Result<UnitSnapshot, SupervisorError>)
    ensures
        result == if is_named(error, NO_SUCH_UNIT@) {
            Ok::<UnitSnapshot, SupervisorError>(UnitSnapshot::Absent)
        } else {
            Err(SupervisorError::Call(error))
        },
{
    if is_no_such_unit(&error) {
        Ok(UnitSnapshot::Absent)
    } else {
        Err(SupervisorError::Call(error))
    }
}

/// What the reply to a stop request means: a unit that systemd has never
/// loaded is already stopped.
pub fn stop(reply: Result<(), CallError>) -> (result: Result<(), SupervisorError>)
    ensures
        result == match reply {
            Ok(()) => Ok::<(), SupervisorError>(()),
            Err(error) => if is_named(error, NO_SUCH_UNIT@) {
                Ok(())
            } else {
                Err(SupervisorError::Call(error))
            },
        },
{
    match reply {
        Ok(()) => Ok(()),
        Err(error) => if is_no_such_unit(&error) {
            Ok(())
        } else {
            Err(SupervisorError::Call(error))
        },
    }
}

// ---------------------------------------------------------------------------
// Starting a unit.
// ---------------------------------------------------------------------------

/// A variable of the proxy's environment.
#[derive(Debug, PartialEq, Eq)]
pub struct EnvVar {
    pub name: String,
    pub value: String,
}

/// The transient unit that a start asks systemd for.
#[derive(Debug, PartialEq, Eq)]
pub struct TransientUnit {
    pub unit: UnitName,
    pub description: String,
    pub service_type: &'static str,
    pub kill_mode: &'static str,
    pub timeout_stop_usec: u64,
    pub restart: &'static str,
    pub environment: Vec<String>,
    pub program: String,
    pub argv: Vec<String>,
}

#[verifier::ext_equal]
pub struct TransientUnitView {
    pub unit: Seq<char>,
    pub description: Seq<char>,
    pub service_type: Seq<char>,
    pub kill_mode: Seq<char>,
    pub timeout_stop_usec: u64,
    pub restart: Seq<char>,
    pub environment: Seq<Seq<char>>,
    pub program: Seq<char>,
    pub argv: Seq<Seq<char>>,
}

impl View for TransientUnit {
    type V = TransientUnitView;

    open spec fn view(&self) -> TransientUnitView {
        TransientUnitView {
            unit: self.unit@,
            description: self.description@,
            service_type: self.service_type@,
            kill_mode: self.kill_mode@,
            timeout_stop_usec: self.timeout_stop_usec,
            restart: self.restart@,
            environment: text::views(self.environment@),
            program: self.program@,
            argv: text::views(self.argv@),
        }
    }
}

/// The proxy's arguments: the program, the listen endpoint, the boolean
/// flags, the configured extra arguments, and behind them exactly once the
/// exit flag and the instance.
pub open spec fn argv_of(connection: ConnectionView, proxy_bin: Seq<char>) -> Seq<Seq<char>> {
    seq![
        proxy_bin,
        "--address="@ + connection.address,
        "--port="@ + text::digits(connection.port as nat),
    ] + (if connection.private_ip {
        seq!["--private-ip"@]
    } else {
        Seq::empty()
    }) + (if connection.auto_iam_authn {
        seq!["--auto-iam-authn"@]
    } else {
        Seq::empty()
    }) + connection.extra_args.filter(|arg: Seq<char>| arg != EXIT_ZERO_ON_SIGTERM@)
        + seq![EXIT_ZERO_ON_SIGTERM@, connection.instance]
}

/// The names and values of an environment.
pub open spec fn env_view(env: Seq<EnvVar>) -> Seq<(Seq<char>, Seq<char>)> {
    env.map_values(|var: EnvVar| (var.name@, var.value@))
}

/// `NAME=value` for each variable.
pub open spec fn environment_of(env: Seq<(Seq<char>, Seq<char>)>) -> Seq<Seq<char>> {
    env.map_values(|var: (Seq<char>, Seq<char>)| var.0 + "="@ + var.1)
}

pub open spec fn transient_unit_of(
    connection: ConnectionView,
    unit: Seq<char>,
    proxy_bin: Seq<char>,
    env: Seq<(Seq<char>, Seq<char>)>,
) -> TransientUnitView {
    TransientUnitView {
        unit,
        description: "Cloud SQL Auth Proxy ("@ + connection.id + ")"@,
        service_type: "exec"@,
        kill_mode: "control-group"@,
        timeout_stop_usec: TIMEOUT_STOP_USEC,
        restart: "no"@,
        environment: environment_of(env),
        program: proxy_bin,
        argv: argv_of(connection, proxy_bin),
    }
}

/// The proxy's arguments for a Connection.
pub fn proxy_argv(connection: &Connection, proxy_bin: &str) -> (argv: Vec<String>)
    ensures
        text::views(argv@) == argv_of(connection@, proxy_bin@),
{
    let mut argv: Vec<String> = Vec::new();
    argv.push(proxy_bin.to_owned());
    argv.push(text::concat("--address=", connection.address.as_str()));
    argv.push(text::concat("--port=", text::decimal(connection.port as u64).as_str()));
    if connection.private_ip {
        argv.push("--private-ip".to_owned());
    }
    if connection.auto_iam_authn {
        argv.push("--auto-iam-authn".to_owned());
    }
    let ghost keep = |arg: Seq<char>| arg != EXIT_ZERO_ON_SIGTERM@;
    let ghost args = connection@.extra_args;
    let ghost head = text::views(argv@);
    proof {
        assert(args.take(0) =~= Seq::empty());
        assert(Seq::<Seq<char>>::empty().filter(keep) =~= Seq::empty()) by {
            reveal(Seq::filter);
        }
        assert(head =~= seq![
            proxy_bin@,
            "--address="@ + connection@.address,
            "--port="@ + text::digits(connection@.port as nat),
        ] + (if connection.private_ip {
            seq!["--private-ip"@]
        } else {
            Seq::empty()
        }) + (if connection.auto_iam_authn {
            seq!["--auto-iam-authn"@]
        } else {
            Seq::empty()
        }));
    }
    let mut i: usize = 0;
    while i < connection.extra_args.len()
        invariant
            i <= connection.extra_args@.len(),
            args == text::views(connection.extra_args@),
            keep == (|arg: Seq<char>| arg != EXIT_ZERO_ON_SIGTERM@),
            text::views(argv@) == head + args.take(i as int).filter(keep),
        decreases connection.extra_args@.len() - i,
    {
        let arg = &connection.extra_args[i];
        let ghost before = argv@;
        proof {
            assert(args.take(i + 1) =~= args.take(i as int).push(arg@));
            args.take(i as int).lemma_filter_push(arg@, keep);
        }
        if !text::same(arg.as_str(), EXIT_ZERO_ON_SIGTERM) {
            let copy = arg.clone();
            argv.push(copy);
            assert(text::views(argv@) =~= text::views(before).push(arg@));
            assert(text::views(argv@) =~= head + args.take(i + 1).filter(keep));
        }
        i += 1;
    }
    assert(args.take(args.len() as int) =~= args);
    let ghost before = argv@;
    argv.push(EXIT_ZERO_ON_SIGTERM.to_owned());
    argv.push(connection.instance.clone());
    assert(text::views(argv@) =~= text::views(before) + seq![
        EXIT_ZERO_ON_SIGTERM@,
        connection@.instance,
    ]);
    argv
}

/// The transient unit for a Connection's proxy.
pub fn start_transient(connection: &Connection, proxy_bin: &str, env: &Vec<EnvVar>) -> (result:
    Result<TransientUnit, SupervisorError>)
    ensures
        match (model::unit_name_of(connection@.id), result) {
            (Ok(unit), Ok(asked)) => asked@ == transient_unit_of(
                connection@,
                unit,
                proxy_bin@,
                env_view(env@),
            ),
            (Err(reason), Err(error)) => error == SupervisorError::UnitName(reason),
            _ => false,
        },
{
    let unit = match model::unit_name(connection.id.as_str()) {
        Ok(unit) => unit,
        Err(error) => return Err(SupervisorError::UnitName(error)),
    };
    let mut description = "Cloud SQL Auth Proxy (".to_owned();
    description.append(connection.id.as_str());
    description.append(")");
    let mut environment: Vec<String> = Vec::new();
    let mut i: usize = 0;
    while i < env.len()
        invariant
            i <= env@.len(),
            environment@.len() == i,
            forall|k: int|
                0 <= k < i ==> (#[trigger] environment@[k])@ == env@[k].name@ + "="@
                    + env@[k].value@,
        decreases env@.len() - i,
    {
        let mut entry = env[i].name.clone();
        entry.append("=");
        entry.append(env[i].value.as_str());
        environment.push(entry);
        i += 1;
    }
    assert(text::views(environment@) =~= environment_of(env_view(env@)));
    let argv = proxy_argv(connection, proxy_bin);
    Ok(
        TransientUnit {
            unit,
            description,
            service_type: "exec",
            kill_mode: "control-group",
            timeout_stop_usec: TIMEOUT_STOP_USEC,
            restart: "no",
            environment,
            program: proxy_bin.to_owned(),
            argv,
        },
    )
}

/// Of all the proxy's arguments exactly one is the exit flag: the one right
/// before the instance.
pub proof fn the_exit_flag_stands_once(connection: ConnectionView, proxy_bin: Seq<char>)
    requires
        proxy_bin != EXIT_ZERO_ON_SIGTERM@,
        connection.instance != EXIT_ZERO_ON_SIGTERM@,
    ensures
        ({
            let argv = argv_of(connection, proxy_bin);
            forall|i: int|
                0 <= i < argv.len() ==> (#[trigger] argv[i] == EXIT_ZERO_ON_SIGTERM@ <==> i
                    == argv.len() - 2)
        }),
{
    broadcast use vstd::seq_lib::group_filter_ensures;

    reveal_strlit("--address=");
    reveal_strlit("--port=");
    reveal_strlit("--private-ip");
    reveal_strlit("--auto-iam-authn");
    reveal_strlit("--exit-zero-on-sigterm");
    let flag = EXIT_ZERO_ON_SIGTERM@;
    let keep = |arg: Seq<char>| arg != EXIT_ZERO_ON_SIGTERM@;
    let extra = connection.extra_args.filter(keep);
    let address = "--address="@ + connection.address;
    let port = "--port="@ + text::digits(connection.port as nat);
    assert(address[2] == 'a' && flag[2] == 'e');
    assert(port[2] == 'p');
    assert("--private-ip"@[2] == 'p');
    assert("--auto-iam-authn"@[2] == 'a');
    assert forall|i: int| 0 <= i < extra.len() implies #[trigger] extra[i] != flag by {
        assert(keep(extra[i]));
    }
    let argv = argv_of(connection, proxy_bin);
    let tail = argv.len() - 2;
    let head = tail - extra.len();
    assert forall|i: int| 0 <= i < argv.len() implies (#[trigger] argv[i] == flag <==> i
        == argv.len() - 2) by {
        if i < head {
            assert(argv[i] == proxy_bin || argv[i] == address || argv[i] == port || argv[i]
                == "--private-ip"@ || argv[i] == "--auto-iam-authn"@);
        } else if i < tail {
            assert(argv[i] == extra[i - head]);
        }
    }
}

// ---------------------------------------------------------------------------
// Doctor.
// ---------------------------------------------------------------------------

pub open spec fn systemd_user_row(version: Result<Seq<char>, SupervisorError>) -> CheckRowView {
    match version {
        Ok(version) => CheckRowView {
            id: "systemd_user"@,
            status: CheckStatus::Pass,
            detail: "user bus ok (systemd "@ + version + ")"@,
            hint: None,
        },
        Err(error) => CheckRowView {
            id: "systemd_user"@,
            status: CheckStatus::Fail,
            detail: error.text(),
            hint: Some(SYSTEMD_USER_HINT@),
        },
    }
}

/// A result with its text taken by its view.
pub open spec fn version_view(version: Result<String, SupervisorError>) -> Result<
    Seq<char>,
    SupervisorError,
> {
    match version {
        Ok(version) => Ok(version@),
        Err(error) => Err(error),
    }
}

/// Doctor's check that the systemd user manager can be reached, given the
/// version it reports.
pub fn systemd_user_check(version: &Result<String, SupervisorError>) -> (row: CheckRow)
    ensures
        row@ == systemd_user_row(version_view(*version)),
{
    match version {
        Ok(version) => {
            let mut detail = "user bus ok (systemd ".to_owned();
            detail.append(version.as_str());
            detail.append(")");
            CheckRow {
                id: "systemd_user".to_owned(),
                status: CheckStatus::Pass,
                detail,
                hint: None,
            }
        },
        Err(error) => CheckRow {
            id: "systemd_user".to_owned(),
            status: CheckStatus::Fail,
            detail: error.message(),
            hint: Some(SYSTEMD_USER_HINT.to_owned()),
        },
    }
}

// ---------------------------------------------------------------------------
// Laws.
// ---------------------------------------------------------------------------

/// The proxy is run as the program that was found, listens where the
/// Connection says, and gets the Connection's instance as its last argument.
pub proof fn the_proxy_gets_its_endpoint_and_instance(
    connection: &Connection,
    proxy_bin: &str,
    argv: Vec<String>,
)
    requires
        call_ensures(proxy_argv, (connection, proxy_bin), argv),
    ensures
        argv@.len() >= 5,
        argv@[0]@ == proxy_bin@,
        argv@[1]@ == "--address="@ + connection.address@,
        argv@[2]@.len() > 7,
        argv@[2]@.take(7) == "--port="@,
        text::numeric(argv@[2]@.skip(7)),
        text::value(argv@[2]@.skip(7)) == connection.port,
        argv@[argv@.len() - 2]@ == "--exit-zero-on-sigterm"@,
        argv@[argv@.len() - 1]@ == connection.instance@,
{
    let args = text::views(argv@);
    assert(args == argv_of(connection@, proxy_bin@));
    assert(args.len() >= 5);
    assert(args[0] == argv@[0]@ && args[1] == argv@[1]@ && args[2] == argv@[2]@);
    assert(args[args.len() - 2] == argv@[args.len() - 2]@);
    assert(args[args.len() - 1] == argv@[args.len() - 1]@);
    let number = text::digits(connection.port as nat);
    reveal_strlit("--port=");
    assert(argv@[2]@.take(7) =~= "--port="@);
    assert(argv@[2]@.skip(7) =~= number);
    text::decimals_are_read_back(connection.port as nat);
}

/// The extra arguments of a Connection but for the exit flag, which the proxy
/// gets in any case.
pub open spec fn own_extra_args(connection: ConnectionView) -> Seq<Seq<char>> {
    connection.extra_args.filter(|arg: Seq<char>| arg != "--exit-zero-on-sigterm"@)
}

proof fn own_extra_args_stand_before_the_end(connection: ConnectionView, proxy_bin: Seq<char>)
    ensures
        ({
            let argv = argv_of(connection, proxy_bin);
            let own = own_extra_args(connection);
            let end = argv.len() - 2;
            &&& argv.len() >= 5 + own.len()
            &&& argv.subrange(end - own.len(), end) == own
        }),
{
    let keep = |arg: Seq<char>| arg != EXIT_ZERO_ON_SIGTERM@;
    let own = |arg: Seq<char>| arg != "--exit-zero-on-sigterm"@;
    assert(keep =~= own);
    let argv = argv_of(connection, proxy_bin);
    let extra = own_extra_args(connection);
    let end = argv.len() - 2;
    assert(argv.subrange(end - extra.len(), end) =~= extra);
}

/// Between the listen endpoint and the extra arguments stand the flags of the
/// Connection's settings and nothing else: `--private-ip` if and only if it
/// is to use the private IP, `--auto-iam-authn` if and only if it is to
/// authenticate by IAM, each of them once and whatever the other settings are.
pub proof fn flags_follow_their_settings(
    connection: &Connection,
    proxy_bin: &str,
    argv: Vec<String>,
)
    requires
        call_ensures(proxy_argv, (connection, proxy_bin), argv),
    ensures
        ({
            let args = text::views(argv@);
            let end = args.len() - 2 - own_extra_args(connection@).len();
            let flags = args.subrange(3, end);
            &&& 3 <= end <= args.len()
            &&& flags.contains("--private-ip"@) <==> connection.private_ip
            &&& flags.contains("--auto-iam-authn"@) <==> connection.auto_iam_authn
            &&& flags.no_duplicates()
            &&& forall|i: int|
                0 <= i < flags.len() ==> #[trigger] flags[i] == "--private-ip"@ || flags[i]
                    == "--auto-iam-authn"@
        }),
{
    reveal_strlit("--private-ip");
    reveal_strlit("--auto-iam-authn");
    own_extra_args_stand_before_the_end(connection@, proxy_bin@);
    let keep = |arg: Seq<char>| arg != EXIT_ZERO_ON_SIGTERM@;
    let own = |arg: Seq<char>| arg != "--exit-zero-on-sigterm"@;
    assert(keep =~= own);
    let args = text::views(argv@);
    let end = args.len() - 2 - own_extra_args(connection@).len();
    let flags = args.subrange(3, end);
    assert("--private-ip"@.len() != "--auto-iam-authn"@.len());
    let private = if connection.private_ip {
        seq!["--private-ip"@]
    } else {
        Seq::empty()
    };
    let iam = if connection.auto_iam_authn {
        seq!["--auto-iam-authn"@]
    } else {
        Seq::empty()
    };
    assert(flags =~= private + iam);
    if connection.private_ip {
        assert(flags[0] == "--private-ip"@);
    }
    if connection.auto_iam_authn {
        assert(flags[flags.len() - 1] == "--auto-iam-authn"@);
    }
}

/// The proxy gets every extra argument of the Connection, in their order,
/// right before the exit flag; only an exit flag among them is not repeated.
pub proof fn extra_arguments_are_handed_on(
    connection: &Connection,
    proxy_bin: &str,
    argv: Vec<String>,
)
    requires
        call_ensures(proxy_argv, (connection, proxy_bin), argv),
    ensures
        ({
            let args = text::views(argv@);
            let own = own_extra_args(connection@);
            let end = args.len() - 2;
            args.subrange(end - own.len(), end) == own
        }),
        forall|i: int|
            0 <= i < connection.extra_args@.len() && (#[trigger] connection.extra_args@[i])@
                != "--exit-zero-on-sigterm"@ ==> text::views(argv@).contains(
                connection.extra_args@[i]@,
            ),
{
    broadcast use vstd::seq_lib::group_filter_ensures;

    own_extra_args_stand_before_the_end(connection@, proxy_bin@);
    let args = text::views(argv@);
    let own = own_extra_args(connection@);
    let keep = |arg: Seq<char>| arg != "--exit-zero-on-sigterm"@;
    let end = args.len() - 2;
    assert forall|i: int|
        0 <= i < connection.extra_args@.len() && (#[trigger] connection.extra_args@[i])@
            != "--exit-zero-on-sigterm"@ implies args.contains(connection.extra_args@[i]@) by {
        let arg = connection@.extra_args[i];
        assert(arg == connection.extra_args@[i]@);
        assert(keep(arg));
        assert(connection@.extra_args.contains(arg));
        assert(own.contains(arg));
        let k = choose|k: int| 0 <= k < own.len() && own[k] == arg;
        assert(args.subrange(end - own.len(), end)[k] == arg);
        assert(args[end - own.len() + k] == arg);
    }
}

/// Switching a setting on adds its flag behind the listen endpoint and changes
/// nothing else of the arguments.
pub proof fn settings_add_one_argument_each(
    off: &Connection,
    on: &Connection,
    proxy_bin: &str,
    argv_off: Vec<String>,
    argv_on: Vec<String>,
)
    requires
        call_ensures(proxy_argv, (off, proxy_bin), argv_off),
        call_ensures(proxy_argv, (on, proxy_bin), argv_on),
    ensures
        !off.private_ip && on@ == (ConnectionView { private_ip: true, ..off@ }) ==> text::views(
            argv_on@,
        ) == text::views(argv_off@).insert(3, "--private-ip"@),
        !off.auto_iam_authn && on@ == (ConnectionView { auto_iam_authn: true, ..off@ })
            ==> text::views(argv_on@) == text::views(argv_off@).insert(
            if off.private_ip {
                4
            } else {
                3
            },
            "--auto-iam-authn"@,
        ),
{
    let before = text::views(argv_off@);
    let after = text::views(argv_on@);
    if !off.private_ip && on@ == (ConnectionView { private_ip: true, ..off@ }) {
        assert(after =~= before.insert(3, "--private-ip"@));
    }
    if !off.auto_iam_authn && on@ == (ConnectionView { auto_iam_authn: true, ..off@ }) {
        assert(after =~= before.insert(
            if off.private_ip {
                4
            } else {
                3
            },
            "--auto-iam-authn"@,
        ));
    }
}

/// The unit that a start asks for: the Connection's own name in its
/// description, the found program with the proxy's arguments, every variable
/// of the environment as `NAME=value` in its order, and a process that systemd
/// neither restarts nor leaves behind, with half a minute to stop.
pub proof fn asked_units_run_the_proxy(
    connection: &Connection,
    proxy_bin: &str,
    env: &Vec<EnvVar>,
    asked: TransientUnit,
    argv: Vec<String>,
)
    requires
        call_ensures(start_transient, (connection, proxy_bin, env), Ok(asked)),
        call_ensures(proxy_argv, (connection, proxy_bin), argv),
    ensures
        model::unit_name_of(connection.id@) == Ok::<Seq<char>, UnitNameError>(asked.unit@),
        asked.description@ == "Cloud SQL Auth Proxy ("@ + connection.id@ + ")"@,
        asked.service_type@ == "exec"@,
        asked.kill_mode@ == "control-group"@,
        asked.timeout_stop_usec == 30_000_000,
        asked.restart@ == "no"@,
        asked.program@ == proxy_bin@,
        text::views(asked.argv@) == text::views(argv@),
        asked.environment@.len() == env@.len(),
        forall|i: int|
            0 <= i < env@.len() ==> (#[trigger] asked.environment@[i])@ == env@[i].name@ + "="@
                + env@[i].value@,
{
    let entries = text::views(asked.environment@);
    assert(entries == environment_of(env_view(env@)));
    assert(entries.len() == env@.len());
    assert forall|i: int| 0 <= i < env@.len() implies (#[trigger] asked.environment@[i])@
        == env@[i].name@ + "="@ + env@[i].value@ by {
        assert(entries[i] == asked.environment@[i]@);
        assert(env_view(env@)[i] == (env@[i].name@, env@[i].value@));
    }
}

/// Only an id without a unit name keeps a start from asking for its unit.
pub proof fn ids_without_unit_names_cannot_start(
    connection: &Connection,
    proxy_bin: &str,
    env: &Vec<EnvVar>,
    result: Result<TransientUnit, SupervisorError>,
)
    requires
        call_ensures(start_transient, (connection, proxy_bin, env), result),
    ensures
        result is Err <==> model::unit_name_of(connection.id@) is Err,
        result matches Err(error) ==> error == SupervisorError::UnitName(
            model::unit_name_of(connection.id@)->Err_0,
        ),
{
}

/// The active states that systemd documents are told apart by their names; any
/// other name is kept as it is.
pub proof fn active_states_go_by_their_names(raw: String, state: UnitActiveState)
    requires
        call_ensures(map_active_state, (raw,), state),
    ensures
        state is Inactive <==> raw@ == "inactive"@,
        state is Activating <==> raw@ == "activating"@,
        state is Active <==> raw@ == "active"@,
        state is Deactivating <==> raw@ == "deactivating"@,
        state is Failed <==> raw@ == "failed"@,
        state matches UnitActiveState::Unknown(kept) ==> kept == raw,
{
    reveal_strlit("inactive");
    reveal_strlit("activating");
    reveal_strlit("active");
    reveal_strlit("deactivating");
    reveal_strlit("failed");
    assert("inactive"@[0] == 'i' && "activating"@[0] == 'a' && "active"@.len() == 6);
    assert("activating"@.len() == 10 && "deactivating"@[0] == 'd' && "failed"@[0] == 'f');
}

/// The results that systemd documents are told apart by their names; any other
/// name is kept as it is.
pub proof fn unit_results_go_by_their_names(raw: String, result: UnitResult)
    requires
        call_ensures(map_unit_result, (raw,), result),
    ensures
        result is Success <==> raw@ == "success"@,
        result is ExitCode <==> raw@ == "exit-code"@,
        result is Signal <==> raw@ == "signal"@,
        result is Timeout <==> raw@ == "timeout"@,
        result is CoreDump <==> raw@ == "core-dump"@,
        result is ExecCondition <==> raw@ == "exec-condition"@,
        result matches UnitResult::Unknown(kept) ==> kept == raw,
{
    reveal_strlit("success");
    reveal_strlit("exit-code");
    reveal_strlit("signal");
    reveal_strlit("timeout");
    reveal_strlit("core-dump");
    reveal_strlit("exec-condition");
    assert("success"@.len() == 7 && "success"@[0] == 's' && "exit-code"@[0] == 'e');
    assert("signal"@.len() == 6 && "timeout"@[0] == 't' && "core-dump"@[0] == 'c');
    assert("exit-code"@.len() == 9 && "exec-condition"@.len() == 14);
}

/// An exit status is an exit code for code 1, a signal for codes 2 and 3,
/// nothing yet for code 0; and it is never altered.
pub proof fn exec_outcomes_keep_their_status(code: i32, status: i32, outcome: ExecOutcome)
    requires
        call_ensures(exec_outcome, (code, status), outcome),
    ensures
        outcome is NotExited <==> code == 0,
        outcome is ExitCode <==> code == 1,
        outcome is Signal <==> code == 2 || code == 3,
        outcome matches ExecOutcome::ExitCode(kept) ==> kept == status,
        outcome matches ExecOutcome::Signal(kept) ==> kept == status,
        outcome matches ExecOutcome::Unknown { code: of, status: kept } ==> of == code && kept
            == status,
{
}

/// Whether the first property of a name has a value.
pub open spec fn reported(
    properties: Seq<Property>,
    name: Seq<char>,
    value: PropertyValue,
    at: int,
) -> bool {
    &&& 0 <= at < properties.len()
    &&& properties[at].name@ == name
    &&& properties[at].value == value
    &&& forall|j: int| 0 <= j < at ==> (#[trigger] properties[j]).name@ != name
}

proof fn first_properties_are_found(
    properties: Seq<Property>,
    name: Seq<char>,
    value: PropertyValue,
    at: int,
)
    requires
        reported(properties, name, value, at),
    ensures
        property_of(properties, name) == Some(value),
    decreases properties.len(),
{
    if at > 0 {
        let rest = properties.drop_first();
        assert(properties[0].name@ != name);
        assert forall|j: int| 0 <= j < at - 1 implies (#[trigger] rest[j]).name@ != name by {
            assert(rest[j] == properties[j + 1]);
        }
        first_properties_are_found(rest, name, value, at - 1);
    }
}

proof fn missing_properties_are_not_found(properties: Seq<Property>, name: Seq<char>)
    ensures
        property_of(properties, name) is None <==> forall|j: int|
            0 <= j < properties.len() ==> (#[trigger] properties[j]).name@ != name,
    decreases properties.len(),
{
    if properties.len() > 0 {
        let rest = properties.drop_first();
        missing_properties_are_not_found(rest, name);
        assert forall|j: int| 0 <= j < rest.len() implies #[trigger] rest[j] == properties[j
            + 1] by {}
        if property_of(properties, name) is None {
            assert forall|j: int| 0 <= j < properties.len() implies (#[trigger] properties[j]).name@
                != name by {
                if j > 0 {
                    assert(rest[j - 1] == properties[j]);
                }
            }
        }
    }
}

/// A snapshot says what systemd reported: the states and results by their
/// names, the exit status unaltered, and a pid and a start time unless they
/// are zero.
pub proof fn snapshots_say_what_systemd_reported(
    unit: &Vec<Property>,
    service: &Vec<Property>,
    active: String,
    sub: String,
    pid: u32,
    outcome: String,
    code: i32,
    status: i32,
    started: u64,
    at: Seq<int>,
    result: Result<UnitSnapshot, SupervisorError>,
)
    requires
        call_ensures(read_snapshot, (unit, service), result),
        at.len() == 7,
        reported(unit@, "ActiveState"@, PropertyValue::Text(active), at[0]),
        reported(unit@, "SubState"@, PropertyValue::Text(sub), at[1]),
        reported(service@, "MainPID"@, PropertyValue::U32(pid), at[2]),
        reported(service@, "Result"@, PropertyValue::Text(outcome), at[3]),
        reported(service@, "ExecMainCode"@, PropertyValue::I32(code), at[4]),
        reported(service@, "ExecMainStatus"@, PropertyValue::I32(status), at[5]),
        reported(
            service@,
            "ExecMainStartTimestampMonotonic"@,
            PropertyValue::U64(started),
            at[6],
        ),
    ensures
        result matches Ok(UnitSnapshot::Loaded {
            active_state,
            sub_state,
            main_pid,
            result: unit_result,
            exec_outcome: ended,
            started_at_monotonic_usec,
        }) && {
            &&& active_state == active_state_of(active)
            &&& sub_state == sub
            &&& main_pid is None <==> pid == 0
            &&& main_pid is Some ==> main_pid == Some(pid)
            &&& unit_result == unit_result_of(outcome)
            &&& ended == exec_outcome_of(code, status)
            &&& started_at_monotonic_usec is None <==> started == 0
            &&& started_at_monotonic_usec is Some ==> started_at_monotonic_usec == Some(started)
        },
{
    first_properties_are_found(unit@, "ActiveState"@, PropertyValue::Text(active), at[0]);
    first_properties_are_found(unit@, "SubState"@, PropertyValue::Text(sub), at[1]);
    first_properties_are_found(service@, "MainPID"@, PropertyValue::U32(pid), at[2]);
    first_properties_are_found(service@, "Result"@, PropertyValue::Text(outcome), at[3]);
    first_properties_are_found(service@, "ExecMainCode"@, PropertyValue::I32(code), at[4]);
    first_properties_are_found(service@, "ExecMainStatus"@, PropertyValue::I32(status), at[5]);
    first_properties_are_found(
        service@,
        "ExecMainStartTimestampMonotonic"@,
        PropertyValue::U64(started),
        at[6],
    );
}

/// Whether no property has a name.
pub open spec fn unreported(properties: Seq<Property>, name: Seq<char>) -> bool {
    forall|j: int| 0 <= j < properties.len() ==> (#[trigger] properties[j]).name@ != name
}

/// A unit with a missing property has no snapshot.
pub proof fn snapshots_need_every_property(
    unit: &Vec<Property>,
    service: &Vec<Property>,
    result: Result<UnitSnapshot, SupervisorError>,
)
    requires
        call_ensures(read_snapshot, (unit, service), result),
    ensures
        unreported(unit@, "ActiveState"@) || unreported(unit@, "SubState"@) || unreported(
            service@,
            "MainPID"@,
        ) || unreported(service@, "Result"@) || unreported(service@, "ExecMainCode"@)
            || unreported(service@, "ExecMainStatus"@) || unreported(
            service@,
            "ExecMainStartTimestampMonotonic"@,
        ) ==> result is Err,
        result matches Err(SupervisorError::MissingProperty { property }) ==> unreported(
            unit@,
            property@,
        ) || unreported(service@, property@),
        result matches Err(error) ==> error is MissingProperty || error is MalformedProperty,
{
    missing_properties_are_not_found(unit@, "ActiveState"@);
    missing_properties_are_not_found(unit@, "SubState"@);
    missing_properties_are_not_found(service@, "MainPID"@);
    missing_properties_are_not_found(service@, "Result"@);
    missing_properties_are_not_found(service@, "ExecMainCode"@);
    missing_properties_are_not_found(service@, "ExecMainStatus"@);
    missing_properties_are_not_found(service@, "ExecMainStartTimestampMonotonic"@);
}

/// A D-Bus error has a name.
pub open spec fn error_name(error: CallError, name: Seq<char>) -> bool {
    error.name matches Some(own) && own@ == name
}

/// A unit that systemd has never loaded is absent when it is looked at, and
/// stopped when it is to be stopped. Any other error of systemd stays one.
pub proof fn unknown_units_are_absent_and_stopped(
    error: CallError,
    shown: Result<UnitSnapshot, SupervisorError>,
    stopped: Result<(), SupervisorError>,
)
    requires
        call_ensures(show, (error,), shown),
        call_ensures(stop, (Err(error),), stopped),
    ensures
        error_name(error, "org.freedesktop.systemd1.NoSuchUnit"@) ==> shown == Ok::<
            UnitSnapshot,
            SupervisorError,
        >(UnitSnapshot::Absent) && stopped is Ok,
        !error_name(error, "org.freedesktop.systemd1.NoSuchUnit"@) ==> shown == Err::<
            UnitSnapshot,
            SupervisorError,
        >(SupervisorError::Call(error)) && stopped == Err::<(), SupervisorError>(
            SupervisorError::Call(error),
        ),
        forall|accepted: Result<(), SupervisorError>|
            call_ensures(stop, (Ok(()),), accepted) ==> accepted is Ok,
{
}

/// Nothing can be operated exactly where the bus cannot be reached, or no
/// systemd user manager is on it.
pub proof fn dependencies_are_the_bus_and_the_manager(error: &SupervisorError, yes: bool)
    requires
        call_ensures(SupervisorError::is_dependency, (error,), yes),
    ensures
        yes <==> match *error {
            SupervisorError::Bus { .. } => true,
            SupervisorError::Call(reply) => error_name(
                reply,
                "org.freedesktop.DBus.Error.ServiceUnknown"@,
            ),
            SupervisorError::MissingProperty { .. } => false,
            SupervisorError::MalformedProperty { .. } => false,
            SupervisorError::UnitName(_) => false,
        },
{
}

/// Doctor's check of the user manager passes exactly where a version was read,
/// and then shows it.
pub proof fn managers_pass_with_their_version(
    version: &Result<String, SupervisorError>,
    row: CheckRow,
)
    requires
        call_ensures(systemd_user_check, (version,), row),
    ensures
        row.id@ == "systemd_user"@,
        match *version {
            Ok(version) => row.status == CheckStatus::Pass && row.hint is None && row.detail@
                == "user bus ok (systemd "@ + version@ + ")"@,
            Err(error) => row.status == CheckStatus::Fail && row.hint is Some && forall|
                message: String,
            |
                call_ensures(SupervisorError::message, (&error,), message) ==> row.detail@
                    == message@,
        },
{
}

/// A unit with a property of another type than systemd documents has no
/// snapshot either.
pub proof fn snapshots_need_properties_of_their_types(
    unit: &Vec<Property>,
    service: &Vec<Property>,
    value: PropertyValue,
    at: int,
    result: Result<UnitSnapshot, SupervisorError>,
)
    requires
        call_ensures(read_snapshot, (unit, service), result),
    ensures
        !(value is Text) && (reported(unit@, "ActiveState"@, value, at) || reported(
            unit@,
            "SubState"@,
            value,
            at,
        ) || reported(service@, "Result"@, value, at)) ==> result is Err,
        !(value is U32) && reported(service@, "MainPID"@, value, at) ==> result is Err,
        !(value is I32) && (reported(service@, "ExecMainCode"@, value, at) || reported(
            service@,
            "ExecMainStatus"@,
            value,
            at,
        )) ==> result is Err,
        !(value is U64) && reported(service@, "ExecMainStartTimestampMonotonic"@, value, at)
            ==> result is Err,
{
    if reported(unit@, "ActiveState"@, value, at) {
        first_properties_are_found(unit@, "ActiveState"@, value, at);
    }
    if reported(unit@, "SubState"@, value, at) {
        first_properties_are_found(unit@, "SubState"@, value, at);
    }
    if reported(service@, "Result"@, value, at) {
        first_properties_are_found(service@, "Result"@, value, at);
    }
    if reported(service@, "MainPID"@, value, at) {
        first_properties_are_found(service@, "MainPID"@, value, at);
    }
    if reported(service@, "ExecMainCode"@, value, at) {
        first_properties_are_found(service@, "ExecMainCode"@, value, at);
    }
    if reported(service@, "ExecMainStatus"@, value, at) {
        first_properties_are_found(service@, "ExecMainStatus"@, value, at);
    }
    if reported(service@, "ExecMainStartTimestampMonotonic"@, value, at) {
        first_properties_are_found(service@, "ExecMainStartTimestampMonotonic"@, value, at);
    }
}

/// An error tells what kind it is, and what the bus, systemd or the property
/// was.
pub proof fn errors_tell_their_cause(error: &SupervisorError, message: String)
    requires
        call_ensures(SupervisorError::message, (error,), message),
    ensures
        error matches SupervisorError::Bus { detail } ==> message@
            == "could not reach the systemd user bus: "@ + detail@,
        error matches SupervisorError::Call(reply) ==> message@ == "systemd D-Bus call failed: "@
            + reply.detail@,
        error matches SupervisorError::MissingProperty { property } ==> message@
            == "systemd did not report the `"@ + property@ + "` property for a Unit"@,
        error matches SupervisorError::MalformedProperty { property } ==> message@
            == "systemd reported an unexpected type for the `"@ + property@ + "` property"@,
        error matches SupervisorError::UnitName(source) ==> forall|reason: String|
            call_ensures(UnitNameError::message, (&source,), reason) ==> message@ == reason@,
{
}

} // verus!
