//! The Connection inventory: merging of defaults, validation and lookup.
//!
//! [`parse`] turns the raw shape of a `connections.json` document into a
//! [`Config`], or says what is wrong with it.

use vstd::prelude::*;

use crate::model;
use crate::model::{Connection, ConnectionView, UnitName, UnitNameError};
use crate::paths;
use crate::text;

verus! {

pub const MIN_UNPRIVILEGED_PORT: u16 = 1024;

pub const MAX_ID_LEN: usize = 64;

/// The most Connections a config may hold, disabled ones counted too.
pub const MAX_CONNECTIONS: usize = 32;

/// The inventory after merging and validation.
#[derive(Debug, PartialEq, Eq)]
pub struct Config {
    pub proxy_bin: String,
    pub connections: Vec<Connection>,
}

#[verifier::ext_equal]
pub struct ConfigView {
    pub proxy_bin: Seq<char>,
    pub connections: Seq<ConnectionView>,
}

impl View for Config {
    type V = ConfigView;

    open spec fn view(&self) -> ConfigView {
        ConfigView {
            proxy_bin: self.proxy_bin@,
            connections: model::connection_views(self.connections@),
        }
    }
}

/// Why a config could not be loaded.
#[derive(Debug, PartialEq, Eq)]
pub enum ConfigError {
    /// The file could not be read.
    Io { path: String, detail: String },
    /// The file is not a document of the right shape.
    Json { detail: String },
    UnsupportedVersion { found: i64 },
    EmptyProxyBin,
    InvalidConnection { id: String, reason: String },
    DuplicateId(String),
    DuplicatePort(u16),
    DuplicateInstance(String),
    TooManyConnections { count: usize, max: usize },
}

#[verifier::ext_equal]
pub enum ConfigErrorView {
    Io { path: Seq<char>, detail: Seq<char> },
    Json { detail: Seq<char> },
    UnsupportedVersion { found: i64 },
    EmptyProxyBin,
    InvalidConnection { id: Seq<char>, reason: Seq<char> },
    DuplicateId(Seq<char>),
    DuplicatePort(u16),
    DuplicateInstance(Seq<char>),
    TooManyConnections { count: nat, max: nat },
}

impl View for ConfigError {
    type V = ConfigErrorView;

    open spec fn view(&self) -> ConfigErrorView {
        match self {
            ConfigError::Io { path, detail } => ConfigErrorView::Io {
                path: path@,
                detail: detail@,
            },
            ConfigError::Json { detail } => ConfigErrorView::Json { detail: detail@ },
            ConfigError::UnsupportedVersion { found } => ConfigErrorView::UnsupportedVersion {
                found: *found,
            },
            ConfigError::EmptyProxyBin => ConfigErrorView::EmptyProxyBin,
            ConfigError::InvalidConnection { id, reason } => ConfigErrorView::InvalidConnection {
                id: id@,
                reason: reason@,
            },
            ConfigError::DuplicateId(id) => ConfigErrorView::DuplicateId(id@),
            ConfigError::DuplicatePort(port) => ConfigErrorView::DuplicatePort(*port),
            ConfigError::DuplicateInstance(instance) => ConfigErrorView::DuplicateInstance(
                instance@,
            ),
            ConfigError::TooManyConnections { count, max } => ConfigErrorView::TooManyConnections {
                count: *count as nat,
                max: *max as nat,
            },
        }
    }
}

impl ConfigErrorView {
    pub open spec fn text(self) -> Seq<char> {
        match self {
            ConfigErrorView::Io { path, detail } => "failed to read config file "@ + path + ": "@
                + detail,
            ConfigErrorView::Json { detail } => "invalid config JSON: "@ + detail,
            ConfigErrorView::UnsupportedVersion { found } => "config version "@
                + text::signed_digits(found as int) + " is not supported (expected 1)"@,
            ConfigErrorView::EmptyProxyBin => "proxy_bin must not be empty"@,
            ConfigErrorView::InvalidConnection { id, reason } => "connection `"@ + id + "`: "@
                + reason,
            ConfigErrorView::DuplicateId(id) => "duplicate connection id `"@ + id + "`"@,
            ConfigErrorView::DuplicatePort(port) => "duplicate port "@ + text::digits(port as nat),
            ConfigErrorView::DuplicateInstance(instance) => "duplicate instance `"@ + instance
                + "`"@,
            ConfigErrorView::TooManyConnections { count, max } => "config holds "@ + text::digits(
                count,
            ) + " connections, the maximum is "@ + text::digits(max),
        }
    }
}

impl ConfigError {
    /// The error in words.
    pub fn message(&self) -> (message: String)
        ensures
            message@ == self@.text(),
    {
        match self {
            ConfigError::Io { path, detail } => {
                let mut message = "failed to read config file ".to_owned();
                message.append(path.as_str());
                message.append(": ");
                message.append(detail.as_str());
                message
            },
            ConfigError::Json { detail } => text::concat("invalid config JSON: ", detail.as_str()),
            ConfigError::UnsupportedVersion { found } => {
                let mut message = "config version ".to_owned();
                message.append(text::signed_decimal(*found).as_str());
                message.append(" is not supported (expected 1)");
                message
            },
            ConfigError::EmptyProxyBin => "proxy_bin must not be empty".to_owned(),
            ConfigError::InvalidConnection { id, reason } => {
                let mut message = "connection `".to_owned();
                message.append(id.as_str());
                message.append("`: ");
                message.append(reason.as_str());
                message
            },
            ConfigError::DuplicateId(id) => {
                let mut message = "duplicate connection id `".to_owned();
                message.append(id.as_str());
                message.append("`");
                message
            },
            ConfigError::DuplicatePort(port) => text::concat(
                "duplicate port ",
                text::decimal(*port as u64).as_str(),
            ),
            ConfigError::DuplicateInstance(instance) => {
                let mut message = "duplicate instance `".to_owned();
                message.append(instance.as_str());
                message.append("`");
                message
            },
            ConfigError::TooManyConnections { count, max } => {
                let mut message = "config holds ".to_owned();
                message.append(text::decimal(*count as u64).as_str());
                message.append(" connections, the maximum is ");
                message.append(text::decimal(*max as u64).as_str());
                message
            },
        }
    }
}

// ---------------------------------------------------------------------------
// The raw document.
// ---------------------------------------------------------------------------

/// The shape of a `connections.json` document.
#[derive(Debug)]
pub struct RawConfig {
    pub version: i64,
    pub proxy_bin: Option<String>,
    pub defaults: Option<RawDefaults>,
    pub connections: Vec<RawConnection>,
}

/// What a document may set once for all its Connections. The identity fields
/// stand on every Connection and cannot come from here.
#[derive(Debug)]
pub struct RawDefaults {
    pub address: Option<String>,
    pub private_ip: Option<bool>,
    pub auto_iam_authn: Option<bool>,
    pub extra_args: Option<Vec<String>>,
    pub enabled: Option<bool>,
}

impl Default for RawDefaults {
    fn default() -> (defaults: Self)
        ensures
            defaults == no_defaults(),
    {
        RawDefaults {
            address: None,
            private_ip: None,
            auto_iam_authn: None,
            extra_args: None,
            enabled: None,
        }
    }
}

#[derive(Debug)]
pub struct RawConnection {
    pub id: String,
    pub name: String,
    pub group: String,
    pub instance: String,
    pub port: u16,
    pub address: Option<String>,
    pub private_ip: Option<bool>,
    pub auto_iam_authn: Option<bool>,
    pub extra_args: Option<Vec<String>>,
    pub enabled: Option<bool>,
}

pub open spec fn no_defaults() -> RawDefaults {
    RawDefaults {
        address: None,
        private_ip: None,
        auto_iam_authn: None,
        extra_args: None,
        enabled: None,
    }
}

// ---------------------------------------------------------------------------
// What is valid.
// ---------------------------------------------------------------------------

/// `^[a-zA-Z0-9][a-zA-Z0-9_-]*$`, at most [`MAX_ID_LEN`] long.
pub open spec fn valid_id(id: Seq<char>) -> bool {
    model::plain_id(id) && id.len() <= MAX_ID_LEN
}

pub open spec fn valid_group(group: Seq<char>) -> bool {
    group.len() > 0 && group[0] != '-'
}

/// Not empty and without whitespace.
pub open spec fn valid_segment(segment: Seq<char>) -> bool {
    segment.len() > 0 && forall|i: int|
        0 <= i < segment.len() ==> !text::whitespace(#[trigger] segment[i])
}

/// `project:region:instance`.
pub open spec fn valid_instance(instance: Seq<char>) -> bool {
    let segments = text::pieces(instance, ':');
    segments.len() == 3 && forall|i: int| 0 <= i < 3 ==> valid_segment(#[trigger] segments[i])
}

pub open spec fn reserved_port(port: u16) -> bool {
    port == 1433 || port == 3306 || port == 5432
}

pub open spec fn valid_port(port: u16) -> bool {
    port >= MIN_UNPRIVILEGED_PORT && !reserved_port(port)
}

pub open spec fn empty_text(field: Seq<char>) -> Seq<char> {
    field + " must not be empty"@
}

pub open spec fn id_fault(id: Seq<char>) -> Option<Seq<char>> {
    if valid_id(id) {
        None
    } else {
        Some(
            "id `"@ + id + "` must match ^[a-zA-Z0-9][a-zA-Z0-9_-]*$ and be at most "@
                + text::digits(MAX_ID_LEN as nat) + " bytes"@,
        )
    }
}

pub open spec fn empty_fault(field: Seq<char>, value: Seq<char>) -> Option<Seq<char>> {
    if value.len() > 0 {
        None
    } else {
        Some(empty_text(field))
    }
}

pub open spec fn group_fault(group: Seq<char>) -> Option<Seq<char>> {
    if group.len() == 0 {
        Some(empty_text("group"@))
    } else if group[0] == '-' {
        Some("group `"@ + group + "` must not start with '-'"@)
    } else {
        None
    }
}

pub open spec fn instance_fault(instance: Seq<char>) -> Option<Seq<char>> {
    if valid_instance(instance) {
        None
    } else {
        Some(
            "instance `"@ + instance
                + "` must be project:region:instance (three non-empty segments)"@,
        )
    }
}

pub open spec fn port_fault(port: u16) -> Option<Seq<char>> {
    if port < MIN_UNPRIVILEGED_PORT {
        Some(
            "port "@ + text::digits(port as nat) + " is privileged (must be >= "@ + text::digits(
                MIN_UNPRIVILEGED_PORT as nat,
            ) + ")"@,
        )
    } else if reserved_port(port) {
        Some("port "@ + text::digits(port as nat) + " is reserved"@)
    } else {
        None
    }
}

/// A setting of the Connection, else of the defaults, else built in.
pub open spec fn layered<T>(own: Option<T>, default: Option<T>, built_in: T) -> T {
    match own {
        Some(value) => value,
        None => match default {
            Some(value) => value,
            None => built_in,
        },
    }
}

/// The Connection that a raw one becomes on top of the defaults.
pub open spec fn merged(defaults: RawDefaults, raw: RawConnection) -> ConnectionView {
    ConnectionView {
        id: raw.id@,
        name: raw.name@,
        group: raw.group@,
        instance: raw.instance@,
        address: layered(
            text::option_view(raw.address),
            text::option_view(defaults.address),
            "127.0.0.1"@,
        ),
        port: raw.port,
        private_ip: layered(raw.private_ip, defaults.private_ip, false),
        auto_iam_authn: layered(raw.auto_iam_authn, defaults.auto_iam_authn, false),
        extra_args: layered(
            args_view(raw.extra_args),
            args_view(defaults.extra_args),
            Seq::empty(),
        ),
        enabled: layered(raw.enabled, defaults.enabled, true),
    }
}

pub open spec fn args_view(args: Option<Vec<String>>) -> Option<Seq<Seq<char>>> {
    match args {
        Some(args) => Some(text::views(args@)),
        None => None,
    }
}

/// The first thing wrong with a Connection, in the order of its fields.
pub open spec fn connection_fault(connection: ConnectionView) -> Option<Seq<char>> {
    if id_fault(connection.id) is Some {
        id_fault(connection.id)
    } else if empty_fault("name"@, connection.name) is Some {
        empty_fault("name"@, connection.name)
    } else if group_fault(connection.group) is Some {
        group_fault(connection.group)
    } else if instance_fault(connection.instance) is Some {
        instance_fault(connection.instance)
    } else if port_fault(connection.port) is Some {
        port_fault(connection.port)
    } else {
        empty_fault("address"@, connection.address)
    }
}

/// The first invalid Connection of a document.
pub open spec fn first_invalid(defaults: RawDefaults, raws: Seq<RawConnection>) -> Option<
    ConfigErrorView,
>
    decreases raws.len(),
{
    if raws.len() == 0 {
        None
    } else if first_invalid(defaults, raws.drop_last()) is Some {
        first_invalid(defaults, raws.drop_last())
    } else {
        match connection_fault(merged(defaults, raws.last())) {
            Some(reason) => Some(
                ConfigErrorView::InvalidConnection { id: raws.last().id@, reason },
            ),
            None => None,
        }
    }
}

/// What a Connection repeats of earlier ones: their id, port or instance.
pub open spec fn repetition(earlier: Seq<ConnectionView>, connection: ConnectionView) -> Option<
    ConfigErrorView,
> {
    if exists|i: int| 0 <= i < earlier.len() && (#[trigger] earlier[i]).id == connection.id {
        Some(ConfigErrorView::DuplicateId(connection.id))
    } else if exists|i: int|
        0 <= i < earlier.len() && (#[trigger] earlier[i]).port == connection.port {
        Some(ConfigErrorView::DuplicatePort(connection.port))
    } else if exists|i: int|
        0 <= i < earlier.len() && (#[trigger] earlier[i]).instance == connection.instance {
        Some(ConfigErrorView::DuplicateInstance(connection.instance))
    } else {
        None
    }
}

/// The first repetition in a list of Connections.
pub open spec fn first_repetition(connections: Seq<ConnectionView>) -> Option<ConfigErrorView>
    decreases connections.len(),
{
    if connections.len() == 0 {
        None
    } else if first_repetition(connections.drop_last()) is Some {
        first_repetition(connections.drop_last())
    } else {
        repetition(connections.drop_last(), connections.last())
    }
}

pub open spec fn merged_all(defaults: RawDefaults, raws: Seq<RawConnection>) -> Seq<
    ConnectionView,
> {
    raws.map_values(|raw: RawConnection| merged(defaults, raw))
}

pub open spec fn raw_defaults(raw: RawConfig) -> RawDefaults {
    match raw.defaults {
        Some(defaults) => defaults,
        None => no_defaults(),
    }
}

/// The config of a document, or the first thing wrong with it: its version,
/// then its Connections one by one, then their number, then repetitions, then
/// the proxy binary.
pub open spec fn parsed(raw: RawConfig) -> Result<ConfigView, ConfigErrorView> {
    let defaults = raw_defaults(raw);
    let connections = merged_all(defaults, raw.connections@);
    if raw.version != 1 {
        Err(ConfigErrorView::UnsupportedVersion { found: raw.version })
    } else if first_invalid(defaults, raw.connections@) is Some {
        Err(first_invalid(defaults, raw.connections@)->0)
    } else if connections.len() > MAX_CONNECTIONS {
        Err(
            ConfigErrorView::TooManyConnections {
                count: connections.len(),
                max: MAX_CONNECTIONS as nat,
            },
        )
    } else if first_repetition(connections) is Some {
        Err(first_repetition(connections)->0)
    } else {
        match text::option_view(raw.proxy_bin) {
            None => Ok(ConfigView { proxy_bin: "cloud-sql-proxy"@, connections }),
            Some(bin) => if bin.len() == 0 {
                Err(ConfigErrorView::EmptyProxyBin)
            } else {
                Ok(ConfigView { proxy_bin: bin, connections })
            },
        }
    }
}

// ---------------------------------------------------------------------------
// Parsing.
// ---------------------------------------------------------------------------

/// Whether a validation found what the model says is wrong.
pub open spec fn reports(result: Result<(), String>, fault: Option<Seq<char>>) -> bool {
    match result {
        Ok(()) => fault is None,
        Err(reason) => fault == Some(reason@),
    }
}

/// Merges and validates a raw document.
pub fn parse(raw: &RawConfig) -> (result: Result<Config, ConfigError>)
    ensures
        match result {
            Ok(config) => parsed(*raw) == Ok::<ConfigView, ConfigErrorView>(config@),
            Err(error) => parsed(*raw) == Err::<ConfigView, ConfigErrorView>(error@),
        },
{
    if raw.version != 1 {
        return Err(ConfigError::UnsupportedVersion { found: raw.version });
    }
    let built_in = RawDefaults::default();
    let defaults: &RawDefaults = match &raw.defaults {
        Some(defaults) => defaults,
        None => &built_in,
    };
    let mut connections: Vec<Connection> = Vec::new();
    let mut i: usize = 0;
    while i < raw.connections.len()
        invariant
            i <= raw.connections@.len(),
            *defaults == raw_defaults(*raw),
            raw.version == 1,
            first_invalid(*defaults, raw.connections@.take(i as int)) is None,
            connections@.len() == i,
            forall|k: int|
                0 <= k < i ==> (#[trigger] connections@[k])@ == merged(
                    *defaults,
                    raw.connections@[k],
                ),
        decreases raw.connections@.len() - i,
    {
        proof {
            assert(raw.connections@.take(i + 1).drop_last() =~= raw.connections@.take(i as int));
        }
        match merge_connection(defaults, &raw.connections[i]) {
            Ok(connection) => connections.push(connection),
            Err(error) => {
                proof {
                    first_invalid_is_final(*defaults, raw.connections@, i + 1);
                }
                return Err(error);
            },
        }
        i += 1;
    }
    proof {
        assert(raw.connections@.take(raw.connections@.len() as int) =~= raw.connections@);
        assert(model::connection_views(connections@) =~= merged_all(*defaults, raw.connections@));
    }
    match check_connection_count(&connections) {
        Err(error) => return Err(error),
        Ok(()) => {},
    }
    match check_uniqueness(&connections) {
        Err(error) => return Err(error),
        Ok(()) => {},
    }
    match validate_proxy_bin(&raw.proxy_bin) {
        Err(error) => Err(error),
        Ok(proxy_bin) => Ok(Config { proxy_bin, connections }),
    }
}

proof fn first_invalid_is_final(defaults: RawDefaults, raws: Seq<RawConnection>, n: int)
    requires
        0 <= n <= raws.len(),
        first_invalid(defaults, raws.take(n)) is Some,
    ensures
        first_invalid(defaults, raws) == first_invalid(defaults, raws.take(n)),
    decreases raws.len() - n,
{
    if n < raws.len() {
        assert(raws.take(n + 1).drop_last() =~= raws.take(n));
        first_invalid_is_final(defaults, raws, n + 1);
    } else {
        assert(raws.take(n) =~= raws);
    }
}

/// The proxy binary; an absent one falls back, an empty one is an error.
pub fn validate_proxy_bin(proxy_bin: &Option<String>) -> (result: Result<String, ConfigError>)
    ensures
        match result {
            Ok(bin) => match text::option_view(*proxy_bin) {
                None => bin@ == "cloud-sql-proxy"@,
                Some(given) => bin@ == given && given.len() > 0,
            },
            Err(error) => error@ == ConfigErrorView::EmptyProxyBin && proxy_bin is Some
                && proxy_bin->0@.len() == 0,
        },
{
    match proxy_bin {
        None => Ok("cloud-sql-proxy".to_owned()),
        Some(bin) => if is_blank(bin.as_str()) {
            Err(ConfigError::EmptyProxyBin)
        } else {
            Ok(bin.clone())
        },
    }
}

/// Whether a text is empty.
fn is_blank(value: &str) -> (yes: bool)
    ensures
        yes == (value@.len() == 0),
{
    value.is_empty()
}

/// Layers a raw Connection over the defaults and validates the outcome.
pub fn merge_connection(defaults: &RawDefaults, raw: &RawConnection) -> (result: Result<
    Connection,
    ConfigError,
>)
    ensures
        match result {
            Ok(connection) => connection@ == merged(*defaults, *raw) && connection_fault(
                merged(*defaults, *raw),
            ) is None,
            Err(error) => connection_fault(merged(*defaults, *raw)) matches Some(reason) && error@
                == (ConfigErrorView::InvalidConnection { id: raw.id@, reason }),
        },
{
    match validate_id(raw.id.as_str()) {
        Err(reason) => return Err(invalid(raw.id.as_str(), reason)),
        Ok(()) => {},
    }
    match validate_name(raw.name.as_str()) {
        Err(reason) => return Err(invalid(raw.id.as_str(), reason)),
        Ok(()) => {},
    }
    match validate_group(raw.group.as_str()) {
        Err(reason) => return Err(invalid(raw.id.as_str(), reason)),
        Ok(()) => {},
    }
    match validate_instance(raw.instance.as_str()) {
        Err(reason) => return Err(invalid(raw.id.as_str(), reason)),
        Ok(()) => {},
    }
    match validate_port(raw.port) {
        Err(reason) => return Err(invalid(raw.id.as_str(), reason)),
        Ok(()) => {},
    }
    let address: String = match &raw.address {
        Some(address) => address.clone(),
        None => match &defaults.address {
            Some(address) => address.clone(),
            None => "127.0.0.1".to_owned(),
        },
    };
    match validate_address(address.as_str()) {
        Err(reason) => return Err(invalid(raw.id.as_str(), reason)),
        Ok(()) => {},
    }
    let extra_args: Vec<String> = match &raw.extra_args {
        Some(args) => text::copies(args),
        None => match &defaults.extra_args {
            Some(args) => text::copies(args),
            None => Vec::new(),
        },
    };
    assert(text::views(Seq::<String>::empty()) =~= Seq::empty());
    Ok(
        Connection {
            id: raw.id.clone(),
            name: raw.name.clone(),
            group: raw.group.clone(),
            instance: raw.instance.clone(),
            address,
            port: raw.port,
            private_ip: layer(raw.private_ip, defaults.private_ip, false),
            auto_iam_authn: layer(raw.auto_iam_authn, defaults.auto_iam_authn, false),
            extra_args,
            enabled: layer(raw.enabled, defaults.enabled, true),
        },
    )
}

fn layer(own: Option<bool>, default: Option<bool>, built_in: bool) -> (value: bool)
    ensures
        value == layered(own, default, built_in),
{
    match own {
        Some(value) => value,
        None => match default {
            Some(value) => value,
            None => built_in,
        },
    }
}

fn invalid(id: &str, reason: String) -> (error: ConfigError)
    ensures
        error@ == (ConfigErrorView::InvalidConnection { id: id@, reason: reason@ }),
{
    ConfigError::InvalidConnection { id: id.to_owned(), reason }
}

pub fn require_non_empty(field: &str, value: &str) -> (result: Result<(), String>)
    ensures
        reports(result, empty_fault(field@, value@)),
{
    if is_blank(value) {
        Err(text::concat(field, " must not be empty"))
    } else {
        Ok(())
    }
}

/// Free text, but not empty.
pub fn validate_name(name: &str) -> (result: Result<(), String>)
    ensures
        reports(result, empty_fault("name"@, name@)),
{
    require_non_empty("name", name)
}

/// Free text, but neither empty nor starting like a command-line option.
pub fn validate_group(group: &str) -> (result: Result<(), String>)
    ensures
        reports(result, group_fault(group@)),
{
    match require_non_empty("group", group) {
        Err(reason) => return Err(reason),
        Ok(()) => {},
    }
    if text::chars_of(group)[0] == '-' {
        let mut reason = "group `".to_owned();
        reason.append(group);
        reason.append("` must not start with '-'");
        Err(reason)
    } else {
        Ok(())
    }
}

/// Free text, but not empty.
pub fn validate_address(address: &str) -> (result: Result<(), String>)
    ensures
        reports(result, empty_fault("address"@, address@)),
{
    require_non_empty("address", address)
}

pub fn validate_id(id: &str) -> (result: Result<(), String>)
    ensures
        reports(result, id_fault(id@)),
{
    if model::is_plain_id(id) && text::chars_of(id).len() <= MAX_ID_LEN {
        Ok(())
    } else {
        let mut reason = "id `".to_owned();
        reason.append(id);
        reason.append("` must match ^[a-zA-Z0-9][a-zA-Z0-9_-]*$ and be at most ");
        reason.append(text::decimal(MAX_ID_LEN as u64).as_str());
        reason.append(" bytes");
        Err(reason)
    }
}

fn is_segment(segment: &str) -> (yes: bool)
    ensures
        yes == valid_segment(segment@),
{
    let chars = text::chars_of(segment);
    if chars.len() == 0 {
        return false;
    }
    let mut i: usize = 0;
    while i < chars.len()
        invariant
            chars@ == segment@,
            i <= chars@.len(),
            forall|k: int| 0 <= k < i ==> !text::whitespace(#[trigger] segment@[k]),
        decreases chars@.len() - i,
    {
        if text::is_whitespace(chars[i]) {
            assert(text::whitespace(segment@[i as int]));
            return false;
        }
        i += 1;
    }
    true
}

pub fn validate_instance(instance: &str) -> (result: Result<(), String>)
    ensures
        reports(result, instance_fault(instance@)),
{
    let segments = text::split(instance, ':');
    let ghost model = text::pieces(instance@, ':');
    assert(model.len() == segments@.len());
    assert(forall|i: int| 0 <= i < segments@.len() ==> #[trigger] model[i] == segments@[i]@);
    let shape_ok = segments.len() == 3 && is_segment(segments[0].as_str()) && is_segment(
        segments[1].as_str(),
    ) && is_segment(segments[2].as_str());
    assert(segments@.len() == 3 ==> valid_segment(model[0]) == valid_segment(segments@[0]@)
        && valid_segment(model[1]) == valid_segment(segments@[1]@) && valid_segment(model[2])
        == valid_segment(segments@[2]@));
    if shape_ok {
        Ok(())
    } else {
        let mut reason = "instance `".to_owned();
        reason.append(instance);
        reason.append("` must be project:region:instance (three non-empty segments)");
        Err(reason)
    }
}

pub fn validate_port(port: u16) -> (result: Result<(), String>)
    ensures
        reports(result, port_fault(port)),
{
    if port < MIN_UNPRIVILEGED_PORT {
        let mut reason = "port ".to_owned();
        reason.append(text::decimal(port as u64).as_str());
        reason.append(" is privileged (must be >= ");
        reason.append(text::decimal(MIN_UNPRIVILEGED_PORT as u64).as_str());
        reason.append(")");
        Err(reason)
    } else if port == 1433 || port == 3306 || port == 5432 {
        let mut reason = "port ".to_owned();
        reason.append(text::decimal(port as u64).as_str());
        reason.append(" is reserved");
        Err(reason)
    } else {
        Ok(())
    }
}

/// Refuses more than [`MAX_CONNECTIONS`] Connections.
pub fn check_connection_count(connections: &Vec<Connection>) -> (result: Result<(), ConfigError>)
    ensures
        match result {
            Ok(()) => connections@.len() <= MAX_CONNECTIONS,
            Err(error) => connections@.len() > MAX_CONNECTIONS && error@ == (
            ConfigErrorView::TooManyConnections {
                count: connections@.len(),
                max: MAX_CONNECTIONS as nat,
            }),
        },
{
    if connections.len() > MAX_CONNECTIONS {
        Err(ConfigError::TooManyConnections { count: connections.len(), max: MAX_CONNECTIONS })
    } else {
        Ok(())
    }
}

/// Refuses a repeated id, port or instance.
pub fn check_uniqueness(connections: &Vec<Connection>) -> (result: Result<(), ConfigError>)
    ensures
        match result {
            Ok(()) => first_repetition(model::connection_views(connections@)) is None,
            Err(error) => first_repetition(model::connection_views(connections@)) == Some(error@),
        },
{
    let ghost all = model::connection_views(connections@);
    let mut i: usize = 0;
    while i < connections.len()
        invariant
            all == model::connection_views(connections@),
            i <= connections@.len(),
            first_repetition(all.take(i as int)) is None,
        decreases connections@.len() - i,
    {
        let connection = &connections[i];
        let mut same_id = false;
        let mut same_port = false;
        let mut same_instance = false;
        let mut k: usize = 0;
        let ghost earlier = all.take(i as int);
        while k < i
            invariant
                all == model::connection_views(connections@),
                earlier == all.take(i as int),
                k <= i < connections@.len(),
                *connection == connections@[i as int],
                same_id == exists|j: int|
                    0 <= j < k && (#[trigger] earlier[j]).id == connection.id@,
                same_port == exists|j: int|
                    0 <= j < k && (#[trigger] earlier[j]).port == connection.port,
                same_instance == exists|j: int|
                    0 <= j < k && (#[trigger] earlier[j]).instance == connection.instance@,
            decreases i - k,
        {
            let other = &connections[k];
            assert(earlier[k as int] == other@);
            if text::same(other.id.as_str(), connection.id.as_str()) {
                same_id = true;
            }
            if other.port == connection.port {
                same_port = true;
            }
            if text::same(other.instance.as_str(), connection.instance.as_str()) {
                same_instance = true;
            }
            k += 1;
        }
        proof {
            assert(all.take(i + 1).drop_last() =~= earlier);
            assert(all.take(i + 1).last() == connection@);
        }
        if same_id || same_port || same_instance {
            proof {
                first_repetition_is_final(all, i + 1);
            }
        }
        if same_id {
            return Err(ConfigError::DuplicateId(connection.id.clone()));
        }
        if same_port {
            return Err(ConfigError::DuplicatePort(connection.port));
        }
        if same_instance {
            return Err(ConfigError::DuplicateInstance(connection.instance.clone()));
        }
        i += 1;
    }
    assert(all.take(all.len() as int) =~= all);
    Ok(())
}

proof fn first_repetition_is_final(connections: Seq<ConnectionView>, n: int)
    requires
        0 <= n <= connections.len(),
        first_repetition(connections.take(n)) is Some,
    ensures
        first_repetition(connections) == first_repetition(connections.take(n)),
    decreases connections.len() - n,
{
    if n < connections.len() {
        assert(connections.take(n + 1).drop_last() =~= connections.take(n));
        first_repetition_is_final(connections, n + 1);
    } else {
        assert(connections.take(n) =~= connections);
    }
}

// ---------------------------------------------------------------------------
// Lookups.
// ---------------------------------------------------------------------------

/// The first Connection with an id.
pub open spec fn found_by_id(connections: Seq<Connection>, id: Seq<char>) -> Option<Connection>
    decreases connections.len(),
{
    if connections.len() == 0 {
        None
    } else if connections[0].id@ == id {
        Some(connections[0])
    } else {
        found_by_id(connections.drop_first(), id)
    }
}

/// Looks up a Connection by its id.
pub fn by_id<'a>(config: &'a Config, id: &str) -> (found: Option<&'a Connection>)
    ensures
        match found {
            Some(connection) => found_by_id(config.connections@, id@) == Some(*connection),
            None => found_by_id(config.connections@, id@) is None,
        },
{
    let connections = &config.connections;
    let mut i: usize = 0;
    assert(connections@.skip(0) =~= connections@);
    while i < connections.len()
        invariant
            connections == config.connections,
            i <= connections@.len(),
            found_by_id(config.connections@, id@) == found_by_id(connections@.skip(i as int), id@),
        decreases connections@.len() - i,
    {
        if text::same(connections[i].id.as_str(), id) {
            return Some(&connections[i]);
        }
        assert(connections@.skip(i as int).drop_first() =~= connections@.skip(i + 1));
        i += 1;
    }
    None
}

/// Where the config file stands by default, given `$XDG_CONFIG_HOME` and
/// `$HOME`.
pub open spec fn default_location(config_home: Option<Seq<char>>, home: Seq<char>) -> Seq<char> {
    let base = match config_home {
        Some(dir) => if dir.len() > 0 {
            dir
        } else {
            paths::joined(home, ".config"@)
        },
        None => paths::joined(home, ".config"@),
    };
    paths::joined(paths::joined(base, "cloud-sql-tracker"@), "connections.json"@)
}

/// `$XDG_CONFIG_HOME/cloud-sql-tracker/connections.json`, else
/// `$HOME/.config/cloud-sql-tracker/connections.json`.
pub fn default_path(config_home: &Option<String>, home: &str) -> (path: String)
    ensures
        path@ == default_location(text::option_view(*config_home), home@),
{
    let base: String = match config_home {
        Some(dir) => if is_blank(dir.as_str()) {
            paths::join(home, ".config")
        } else {
            dir.clone()
        },
        None => paths::join(home, ".config"),
    };
    let dir = paths::join(base.as_str(), "cloud-sql-tracker");
    paths::join(dir.as_str(), "connections.json")
}

// ---------------------------------------------------------------------------
// Laws.
// ---------------------------------------------------------------------------

/// Every field of a Connection is valid.
pub open spec fn valid_connection(connection: ConnectionView) -> bool {
    &&& valid_id(connection.id)
    &&& connection.name.len() > 0
    &&& valid_group(connection.group)
    &&& valid_instance(connection.instance)
    &&& valid_port(connection.port)
    &&& connection.address.len() > 0
}

/// No two Connections share an id, a port or an instance.
pub open spec fn all_distinct(connections: Seq<ConnectionView>) -> bool {
    forall|i: int, j: int|
        0 <= i < j < connections.len() ==> {
            &&& (#[trigger] connections[i]).id != (#[trigger] connections[j]).id
            &&& connections[i].port != connections[j].port
            &&& connections[i].instance != connections[j].instance
        }
}

/// What holds of every config that was parsed.
pub open spec fn valid_config(config: ConfigView) -> bool {
    &&& config.proxy_bin.len() > 0
    &&& config.connections.len() <= MAX_CONNECTIONS
    &&& forall|i: int|
        0 <= i < config.connections.len() ==> valid_connection(#[trigger] config.connections[i])
    &&& all_distinct(config.connections)
}

proof fn nothing_invalid_is_all_valid(defaults: RawDefaults, raws: Seq<RawConnection>)
    ensures
        first_invalid(defaults, raws) is None <==> forall|i: int|
            0 <= i < raws.len() ==> valid_connection(#[trigger] merged(defaults, raws[i])),
    decreases raws.len(),
{
    if raws.len() > 0 {
        nothing_invalid_is_all_valid(defaults, raws.drop_last());
        let last = raws.last();
        assert(connection_fault(merged(defaults, last)) is None <==> valid_connection(
            merged(defaults, last),
        ));
        assert(forall|i: int| 0 <= i < raws.len() - 1 ==> raws[i] == raws.drop_last()[i]);
        assert(raws[raws.len() - 1] == last);
        if first_invalid(defaults, raws.drop_last()) is Some {
            let i = choose|i: int|
                0 <= i < raws.drop_last().len() && !valid_connection(
                    #[trigger] merged(defaults, raws.drop_last()[i]),
                );
            assert(!valid_connection(merged(defaults, raws[i])));
        } else {
            assert forall|i: int|
                0 <= i < raws.len() && valid_connection(merged(defaults, last)) implies valid_connection(
                #[trigger] merged(defaults, raws[i]),
            ) by {
                if i < raws.len() - 1 {
                    assert(valid_connection(merged(defaults, raws.drop_last()[i])));
                }
            }
            assert(valid_connection(merged(defaults, raws[raws.len() - 1])) == valid_connection(
                merged(defaults, last),
            ));
        }
    }
}

proof fn no_repetition_is_all_distinct(connections: Seq<ConnectionView>)
    ensures
        first_repetition(connections) is None <==> all_distinct(connections),
    decreases connections.len(),
{
    if connections.len() > 0 {
        let earlier = connections.drop_last();
        let last = connections.last();
        no_repetition_is_all_distinct(earlier);
        if all_distinct(connections) {
            assert forall|i: int, j: int| 0 <= i < j < earlier.len() implies ({
                &&& (#[trigger] earlier[i]).id != (#[trigger] earlier[j]).id
                &&& earlier[i].port != earlier[j].port
                &&& earlier[i].instance != earlier[j].instance
            }) by {
                assert(connections[i] == earlier[i] && connections[j] == earlier[j]);
            }
            assert forall|i: int| 0 <= i < earlier.len() implies (#[trigger] earlier[i]).id
                != last.id && earlier[i].port != last.port && earlier[i].instance
                != last.instance by {
                assert(connections[i] == earlier[i] && connections[connections.len() - 1] == last);
            }
        }
        if first_repetition(connections) is None {
            assert forall|i: int, j: int| 0 <= i < j < connections.len() implies ({
                &&& (#[trigger] connections[i]).id != (#[trigger] connections[j]).id
                &&& connections[i].port != connections[j].port
                &&& connections[i].instance != connections[j].instance
            }) by {
                assert(connections[i] == earlier[i]);
                if j < connections.len() - 1 {
                    assert(connections[j] == earlier[j]);
                }
            }
        }
    }
}

/// Everything that parses is valid: sound fields, unprivileged and unreserved
/// ports, no repetition, at most [`MAX_CONNECTIONS`] Connections; and the
/// Connections are those of the document, in its order.
pub proof fn parsed_configs_are_valid(raw: RawConfig)
    requires
        parsed(raw) is Ok,
    ensures
        raw.version == 1,
        valid_config(parsed(raw)->Ok_0),
        parsed(raw)->Ok_0.connections.len() == raw.connections@.len(),
        forall|i: int|
            0 <= i < raw.connections@.len() ==> #[trigger] parsed(raw)->Ok_0.connections[i]
                == merged(raw_defaults(raw), raw.connections@[i]),
{
    let defaults = raw_defaults(raw);
    nothing_invalid_is_all_valid(defaults, raw.connections@);
    no_repetition_is_all_distinct(merged_all(defaults, raw.connections@));
    let config = parsed(raw)->Ok_0;
    assert forall|i: int| 0 <= i < config.connections.len() implies valid_connection(
        #[trigger] config.connections[i],
    ) by {
        assert(config.connections[i] == merged(defaults, raw.connections@[i]));
    }
    reveal_strlit("cloud-sql-proxy");
}

/// Everything valid parses: a document of version 1 whose Connections are
/// sound, few enough and without repetition, and whose proxy binary is absent
/// or not empty, is accepted.
pub proof fn valid_documents_are_parsed(raw: RawConfig)
    requires
        raw.version == 1,
        raw.connections@.len() <= MAX_CONNECTIONS,
        forall|i: int|
            0 <= i < raw.connections@.len() ==> valid_connection(
                #[trigger] merged(raw_defaults(raw), raw.connections@[i]),
            ),
        all_distinct(merged_all(raw_defaults(raw), raw.connections@)),
        raw.proxy_bin is Some ==> raw.proxy_bin->0@.len() > 0,
    ensures
        parsed(raw) is Ok,
{
    nothing_invalid_is_all_valid(raw_defaults(raw), raw.connections@);
    no_repetition_is_all_distinct(merged_all(raw_defaults(raw), raw.connections@));
}

/// A valid id has a unit name, and stands in it unchanged.
pub proof fn valid_ids_are_kept_in_unit_names(id: Seq<char>)
    requires
        valid_id(id),
    ensures
        model::unit_name_of(id) == Ok::<Seq<char>, UnitNameError>(
            "cloud-sql-proxy-"@ + id + ".service"@,
        ),
{
    reveal_strlit("cloud-sql-proxy-");
    reveal_strlit(".service");
}

/// Different valid ids have different unit names.
pub proof fn valid_ids_have_their_own_unit_names(a: Seq<char>, b: Seq<char>)
    requires
        valid_id(a),
        valid_id(b),
        a != b,
    ensures
        model::unit_name_of(a) is Ok,
        model::unit_name_of(b) is Ok,
        model::unit_name_of(a) != model::unit_name_of(b),
{
    valid_ids_are_kept_in_unit_names(a);
    valid_ids_are_kept_in_unit_names(b);
    if model::unit_name_text(a) == model::unit_name_text(b) {
        model::kept_ids_have_their_own_unit_names(a, b);
    }
}

/// In a parsed config every Connection has a unit name, and no two Connections
/// share one.
pub proof fn parsed_connections_have_their_own_units(raw: RawConfig, i: int, j: int)
    requires
        parsed(raw) is Ok,
        0 <= i < parsed(raw)->Ok_0.connections.len(),
        0 <= j < parsed(raw)->Ok_0.connections.len(),
        i != j,
    ensures
        ({
            let connections = parsed(raw)->Ok_0.connections;
            &&& model::unit_name_of(connections[i].id) is Ok
            &&& model::unit_name_of(connections[j].id) is Ok
            &&& model::unit_name_of(connections[i].id) != model::unit_name_of(connections[j].id)
        }),
{
    parsed_configs_are_valid(raw);
    let connections = parsed(raw)->Ok_0.connections;
    assert(valid_connection(connections[i]) && valid_connection(connections[j]));
    assert(connections[i].id != connections[j].id);
    valid_ids_have_their_own_unit_names(connections[i].id, connections[j].id);
}

/// In a parsed config every id finds its own Connection.
pub proof fn ids_find_their_connections(connections: Seq<Connection>, i: int)
    requires
        all_distinct(model::connection_views(connections)),
        0 <= i < connections.len(),
    ensures
        found_by_id(connections, connections[i].id@) == Some(connections[i]),
    decreases connections.len(),
{
    let views = model::connection_views(connections);
    if i > 0 {
        let rest = connections.drop_first();
        assert(views[0].id != views[i].id);
        assert(all_distinct(model::connection_views(rest))) by {
            let tail = model::connection_views(rest);
            assert forall|a: int, b: int| 0 <= a < b < tail.len() implies ({
                &&& (#[trigger] tail[a]).id != (#[trigger] tail[b]).id
                &&& tail[a].port != tail[b].port
                &&& tail[a].instance != tail[b].instance
            }) by {
                assert(tail[a] == views[a + 1] && tail[b] == views[b + 1]);
            }
        }
        ids_find_their_connections(rest, i - 1);
    }
}

/// Whether a value is that of a setting: the Connection's own one whatever the
/// defaults say, without it the defaults' one, without both the built-in one.
pub open spec fn most_specific<T>(
    value: T,
    own: Option<T>,
    default: Option<T>,
    built_in: T,
) -> bool {
    &&& own is Some ==> value == own->0
    &&& own is None && default is Some ==> value == default->0
    &&& own is None && default is None ==> value == built_in
}

/// Whether a Connection has the identity that a document gives it, and of every
/// other setting the most specific value.
pub open spec fn most_specific_settings(
    connection: ConnectionView,
    raw: RawConnection,
    address: Option<Seq<char>>,
    private_ip: Option<bool>,
    auto_iam_authn: Option<bool>,
    extra_args: Option<Seq<Seq<char>>>,
    enabled: Option<bool>,
) -> bool {
    &&& connection.id == raw.id@
    &&& connection.name == raw.name@
    &&& connection.group == raw.group@
    &&& connection.instance == raw.instance@
    &&& connection.port == raw.port
    &&& most_specific(
        connection.address,
        text::option_view(raw.address),
        address,
        "127.0.0.1"@,
    )
    &&& most_specific(connection.private_ip, raw.private_ip, private_ip, false)
    &&& most_specific(connection.auto_iam_authn, raw.auto_iam_authn, auto_iam_authn, false)
    &&& most_specific(
        connection.extra_args,
        args_view(raw.extra_args),
        extra_args,
        Seq::empty(),
    )
    &&& most_specific(connection.enabled, raw.enabled, enabled, true)
}

/// A Connection's own settings override the defaults, and the defaults override
/// what is built in: an address of 127.0.0.1, no flags, no extra arguments, and
/// to be enabled. Its identity is its own in any case.
pub proof fn own_settings_override_defaults(
    defaults: &RawDefaults,
    raw: &RawConnection,
    connection: Connection,
)
    requires
        call_ensures(merge_connection, (defaults, raw), Ok(connection)),
    ensures
        most_specific_settings(
            connection@,
            *raw,
            text::option_view(defaults.address),
            defaults.private_ip,
            defaults.auto_iam_authn,
            args_view(defaults.extra_args),
            defaults.enabled,
        ),
{
}

/// In a parsed document every Connection's settings override the document's
/// defaults, which override what is built in.
pub proof fn parsed_settings_override_defaults(raw: &RawConfig, config: Config, i: int)
    requires
        call_ensures(parse, (raw,), Ok(config)),
        0 <= i < raw.connections@.len(),
    ensures
        config.connections@.len() == raw.connections@.len(),
        raw.defaults matches Some(defaults) ==> most_specific_settings(
            config.connections@[i]@,
            raw.connections@[i],
            text::option_view(defaults.address),
            defaults.private_ip,
            defaults.auto_iam_authn,
            args_view(defaults.extra_args),
            defaults.enabled,
        ),
        raw.defaults is None ==> most_specific_settings(
            config.connections@[i]@,
            raw.connections@[i],
            None,
            None,
            None,
            None,
            None,
        ),
        raw.proxy_bin matches Some(bin) ==> config.proxy_bin@ == bin@,
        raw.proxy_bin is None ==> config.proxy_bin@ == "cloud-sql-proxy"@,
{
    parsed_configs_are_valid(*raw);
    assert(config@.connections[i] == config.connections@[i]@);
    assert(config@.connections[i] == merged(raw_defaults(*raw), raw.connections@[i]));
}

/// A letter, a digit, an underscore or a dash, by its code point.
pub open spec fn name_char(c: char) -> bool {
    ||| letter_or_digit(c)
    ||| c == '_'
    ||| c == '-'
}

pub open spec fn letter_or_digit(c: char) -> bool {
    ||| 0x30 <= c as u32 <= 0x39
    ||| 0x41 <= c as u32 <= 0x5a
    ||| 0x61 <= c as u32 <= 0x7a
}

/// Three segments with colons between them.
pub open spec fn three_segments(
    project: Seq<char>,
    region: Seq<char>,
    instance: Seq<char>,
) -> Seq<char> {
    project.push(':') + region.push(':') + instance
}

/// Not empty, and neither a colon nor white space in it.
pub open spec fn sound_segment(segment: Seq<char>) -> bool {
    segment.len() > 0 && forall|i: int|
        0 <= i < segment.len() ==> #[trigger] segment[i] != ':' && !text::whitespace(segment[i])
}

/// Whether an instance has its three segments.
pub open spec fn sound_instance(instance: Seq<char>) -> bool {
    exists|a: Seq<char>, b: Seq<char>, c: Seq<char>|
        instance == #[trigger] three_segments(a, b, c) && sound_segment(a) && sound_segment(b)
            && sound_segment(c)
}

pub open spec fn sound_id(id: Seq<char>) -> bool {
    &&& 0 < id.len() <= 64
    &&& letter_or_digit(id[0])
    &&& forall|i: int| 0 <= i < id.len() ==> name_char(#[trigger] id[i])
}

pub open spec fn sound_port(port: u16) -> bool {
    port >= 1024 && port != 1433 && port != 3306 && port != 5432
}

/// What a Connection has to be: an id of at most 64 letters, digits,
/// underscores and dashes that starts with a letter or digit, a name, a group
/// that does not look like an option, an instance of three segments, an
/// unprivileged port that is not a database's own, and an address.
pub open spec fn sound(connection: ConnectionView) -> bool {
    &&& sound_id(connection.id)
    &&& connection.name.len() > 0
    &&& connection.group.len() > 0
    &&& connection.group[0] != '-'
    &&& sound_instance(connection.instance)
    &&& sound_port(connection.port)
    &&& connection.address.len() > 0
}

proof fn plain_text_is_one_piece(text: Seq<char>, separator: char)
    requires
        !text.contains(separator),
    ensures
        text::pieces(text, separator) == seq![text],
    decreases text.len(),
{
    if text.len() > 0 {
        let front = text.drop_last();
        assert(text[text.len() - 1] == text.last());
        assert forall|i: int| 0 <= i < front.len() implies front[i] != separator by {
            assert(text[i] == front[i]);
        }
        plain_text_is_one_piece(front, separator);
        assert(front.push(text.last()) =~= text);
        assert(text::pieces(text, separator) =~= seq![text]);
    } else {
        assert(text =~= Seq::empty());
    }
}

proof fn separators_begin_a_piece(front: Seq<char>, last: Seq<char>, separator: char)
    requires
        !last.contains(separator),
    ensures
        text::pieces(front.push(separator) + last, separator) == text::pieces(
            front,
            separator,
        ).push(last),
    decreases last.len(),
{
    let whole = front.push(separator) + last;
    if last.len() == 0 {
        assert(whole =~= front.push(separator));
        assert(whole.drop_last() =~= front);
        assert(last =~= Seq::empty());
    } else {
        let rest = last.drop_last();
        assert(last[last.len() - 1] == last.last());
        assert forall|i: int| 0 <= i < rest.len() implies rest[i] != separator by {
            assert(last[i] == rest[i]);
        }
        separators_begin_a_piece(front, rest, separator);
        assert(whole.drop_last() =~= front.push(separator) + rest);
        assert(rest.push(last.last()) =~= last);
        assert(text::pieces(whole, separator) =~= text::pieces(front, separator).push(last));
    }
}

proof fn sound_instances_are_valid(instance: Seq<char>)
    ensures
        sound_instance(instance) <==> valid_instance(instance),
{
    let segments = text::pieces(instance, ':');
    if sound_instance(instance) {
        let (a, b, c) = choose|a: Seq<char>, b: Seq<char>, c: Seq<char>|
            instance == #[trigger] three_segments(a, b, c) && sound_segment(a) && sound_segment(b)
                && sound_segment(c);
        assert(!a.contains(':') && !b.contains(':') && !c.contains(':'));
        plain_text_is_one_piece(a, ':');
        separators_begin_a_piece(a, b, ':');
        separators_begin_a_piece(a.push(':') + b, c, ':');
        assert(three_segments(a, b, c) =~= (a.push(':') + b).push(':') + c);
        assert(segments =~= seq![a, b, c]);
        assert(valid_segment(segments[0]) && valid_segment(segments[1]) && valid_segment(
            segments[2],
        ));
    }
    if valid_instance(instance) {
        text::pieces_rejoin(instance, ':');
        let (a, b, c) = (segments[0], segments[1], segments[2]);
        assert(segments.drop_last().drop_last() =~= seq![a]);
        assert(text::rejoined(segments.drop_last().drop_last(), ':') == a);
        assert(text::rejoined(segments.drop_last(), ':') == a.push(':') + b);
        assert(instance == (a.push(':') + b).push(':') + c);
        assert(three_segments(a, b, c) =~= instance);
        assert(valid_segment(a) && valid_segment(b) && valid_segment(c));
        assert forall|i: int| 0 <= i < a.len() implies #[trigger] a[i] != ':' by {
            assert(!segments[0].contains(':'));
        }
        assert forall|i: int| 0 <= i < b.len() implies #[trigger] b[i] != ':' by {
            assert(!segments[1].contains(':'));
        }
        assert forall|i: int| 0 <= i < c.len() implies #[trigger] c[i] != ':' by {
            assert(!segments[2].contains(':'));
        }
        assert(sound_segment(a) && sound_segment(b) && sound_segment(c));
    }
}

/// The letters and digits by their code points are those by their ranges.
pub proof fn letters_and_digits_are_alphanumeric(c: char)
    ensures
        letter_or_digit(c) == text::ascii_alphanumeric(c),
{
}

proof fn sound_ids_are_valid(id: Seq<char>)
    ensures
        sound_id(id) <==> valid_id(id),
{
    if id.len() > 0 {
        letters_and_digits_are_alphanumeric(id[0]);
    }
    if sound_id(id) {
        assert forall|i: int| 0 <= i < id.len() implies model::id_char(#[trigger] id[i]) by {
            assert(name_char(id[i]));
            letters_and_digits_are_alphanumeric(id[i]);
        }
    }
    if valid_id(id) {
        assert forall|i: int| 0 <= i < id.len() implies name_char(#[trigger] id[i]) by {
            assert(model::id_char(id[i]));
            letters_and_digits_are_alphanumeric(id[i]);
        }
    }
}

proof fn sound_connections_are_valid(connection: ConnectionView)
    ensures
        sound(connection) <==> valid_connection(connection),
{
    sound_ids_are_valid(connection.id);
    sound_instances_are_valid(connection.instance);
}

/// Each field is accepted exactly where it is sound.
pub proof fn sound_fields_are_accepted(
    value: &str,
    port: u16,
    id: Result<(), String>,
    name: Result<(), String>,
    group: Result<(), String>,
    instance: Result<(), String>,
    address: Result<(), String>,
    number: Result<(), String>,
)
    requires
        call_ensures(validate_id, (value,), id),
        call_ensures(validate_name, (value,), name),
        call_ensures(validate_group, (value,), group),
        call_ensures(validate_instance, (value,), instance),
        call_ensures(validate_address, (value,), address),
        call_ensures(validate_port, (port,), number),
    ensures
        id is Ok <==> sound_id(value@),
        name is Ok <==> value@.len() > 0,
        group is Ok <==> value@.len() > 0 && value@[0] != '-',
        instance is Ok <==> sound_instance(value@),
        address is Ok <==> value@.len() > 0,
        number is Ok <==> port >= 1024 && port != 1433 && port != 3306 && port != 5432,
{
    sound_ids_are_valid(value@);
    sound_instances_are_valid(value@);
}

/// A Connection is accepted exactly where it is sound with the settings that it
/// ends up with; a refusal names it by its id.
pub proof fn sound_connections_are_accepted(
    defaults: &RawDefaults,
    raw: &RawConnection,
    connection: ConnectionView,
    result: Result<Connection, ConfigError>,
)
    requires
        call_ensures(merge_connection, (defaults, raw), result),
        most_specific_settings(
            connection,
            *raw,
            text::option_view(defaults.address),
            defaults.private_ip,
            defaults.auto_iam_authn,
            args_view(defaults.extra_args),
            defaults.enabled,
        ),
    ensures
        result is Ok <==> sound(connection),
        result matches Err(error) ==> (error matches ConfigError::InvalidConnection { id, .. }
            && id@ == raw.id@),
{
    assert(connection =~= merged(*defaults, *raw));
    sound_connections_are_valid(connection);
    assert(connection_fault(connection) is None <==> valid_connection(connection));
}

/// Whether two Connections share an id, a port or an instance.
pub open spec fn collide(a: ConnectionView, b: ConnectionView) -> bool {
    a.id == b.id || a.port == b.port || a.instance == b.instance
}

/// A parsed config holds sound Connections only, at most 32 of them, of which
/// no two share an id, a port or an instance.
pub proof fn parsed_configs_are_sound(raw: &RawConfig, config: Config)
    requires
        call_ensures(parse, (raw,), Ok(config)),
    ensures
        raw.version == 1,
        config.proxy_bin@.len() > 0,
        config.connections@.len() <= 32,
        forall|i: int|
            0 <= i < config.connections@.len() ==> sound((#[trigger] config.connections@[i])@),
        forall|i: int, j: int|
            0 <= i < j < config.connections@.len() ==> !collide(
                (#[trigger] config.connections@[i])@,
                (#[trigger] config.connections@[j])@,
            ),
{
    parsed_configs_are_valid(*raw);
    let connections = config@.connections;
    assert forall|i: int| 0 <= i < config.connections@.len() implies sound(
        (#[trigger] config.connections@[i])@,
    ) by {
        assert(connections[i] == config.connections@[i]@);
        assert(valid_connection(connections[i]));
        sound_connections_are_valid(connections[i]);
    }
    assert forall|i: int, j: int| 0 <= i < j < config.connections@.len() implies !collide(
        (#[trigger] config.connections@[i])@,
        (#[trigger] config.connections@[j])@,
    ) by {
        assert(connections[i] == config.connections@[i]@ && connections[j]
            == config.connections@[j]@);
    }
}

/// Whether Connections are those of a document with their defaults filled in.
pub open spec fn filled_in(connections: Seq<ConnectionView>, raw: RawConfig) -> bool {
    &&& connections.len() == raw.connections@.len()
    &&& forall|i: int|
        0 <= i < connections.len() ==> match raw.defaults {
            Some(defaults) => most_specific_settings(
                #[trigger] connections[i],
                raw.connections@[i],
                text::option_view(defaults.address),
                defaults.private_ip,
                defaults.auto_iam_authn,
                args_view(defaults.extra_args),
                defaults.enabled,
            ),
            None => most_specific_settings(
                connections[i],
                raw.connections@[i],
                None,
                None,
                None,
                None,
                None,
            ),
        }
}

proof fn filled_in_is_merged(connections: Seq<ConnectionView>, raw: RawConfig)
    requires
        filled_in(connections, raw),
    ensures
        connections == merged_all(raw_defaults(raw), raw.connections@),
{
    let all = merged_all(raw_defaults(raw), raw.connections@);
    assert forall|i: int| 0 <= i < connections.len() implies connections[i] == all[i] by {
        assert(connections[i] =~= merged(raw_defaults(raw), raw.connections@[i]));
    }
    assert(connections =~= all);
}

/// A document of version 1 is accepted where its Connections are sound, at most
/// 32, and without collisions, and its proxy binary is not empty.
pub proof fn sound_documents_are_accepted(
    raw: &RawConfig,
    connections: Seq<ConnectionView>,
    result: Result<Config, ConfigError>,
)
    requires
        call_ensures(parse, (raw,), result),
        filled_in(connections, *raw),
        raw.version == 1,
        connections.len() <= 32,
        forall|i: int| 0 <= i < connections.len() ==> sound(#[trigger] connections[i]),
        forall|i: int, j: int|
            0 <= i < j < connections.len() ==> !collide(
                #[trigger] connections[i],
                #[trigger] connections[j],
            ),
        raw.proxy_bin matches Some(bin) ==> bin@.len() > 0,
    ensures
        result matches Ok(config) && model::connection_views(config.connections@) == connections,
{
    filled_in_is_merged(connections, *raw);
    let defaults = raw_defaults(*raw);
    assert forall|i: int| 0 <= i < raw.connections@.len() implies valid_connection(
        #[trigger] merged(defaults, raw.connections@[i]),
    ) by {
        assert(connections[i] == merged(defaults, raw.connections@[i]));
        sound_connections_are_valid(connections[i]);
    }
    assert forall|i: int, j: int| 0 <= i < j < connections.len() implies ({
        &&& (#[trigger] connections[i]).id != (#[trigger] connections[j]).id
        &&& connections[i].port != connections[j].port
        &&& connections[i].instance != connections[j].instance
    }) by {
        assert(!collide(connections[i], connections[j]));
    }
    valid_documents_are_parsed(*raw);
}

proof fn the_first_invalid_comes_first(defaults: RawDefaults, raws: Seq<RawConnection>) -> (at: int)
    requires
        first_invalid(defaults, raws) is Some,
    ensures
        0 <= at < raws.len(),
        !valid_connection(merged(defaults, raws[at])),
        forall|j: int| 0 <= j < at ==> valid_connection(#[trigger] merged(defaults, raws[j])),
        first_invalid(defaults, raws)->0 matches ConfigErrorView::InvalidConnection { id, .. }
            && id == raws[at].id@,
    decreases raws.len(),
{
    let front = raws.drop_last();
    if first_invalid(defaults, front) is Some {
        let at = the_first_invalid_comes_first(defaults, front);
        assert(raws[at] == front[at]);
        assert forall|j: int| 0 <= j < at implies valid_connection(
            #[trigger] merged(defaults, raws[j]),
        ) by {
            assert(raws[j] == front[j]);
            assert(valid_connection(merged(defaults, front[j])));
        }
        at
    } else {
        nothing_invalid_is_all_valid(defaults, front);
        assert forall|j: int| 0 <= j < front.len() implies valid_connection(
            #[trigger] merged(defaults, raws[j]),
        ) by {
            assert(raws[j] == front[j]);
            assert(valid_connection(merged(defaults, front[j])));
        }
        assert(raws[raws.len() - 1] == raws.last());
        raws.len() - 1
    }
}

proof fn repetitions_repeat(connections: Seq<ConnectionView>) -> (pair: (int, int))
    requires
        first_repetition(connections) is Some,
    ensures
        0 <= pair.0 < pair.1 < connections.len(),
        match first_repetition(connections)->0 {
            ConfigErrorView::DuplicateId(id) => connections[pair.0].id == id
                && connections[pair.1].id == id,
            ConfigErrorView::DuplicatePort(port) => connections[pair.0].port == port
                && connections[pair.1].port == port,
            ConfigErrorView::DuplicateInstance(instance) => connections[pair.0].instance
                == instance && connections[pair.1].instance == instance,
            _ => false,
        },
    decreases connections.len(),
{
    let earlier = connections.drop_last();
    let last = connections.last();
    if first_repetition(earlier) is Some {
        let pair = repetitions_repeat(earlier);
        assert(earlier[pair.0] == connections[pair.0] && earlier[pair.1] == connections[pair.1]);
        pair
    } else {
        let n = connections.len() - 1;
        let i = match repetition(earlier, last)->0 {
            ConfigErrorView::DuplicateId(id) => choose|i: int|
                0 <= i < earlier.len() && (#[trigger] earlier[i]).id == last.id,
            ConfigErrorView::DuplicatePort(port) => choose|i: int|
                0 <= i < earlier.len() && (#[trigger] earlier[i]).port == last.port,
            _ => choose|i: int|
                0 <= i < earlier.len() && (#[trigger] earlier[i]).instance == last.instance,
        };
        assert(earlier[i] == connections[i]);
        (i, n)
    }
}

/// A refusal says what is wrong, and what it says is true: the version comes
/// first, then the first Connection that is not sound, then too many of them,
/// then two that share what they must not share, then the proxy binary.
pub proof fn refusals_are_true(
    raw: &RawConfig,
    connections: Seq<ConnectionView>,
    error: ConfigError,
) -> (pair: (int, int))
    requires
        call_ensures(parse, (raw,), Err(error)),
        filled_in(connections, *raw),
    ensures
        raw.version != 1 <==> error is UnsupportedVersion,
        match error {
            ConfigError::UnsupportedVersion { found } => found == raw.version,
            ConfigError::InvalidConnection { id, .. } => {
                &&& 0 <= pair.0 < connections.len()
                &&& !sound(connections[pair.0])
                &&& id@ == connections[pair.0].id
                &&& forall|j: int| 0 <= j < pair.0 ==> sound(#[trigger] connections[j])
            },
            ConfigError::TooManyConnections { count, max } => count == connections.len() && count
                > 32 && max == 32,
            ConfigError::DuplicateId(id) => 0 <= pair.0 < pair.1 < connections.len()
                && connections[pair.0].id == id@ && connections[pair.1].id == id@,
            ConfigError::DuplicatePort(port) => 0 <= pair.0 < pair.1 < connections.len()
                && connections[pair.0].port == port && connections[pair.1].port == port,
            ConfigError::DuplicateInstance(instance) => 0 <= pair.0 < pair.1 < connections.len()
                && connections[pair.0].instance == instance@ && connections[pair.1].instance
                == instance@,
            ConfigError::EmptyProxyBin => raw.proxy_bin matches Some(bin) && bin@.len() == 0,
            ConfigError::Io { .. } | ConfigError::Json { .. } => false,
        },
{
    filled_in_is_merged(connections, *raw);
    let defaults = raw_defaults(*raw);
    let raws = raw.connections@;
    if raw.version != 1 {
        (0, 0)
    } else if first_invalid(defaults, raws) is Some {
        let at = the_first_invalid_comes_first(defaults, raws);
        assert(connections[at] == merged(defaults, raws[at]));
        sound_connections_are_valid(connections[at]);
        assert forall|j: int| 0 <= j < at implies sound(#[trigger] connections[j]) by {
            assert(connections[j] == merged(defaults, raws[j]));
            sound_connections_are_valid(connections[j]);
        }
        (at, at)
    } else if first_repetition(connections) is Some {
        repetitions_repeat(connections)
    } else {
        (0, 0)
    }
}

/// The first Connection with an id is found.
pub proof fn the_first_with_an_id_is_found(connections: Seq<Connection>, id: Seq<char>) -> (at: int)
    ensures
        match found_by_id(connections, id) {
            Some(found) => 0 <= at < connections.len() && connections[at] == found && found.id@
                == id && forall|j: int| 0 <= j < at ==> (#[trigger] connections[j]).id@ != id,
            None => forall|j: int|
                0 <= j < connections.len() ==> (#[trigger] connections[j]).id@ != id,
        },
    decreases connections.len(),
{
    if connections.len() == 0 || connections[0].id@ == id {
        0
    } else {
        let rest = connections.drop_first();
        let at = the_first_with_an_id_is_found(rest, id);
        assert forall|j: int| 1 <= j < connections.len() implies #[trigger] connections[j]
            == rest[j - 1] by {}
        at + 1
    }
}

/// A lookup finds the first Connection with an id, and nothing exactly where no
/// Connection has it.
pub proof fn lookups_find_the_first(
    config: &Config,
    id: &str,
    found: Option<&Connection>,
) -> (at: int)
    requires
        call_ensures(by_id, (config, id), found),
    ensures
        match found {
            Some(connection) => {
                &&& 0 <= at < config.connections@.len()
                &&& config.connections@[at] == *connection
                &&& connection.id@ == id@
                &&& forall|j: int|
                    0 <= j < at ==> (#[trigger] config.connections@[j]).id@ != id@
            },
            None => forall|j: int|
                0 <= j < config.connections@.len() ==> (#[trigger] config.connections@[j]).id@
                    != id@,
        },
{
    the_first_with_an_id_is_found(config.connections@, id@)
}

/// The config file stands under the config directory of the environment, and
/// under `.config` in the home directory where that is not set or empty.
pub proof fn config_files_stand_in_the_config_directory(
    config_home: &Option<String>,
    home: &str,
    path: String,
)
    requires
        call_ensures(default_path, (config_home, home), path),
    ensures
        config_home matches Some(dir) ==> (dir@.len() > 0 ==> path@ == if dir@.last() == '/' {
            dir@ + "cloud-sql-tracker/connections.json"@
        } else {
            dir@ + "/cloud-sql-tracker/connections.json"@
        }),
        (config_home is None || config_home->0@.len() == 0) && home@.len() > 0 ==> path@
            == if home@.last() == '/' {
            home@ + ".config/cloud-sql-tracker/connections.json"@
        } else {
            home@ + "/.config/cloud-sql-tracker/connections.json"@
        },
{
    reveal_strlit("/");
    reveal_strlit(".config");
    reveal_strlit("cloud-sql-tracker");
    reveal_strlit("connections.json");
    reveal_strlit("cloud-sql-tracker/connections.json");
    reveal_strlit("/cloud-sql-tracker/connections.json");
    reveal_strlit(".config/cloud-sql-tracker/connections.json");
    reveal_strlit("/.config/cloud-sql-tracker/connections.json");
    let tail = "cloud-sql-tracker"@ + "/"@ + "connections.json"@;
    assert(tail =~= "cloud-sql-tracker/connections.json"@);
    assert("/"@ + tail =~= "/cloud-sql-tracker/connections.json"@);
    assert(".config"@ + "/"@ + tail =~= ".config/cloud-sql-tracker/connections.json"@);
    assert("/"@ + (".config"@ + "/"@ + tail) =~= "/.config/cloud-sql-tracker/connections.json"@);
    if config_home is Some && config_home->0@.len() > 0 {
        let dir = config_home->0@;
        if dir.last() == '/' {
            assert(path@ =~= dir + tail);
        } else {
            assert(path@ =~= dir + ("/"@ + tail));
        }
    } else if home@.len() > 0 {
        if home@.last() == '/' {
            assert(path@ =~= home@ + (".config"@ + "/"@ + tail));
        } else {
            assert(path@ =~= home@ + ("/"@ + (".config"@ + "/"@ + tail)));
        }
    }
}

/// A sound id names its unit as it stands.
pub proof fn sound_ids_stand_in_their_unit_names(
    id: &str,
    result: Result<UnitName, UnitNameError>,
)
    requires
        call_ensures(model::unit_name, (id,), result),
        sound_id(id@),
    ensures
        result matches Ok(name) && name@ == "cloud-sql-proxy-"@ + id@ + ".service"@,
        model::unit_name_of(id@) == Ok::<Seq<char>, UnitNameError>(
            "cloud-sql-proxy-"@ + id@ + ".service"@,
        ),
{
    sound_ids_are_valid(id@);
    valid_ids_are_kept_in_unit_names(id@);
}

/// A sound id has a unit name, in which it stands as it is.
pub proof fn sound_ids_have_unit_names(id: Seq<char>)
    requires
        sound_id(id),
    ensures
        model::unit_name_of(id) == Ok::<Seq<char>, UnitNameError>(
            "cloud-sql-proxy-"@ + id + ".service"@,
        ),
{
    sound_ids_are_valid(id);
    valid_ids_are_kept_in_unit_names(id);
}

/// A refused document is told what is wrong, with the path, the version, the
/// id, the port, the instance or the count that it is about.
pub proof fn config_errors_tell_what_is_wrong(error: &ConfigError, message: String)
    requires
        call_ensures(ConfigError::message, (error,), message),
    ensures
        error matches ConfigError::Io { path, detail } ==> message@
            == "failed to read config file "@ + path@ + ": "@ + detail@,
        error matches ConfigError::Json { detail } ==> message@ == "invalid config JSON: "@
            + detail@,
        error matches ConfigError::UnsupportedVersion { found } ==> message@ == "config version "@
            + text::signed_digits(found as int) + " is not supported (expected 1)"@,
        error is EmptyProxyBin ==> message@ == "proxy_bin must not be empty"@,
        error matches ConfigError::InvalidConnection { id, reason } ==> message@ == "connection `"@
            + id@ + "`: "@ + reason@,
        error matches ConfigError::DuplicateId(id) ==> message@ == "duplicate connection id `"@
            + id@ + "`"@,
        error matches ConfigError::DuplicatePort(port) ==> message@ == "duplicate port "@
            + text::digits(port as nat),
        error matches ConfigError::DuplicateInstance(instance) ==> message@
            == "duplicate instance `"@ + instance@ + "`"@,
        error matches ConfigError::TooManyConnections { count, max } ==> message@
            == "config holds "@ + text::digits(count as nat) + " connections, the maximum is "@
            + text::digits(max as nat),
{
}

/// A refused field is told its value and what is asked of it.
pub proof fn refused_fields_are_told_why(
    value: &str,
    port: u16,
    id: Result<(), String>,
    name: Result<(), String>,
    group: Result<(), String>,
    instance: Result<(), String>,
    address: Result<(), String>,
    number: Result<(), String>,
)
    requires
        call_ensures(validate_id, (value,), id),
        call_ensures(validate_name, (value,), name),
        call_ensures(validate_group, (value,), group),
        call_ensures(validate_instance, (value,), instance),
        call_ensures(validate_address, (value,), address),
        call_ensures(validate_port, (port,), number),
    ensures
        id matches Err(reason) ==> reason@ == "id `"@ + value@
            + "` must match ^[a-zA-Z0-9][a-zA-Z0-9_-]*$ and be at most "@ + text::digits(64)
            + " bytes"@,
        name matches Err(reason) ==> reason@ == "name"@ + " must not be empty"@,
        group matches Err(reason) ==> reason@ == if value@.len() == 0 {
            "group"@ + " must not be empty"@
        } else {
            "group `"@ + value@ + "` must not start with '-'"@
        },
        instance matches Err(reason) ==> reason@ == "instance `"@ + value@
            + "` must be project:region:instance (three non-empty segments)"@,
        address matches Err(reason) ==> reason@ == "address"@ + " must not be empty"@,
        number matches Err(reason) ==> reason@ == if port < 1024 {
            "port "@ + text::digits(port as nat) + " is privileged (must be >= "@ + text::digits(
                1024,
            ) + ")"@
        } else {
            "port "@ + text::digits(port as nat) + " is reserved"@
        },
{
}

/// A refused Connection is told about its first field that is not sound, in the
/// order id, name, group, instance, port, address.
pub proof fn the_first_fault_is_told(
    defaults: &RawDefaults,
    raw: &RawConnection,
    error: ConfigError,
    id: &str,
    name: &str,
    group: &str,
    instance: &str,
    checked: (Result<(), String>, Result<(), String>, Result<(), String>, Result<(), String>),
    port: Result<(), String>,
)
    requires
        call_ensures(merge_connection, (defaults, raw), Err(error)),
        id@ == raw.id@,
        name@ == raw.name@,
        group@ == raw.group@,
        instance@ == raw.instance@,
        call_ensures(validate_id, (id,), checked.0),
        call_ensures(validate_name, (name,), checked.1),
        call_ensures(validate_group, (group,), checked.2),
        call_ensures(validate_instance, (instance,), checked.3),
        call_ensures(validate_port, (raw.port,), port),
    ensures
        error matches ConfigError::InvalidConnection { reason, .. } && reason@ == if checked.0
            is Err {
            checked.0->Err_0@
        } else if checked.1 is Err {
            checked.1->Err_0@
        } else if checked.2 is Err {
            checked.2->Err_0@
        } else if checked.3 is Err {
            checked.3->Err_0@
        } else if port is Err {
            port->Err_0@
        } else {
            "address"@ + " must not be empty"@
        },
{
}

/// The proxy binary of a document is its own, unless that is empty; without one
/// it is the proxy's usual name.
pub proof fn empty_binaries_are_refused(
    proxy_bin: &Option<String>,
    result: Result<String, ConfigError>,
)
    requires
        call_ensures(validate_proxy_bin, (proxy_bin,), result),
    ensures
        result is Err <==> proxy_bin is Some && proxy_bin->0@.len() == 0,
        result matches Err(error) ==> error is EmptyProxyBin,
        result matches Ok(bin) ==> bin@ == if proxy_bin is Some {
            proxy_bin->0@
        } else {
            "cloud-sql-proxy"@
        },
{
}

/// Lists of Connections are refused exactly where they hold more than 32, or
/// where two of them share an id, a port or an instance.
pub proof fn crowded_and_colliding_lists_are_refused(
    connections: &Vec<Connection>,
    counted: Result<(), ConfigError>,
    compared: Result<(), ConfigError>,
) -> (pair: (int, int))
    requires
        call_ensures(check_connection_count, (connections,), counted),
        call_ensures(check_uniqueness, (connections,), compared),
    ensures
        counted is Err <==> connections@.len() > 32,
        counted matches Err(error) ==> (error matches ConfigError::TooManyConnections { count, max }
            && count == connections@.len() && max == 32),
        compared is Ok ==> forall|i: int, j: int|
            0 <= i < j < connections@.len() ==> !collide(
                (#[trigger] connections@[i])@,
                (#[trigger] connections@[j])@,
            ),
        compared matches Err(error) ==> 0 <= pair.0 < pair.1 < connections@.len() && match error {
            ConfigError::DuplicateId(id) => connections@[pair.0].id@ == id@
                && connections@[pair.1].id@ == id@,
            ConfigError::DuplicatePort(port) => connections@[pair.0].port == port
                && connections@[pair.1].port == port,
            ConfigError::DuplicateInstance(instance) => connections@[pair.0].instance@ == instance@
                && connections@[pair.1].instance@ == instance@,
            _ => false,
        },
{
    let views = model::connection_views(connections@);
    assert forall|i: int| 0 <= i < connections@.len() implies #[trigger] views[i]
        == connections@[i]@ by {}
    no_repetition_is_all_distinct(views);
    if compared is Ok {
        assert forall|i: int, j: int| 0 <= i < j < connections@.len() implies !collide(
            (#[trigger] connections@[i])@,
            (#[trigger] connections@[j])@,
        ) by {
            assert(views[i] == connections@[i]@ && views[j] == connections@[j]@);
        }
        (0, 0)
    } else {
        let pair = repetitions_repeat(views);
        assert(views[pair.0] == connections@[pair.0]@ && views[pair.1] == connections@[pair.1]@);
        pair
    }
}

} // verus!
