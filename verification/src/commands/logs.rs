//! The `logs` command: an id becomes a unit, a journal read becomes a dump.

use vstd::prelude::*;

use crate::config;
use crate::config::Config;
use crate::journal;
use crate::journal::{Dump, JournalError};
use crate::model;
use crate::model::{Connection, UnitName, UnitNameError};
use crate::text;

verus! {

/// Why `logs` could not produce a dump.
#[derive(Debug, PartialEq, Eq)]
pub enum LogsCommandError {
    UnknownId(String),
    UnitName { id: String, source: UnitNameError },
    Journal(JournalError),
}

impl LogsCommandError {
    pub open spec fn text(self) -> Seq<char> {
        match self {
            LogsCommandError::UnknownId(id) => "unknown connection id `"@ + id@ + "`"@,
            LogsCommandError::UnitName { id, source } => "connection `"@ + id@ + "`: "@
                + source.text(),
            LogsCommandError::Journal(error) => error.text(),
        }
    }

    /// The error in words.
    pub fn message(&self) -> (message: String)
        ensures
            message@ == self.text(),
    {
        match self {
            LogsCommandError::UnknownId(id) => {
                let mut message = "unknown connection id `".to_owned();
                message.append(id.as_str());
                message.append("`");
                message
            },
            LogsCommandError::UnitName { id, source } => {
                let mut message = "connection `".to_owned();
                message.append(id.as_str());
                message.append("`: ");
                message.append(source.message().as_str());
                message
            },
            LogsCommandError::Journal(error) => error.message(),
        }
    }
}

/// Whether a result is what resolving an id comes to: the unit of the
/// Connection with that id, or why there is none.
pub open spec fn unit_resolved(
    result: Result<UnitName, LogsCommandError>,
    config: Config,
    id: Seq<char>,
) -> bool {
    match config::found_by_id(config.connections@, id) {
        None => result matches Err(LogsCommandError::UnknownId(unknown)) && unknown@ == id,
        Some(connection) => match model::unit_name_of(connection.id@) {
            Ok(unit) => result matches Ok(name) && name@ == unit,
            Err(reason) => result matches Err(LogsCommandError::UnitName { id: own, source })
                && own == connection.id && source == reason,
        },
    }
}

/// The unit of the Connection with an id, where there is one.
pub open spec fn unit_of(config: Config, id: Seq<char>) -> Option<Seq<char>> {
    match config::found_by_id(config.connections@, id) {
        None => None,
        Some(connection) => model::unit_name_of(connection.id@).ok(),
    }
}

/// Resolves a Connection id to its unit.
pub fn resolve_unit(config: &Config, id: &str) -> (result: Result<UnitName, LogsCommandError>)
    ensures
        unit_resolved(result, *config, id@),
{
    match config::by_id(config, id) {
        None => Err(LogsCommandError::UnknownId(id.to_owned())),
        Some(connection) => match model::unit_name(connection.id.as_str()) {
            Ok(unit) => Ok(unit),
            Err(source) => Err(LogsCommandError::UnitName { id: connection.id.clone(), source }),
        },
    }
}

/// The `journalctl` arguments that dump a Connection's most recent lines, or
/// why there is no unit to dump.
pub fn logs_args(config: &Config, id: &str, lines: u32) -> (result: Result<
    Vec<String>,
    LogsCommandError,
>)
    ensures
        match unit_of(*config, id@) {
            Some(unit) => result matches Ok(args) && text::views(args@) == journal::dump_argv(
                unit,
                lines,
            ),
            None => result matches Err(error) && unit_resolved(Err(error), *config, id@),
        },
{
    match resolve_unit(config, id) {
        Ok(unit) => Ok(journal::dump_args(&unit, lines)),
        Err(error) => Err(error),
    }
}

/// A Connection's dump, from the journal read of its unit.
pub fn logs(config: &Config, id: &str, read: Result<Vec<u8>, JournalError>) -> (result: Result<
    Dump,
    LogsCommandError,
>)
    ensures
        match (unit_of(*config, id@), read) {
            (Some(_), Ok(stdout)) => result == Ok::<Dump, LogsCommandError>(
                if journal::blank(stdout@) {
                    Dump::Empty
                } else {
                    Dump::Bytes(stdout)
                },
            ),
            (Some(_), Err(error)) => result == Err::<Dump, LogsCommandError>(
                LogsCommandError::Journal(error),
            ),
            (None, _) => result matches Err(error) && unit_resolved(Err(error), *config, id@),
        },
{
    match resolve_unit(config, id) {
        Err(error) => Err(error),
        Ok(_) => match journal::dump(read) {
            Ok(dump) => Ok(dump),
            Err(error) => Err(LogsCommandError::Journal(error)),
        },
    }
}

// ---------------------------------------------------------------------------
// Laws.
// ---------------------------------------------------------------------------

/// Logs are those of the own unit of the Connection with an id: of the first
/// one that has it. An id that no Connection has is unknown, and an id without
/// a unit name has no logs.
pub proof fn logs_are_of_the_connections_own_unit(
    config: &Config,
    id: &str,
    found: Option<&Connection>,
    result: Result<UnitName, LogsCommandError>,
)
    requires
        call_ensures(config::by_id, (config, id), found),
        call_ensures(resolve_unit, (config, id), result),
    ensures
        found is None <==> result is Err && result->Err_0 is UnknownId,
        result matches Err(LogsCommandError::UnknownId(unknown)) ==> unknown@ == id@,
        found matches Some(connection) ==> match result {
            Ok(unit) => model::unit_name_of(connection.id@) == Ok::<Seq<char>, UnitNameError>(
                unit@,
            ),
            Err(LogsCommandError::UnitName { id: own, source }) => own@ == connection.id@
                && model::unit_name_of(connection.id@) == Err::<Seq<char>, UnitNameError>(source),
            Err(_) => false,
        },
{
}

/// The journal is asked for the unit that the id stands for, and for as many
/// lines as are wanted; where there is no unit, it is not asked.
pub proof fn the_journal_is_asked_for_that_unit(
    config: &Config,
    id: &str,
    lines: u32,
    unit: Result<UnitName, LogsCommandError>,
    result: Result<Vec<String>, LogsCommandError>,
)
    requires
        call_ensures(resolve_unit, (config, id), unit),
        call_ensures(logs_args, (config, id, lines), result),
    ensures
        unit is Ok <==> result is Ok,
        unit matches Ok(unit) ==> (result matches Ok(args) && forall|asked: Vec<String>|
            call_ensures(journal::dump_args, (&unit, lines), asked) ==> text::views(args@)
                == text::views(asked@)),
        unit matches Err(LogsCommandError::UnknownId(unknown)) ==> (result matches Err(
            LogsCommandError::UnknownId(same),
        ) && same@ == unknown@),
        unit matches Err(LogsCommandError::UnitName { id: own, source }) ==> (result matches Err(
            LogsCommandError::UnitName { id: same_own, source: same },
        ) && same_own@ == own@ && same == source),
{
}

/// What the journal gave for the unit is what `logs` gives; a journal that
/// could not be read is an error, and an id without a unit is one before.
pub proof fn logs_hand_on_the_journal(
    config: &Config,
    id: &str,
    read: Result<Vec<u8>, JournalError>,
    unit: Result<UnitName, LogsCommandError>,
    dumped: Result<Dump, JournalError>,
    result: Result<Dump, LogsCommandError>,
)
    requires
        call_ensures(resolve_unit, (config, id), unit),
        call_ensures(journal::dump, (read,), dumped),
        call_ensures(logs, (config, id, read), result),
    ensures
        unit is Err ==> result is Err && (result->Err_0 is UnknownId <==> unit->Err_0 is UnknownId)
            && !(result->Err_0 is Journal),
        unit is Ok ==> match dumped {
            Ok(dump) => result == Ok::<Dump, LogsCommandError>(dump),
            Err(error) => result == Err::<Dump, LogsCommandError>(LogsCommandError::Journal(error)),
        },
{
}

/// Logs that cannot be had are told why, with the id that it is about.
pub proof fn logs_errors_tell_why(error: &LogsCommandError, message: String)
    requires
        call_ensures(LogsCommandError::message, (error,), message),
    ensures
        error matches LogsCommandError::UnknownId(id) ==> message@ == "unknown connection id `"@
            + id@ + "`"@,
        error matches LogsCommandError::UnitName { id, source } ==> forall|reason: String|
            call_ensures(UnitNameError::message, (&source,), reason) ==> message@
                == "connection `"@ + id@ + "`: "@ + reason@,
        error matches LogsCommandError::Journal(source) ==> forall|reason: String|
            call_ensures(JournalError::message, (&source,), reason) ==> message@ == reason@,
{
}

} // verus!
