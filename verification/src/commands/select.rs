//! Target selectors and the filter for failed Connections.

use vstd::prelude::*;

use crate::config;
use crate::config::Config;
use crate::model::{Connection, HealthState, StatusRow};
use crate::text;

verus! {

/// Which Connections a command is for.
#[derive(Debug, PartialEq, Eq)]
pub enum Selector {
    /// Every Connection.
    All,
    /// The Connection with an id.
    Id(String),
    /// Every Connection of a group.
    Group(String),
}

/// Why a selector names no Connection.
#[derive(Debug, PartialEq, Eq)]
pub enum SelectError {
    UnknownId(String),
    UnknownGroup(String),
}

impl SelectError {
    pub open spec fn text(self) -> Seq<char> {
        match self {
            SelectError::UnknownId(id) => "unknown connection id `"@ + id@ + "`"@,
            SelectError::UnknownGroup(group) => "unknown group `"@ + group@ + "`"@,
        }
    }

    /// The error in words.
    pub fn message(&self) -> (message: String)
        ensures
            message@ == self.text(),
    {
        match self {
            SelectError::UnknownId(id) => {
                let mut message = "unknown connection id `".to_owned();
                message.append(id.as_str());
                message.append("`");
                message
            },
            SelectError::UnknownGroup(group) => {
                let mut message = "unknown group `".to_owned();
                message.append(group.as_str());
                message.append("`");
                message
            },
        }
    }
}

/// The Connections of a group, in their order.
pub open spec fn in_group(connections: Seq<Connection>, group: Seq<char>) -> Seq<Connection> {
    connections.filter(|connection: Connection| connection.group@ == group)
}

/// The Connections that a selector names, disabled ones among them, in the
/// order of the config; or the error for a selector that names none.
pub open spec fn selected(connections: Seq<Connection>, selector: Selector) -> Result<
    Seq<Connection>,
    SelectError,
> {
    match selector {
        Selector::All => Ok(connections),
        Selector::Id(id) => match config::found_by_id(connections, id@) {
            Some(connection) => Ok(seq![connection]),
            None => Err(SelectError::UnknownId(id)),
        },
        Selector::Group(group) => if in_group(connections, group@).len() == 0 {
            Err(SelectError::UnknownGroup(group))
        } else {
            Ok(in_group(connections, group@))
        },
    }
}

/// What the references of a list point to.
pub open spec fn targets<T>(references: Seq<&T>) -> Seq<T> {
    references.map_values(|reference: &T| *reference)
}

/// Resolves a selector against a config.
pub fn expand<'a>(config: &'a Config, selector: &Selector) -> (result: Result<
    Vec<&'a Connection>,
    SelectError,
>)
    ensures
        match result {
            Ok(found) => selected(config.connections@, *selector) == Ok::<
                Seq<Connection>,
                SelectError,
            >(targets(found@)),
            Err(error) => selected(config.connections@, *selector) == Err::<
                Seq<Connection>,
                SelectError,
            >(error),
        },
{
    let connections = &config.connections;
    let mut found: Vec<&'a Connection> = Vec::new();
    match selector {
        Selector::All => {
            let mut i: usize = 0;
            while i < connections.len()
                invariant
                    connections == config.connections,
                    i <= connections@.len(),
                    found@.len() == i,
                    forall|k: int| 0 <= k < i ==> *(#[trigger] found@[k]) == connections@[k],
                decreases connections@.len() - i,
            {
                found.push(&connections[i]);
                i += 1;
            }
            assert(targets(found@) =~= connections@);
            Ok(found)
        },
        Selector::Id(id) => match config::by_id(config, id.as_str()) {
            Some(connection) => {
                found.push(connection);
                assert(targets(found@) =~= seq![*connection]);
                Ok(found)
            },
            None => Err(SelectError::UnknownId(id.clone())),
        },
        Selector::Group(group) => {
            let ghost keep = |connection: Connection| connection.group@ == group@;
            let mut i: usize = 0;
            assert(connections@.take(0).filter(keep) =~= Seq::empty()) by {
                reveal(Seq::filter);
            }
            assert(targets(found@) =~= Seq::empty());
            while i < connections.len()
                invariant
                    connections == config.connections,
                    keep == (|connection: Connection| connection.group@ == group@),
                    i <= connections@.len(),
                    targets(found@) == connections@.take(i as int).filter(keep),
                decreases connections@.len() - i,
            {
                let connection = &connections[i];
                let ghost before = found@;
                proof {
                    assert(connections@.take(i + 1) =~= connections@.take(i as int).push(
                        *connection,
                    ));
                    connections@.take(i as int).lemma_filter_push(*connection, keep);
                }
                if text::same(connection.group.as_str(), group.as_str()) {
                    found.push(connection);
                    assert(targets(found@) =~= targets(before).push(*connection));
                }
                i += 1;
            }
            assert(connections@.take(connections@.len() as int) =~= connections@);
            if found.len() == 0 {
                Err(SelectError::UnknownGroup(group.clone()))
            } else {
                Ok(found)
            }
        },
    }
}

/// The rows in state `error`, in their order.
pub open spec fn failed_rows(rows: Seq<StatusRow>) -> Seq<StatusRow> {
    rows.filter(|row: StatusRow| row.state == HealthState::Error)
}

/// Keeps the rows in state `error`.
pub fn filter_failed(rows: &Vec<StatusRow>) -> (failed: Vec<&StatusRow>)
    ensures
        targets(failed@) == failed_rows(rows@),
{
    let mut failed: Vec<&StatusRow> = Vec::new();
    let ghost keep = |row: StatusRow| row.state == HealthState::Error;
    let mut i: usize = 0;
    assert(rows@.take(0).filter(keep) =~= Seq::empty()) by {
        reveal(Seq::filter);
    }
    assert(targets(failed@) =~= Seq::empty());
    while i < rows.len()
        invariant
            keep == (|row: StatusRow| row.state == HealthState::Error),
            i <= rows@.len(),
            targets(failed@) == rows@.take(i as int).filter(keep),
        decreases rows@.len() - i,
    {
        let row = &rows[i];
        let ghost before = failed@;
        proof {
            assert(rows@.take(i + 1) =~= rows@.take(i as int).push(*row));
            rows@.take(i as int).lemma_filter_push(*row, keep);
        }
        if row.state == HealthState::Error {
            failed.push(row);
            assert(targets(failed@) =~= targets(before).push(*row));
        }
        i += 1;
    }
    assert(rows@.take(rows@.len() as int) =~= rows@);
    failed
}

// ---------------------------------------------------------------------------
// Laws.
// ---------------------------------------------------------------------------

/// A selector names configured Connections only, and a group selector only
/// those of its group.
pub proof fn selected_connections_are_configured(
    connections: Seq<Connection>,
    selector: Selector,
    i: int,
)
    requires
        selected(connections, selector) is Ok,
        0 <= i < selected(connections, selector)->Ok_0.len(),
    ensures
        connections.contains(selected(connections, selector)->Ok_0[i]),
        selector matches Selector::Group(group) ==> selected(connections, selector)->Ok_0[i].group@
            == group@,
        selector matches Selector::Id(id) ==> selected(connections, selector)->Ok_0[i].id@ == id@,
{
    broadcast use vstd::seq_lib::group_filter_ensures;

    match selector {
        Selector::All => {
            assert(connections.contains(connections[i]));
        },
        Selector::Id(id) => {
            found_connections_are_configured(connections, id@);
        },
        Selector::Group(group) => {
            let keep = |connection: Connection| connection.group@ == group@;
            let kept = connections.filter(keep);
            assert(keep(kept[i]));
            connections.lemma_filter_contains_rev(keep, kept[i]);
        },
    }
}

proof fn found_connections_are_configured(connections: Seq<Connection>, id: Seq<char>)
    ensures
        config::found_by_id(connections, id) matches Some(connection) ==> connections.contains(
            connection,
        ) && connection.id@ == id,
    decreases connections.len(),
{
    if connections.len() > 0 {
        let rest = connections.drop_first();
        found_connections_are_configured(rest, id);
        if connections[0].id@ != id && config::found_by_id(connections, id) is Some {
            let found = config::found_by_id(connections, id)->0;
            let i = choose|i: int| 0 <= i < rest.len() && rest[i] == found;
            assert(connections[i + 1] == found);
        }
    }
}

/// Every Connection of a group is named by the group's selector.
pub proof fn group_members_are_selected(connections: Seq<Connection>, i: int)
    requires
        0 <= i < connections.len(),
    ensures
        in_group(connections, connections[i].group@).contains(connections[i]),
{
    broadcast use vstd::seq_lib::group_filter_ensures;

    let group = connections[i].group@;
    let keep = |connection: Connection| connection.group@ == group;
    assert(keep(connections[i]));
}

/// The selector of all names every Connection, in their order; the selector of
/// an id the first Connection with it; the selector of a group exactly the
/// Connections of the group, in their order. Disabled ones are named like any
/// other. Only an id or a group that no Connection has is an error.
pub proof fn selectors_name_what_they_say(
    config: &Config,
    selector: &Selector,
    result: Result<Vec<&Connection>, SelectError>,
) -> (at: int)
    requires
        call_ensures(expand, (config, selector), result),
    ensures
        match *selector {
            Selector::All => result matches Ok(found) && {
                &&& found@.len() == config.connections@.len()
                &&& forall|i: int|
                    0 <= i < found@.len() ==> *(#[trigger] found@[i]) == config.connections@[i]
            },
            Selector::Id(id) => match result {
                Ok(found) => {
                    &&& found@.len() == 1
                    &&& 0 <= at < config.connections@.len()
                    &&& *found@[0] == config.connections@[at]
                    &&& found@[0].id@ == id@
                    &&& forall|j: int|
                        0 <= j < at ==> (#[trigger] config.connections@[j]).id@ != id@
                },
                Err(error) => {
                    &&& error matches SelectError::UnknownId(unknown) && unknown@ == id@
                    &&& forall|j: int|
                        0 <= j < config.connections@.len() ==> (
                        #[trigger] config.connections@[j]).id@ != id@
                },
            },
            Selector::Group(group) => match result {
                Ok(found) => {
                    &&& found@.len() > 0
                    &&& targets(found@) == config.connections@.filter(
                        |connection: Connection| connection.group@ == group@,
                    )
                },
                Err(error) => {
                    &&& error matches SelectError::UnknownGroup(unknown) && unknown@ == group@
                    &&& forall|j: int|
                        0 <= j < config.connections@.len() ==> (
                        #[trigger] config.connections@[j]).group@ != group@
                },
            },
        },
{
    broadcast use vstd::seq_lib::group_filter_ensures;

    let connections = config.connections@;
    match *selector {
        Selector::All => {
            let found = result->Ok_0@;
            assert(targets(found) == connections);
            assert(targets(found).len() == found.len());
            assert forall|i: int| 0 <= i < found.len() implies *(#[trigger] found[i])
                == connections[i] by {
                assert(targets(found)[i] == *found[i]);
            }
            0
        },
        Selector::Id(id) => {
            let at = config::the_first_with_an_id_is_found(connections, id@);
            if result is Ok {
                let found = result->Ok_0@;
                assert(targets(found).len() == found.len());
                assert(targets(found)[0] == *found[0]);
            }
            at
        },
        Selector::Group(group) => {
            let keep = |connection: Connection| connection.group@ == group@;
            if result is Ok {
                assert(targets(result->Ok_0@).len() == result->Ok_0@.len());
            } else {
                assert forall|j: int| 0 <= j < connections.len() implies (
                #[trigger] connections[j]).group@ != group@ by {
                    if keep(connections[j]) {
                        assert(connections.filter(keep).contains(connections[j]));
                    }
                }
            }
            0
        },
    }
}

/// The filter keeps every row in state `error` and no other, in their order.
pub proof fn failed_rows_are_kept(rows: &Vec<StatusRow>, failed: Vec<&StatusRow>)
    requires
        call_ensures(filter_failed, (rows,), failed),
    ensures
        targets(failed@) == rows@.filter(|row: StatusRow| row.state == HealthState::Error),
        forall|i: int|
            0 <= i < failed@.len() ==> (#[trigger] failed@[i]).state == HealthState::Error,
        forall|i: int|
            0 <= i < rows@.len() && (#[trigger] rows@[i]).state == HealthState::Error ==> targets(
                failed@,
            ).contains(rows@[i]),
{
    broadcast use vstd::seq_lib::group_filter_ensures;

    let keep = |row: StatusRow| row.state == HealthState::Error;
    let kept = targets(failed@);
    assert(kept == rows@.filter(keep));
    assert(kept.len() == failed@.len());
    assert forall|i: int| 0 <= i < failed@.len() implies (#[trigger] failed@[i]).state
        == HealthState::Error by {
        assert(kept[i] == *failed@[i]);
        assert(keep(kept[i]));
    }
    assert forall|i: int|
        0 <= i < rows@.len() && (#[trigger] rows@[i]).state == HealthState::Error implies kept.contains(
        rows@[i],
    ) by {
        assert(keep(rows@[i]));
    }
}

/// A selector that names nothing is told which id or group is not there.
pub proof fn unknown_targets_are_named(error: &SelectError, message: String)
    requires
        call_ensures(SelectError::message, (error,), message),
    ensures
        error matches SelectError::UnknownId(id) ==> message@ == "unknown connection id `"@ + id@
            + "`"@,
        error matches SelectError::UnknownGroup(group) ==> message@ == "unknown group `"@ + group@
            + "`"@,
{
}

} // verus!
