//! What a TCP probe and the kernel's socket tables say about a local port.
//!
//! The probe is authoritative. Attribution of the listener is diagnostic: an
//! ambiguous or missing match names nobody.

use vstd::prelude::*;

use crate::model::{PortObservation, PortProbe};
use crate::text;
use crate::text::CharSet;

verus! {

/// How long a TCP connect may take, in milliseconds.
pub const CONNECT_TIMEOUT_MS: u64 = 200;

/// An IP address by its bits.
#[derive(Debug, Clone, Copy, PartialEq, Eq, Structural)]
pub enum IpAddress {
    V4(u32),
    V6(u128),
}

#[derive(Debug, Clone, Copy, PartialEq, Eq, Structural)]
pub struct SocketAddress {
    pub ip: IpAddress,
    pub port: u16,
}

/// Why a TCP connect failed.
#[derive(Debug, Clone, Copy, PartialEq, Eq, Structural)]
pub enum ConnectFailure {
    Refused,
    TimedOut,
    Other,
}

/// One row of the kernel's TCP socket tables.
#[derive(Debug, Clone, Copy, PartialEq, Eq, Structural)]
pub struct TcpEntry {
    pub listening: bool,
    pub local: SocketAddress,
    pub inode: u64,
}

/// The socket inodes among a process's open files; `None` where its files
/// cannot be listed.
#[derive(Debug, PartialEq, Eq)]
pub struct ProcessSockets {
    pub pid: u32,
    pub sockets: Option<Vec<u64>>,
}

/// A refused connect means a closed port; any other failure means that the
/// port cannot be reached.
pub fn classify_connect_error(failure: ConnectFailure) -> (probe: PortProbe)
    ensures
        probe == if failure == ConnectFailure::Refused {
            PortProbe::Closed
        } else {
            PortProbe::Unreachable
        },
{
    match failure {
        ConnectFailure::Refused => PortProbe::Closed,
        ConnectFailure::TimedOut | ConnectFailure::Other => PortProbe::Unreachable,
    }
}

/// What a TCP connect says about the port.
pub fn probe_tcp(connect: Result<(), ConnectFailure>) -> (probe: PortProbe)
    ensures
        probe == match connect {
            Ok(()) => PortProbe::Open,
            Err(ConnectFailure::Refused) => PortProbe::Closed,
            Err(_) => PortProbe::Unreachable,
        },
{
    match connect {
        Ok(()) => PortProbe::Open,
        Err(failure) => classify_connect_error(failure),
    }
}

/// Whether an address stands for every interface.
pub open spec fn unspecified(ip: IpAddress) -> bool {
    ip == IpAddress::V4(0) || ip == IpAddress::V6(0)
}

pub open spec fn serves(local: SocketAddress, address: IpAddress, port: u16) -> bool {
    local.port == port && (local.ip == address || unspecified(local.ip))
}

/// Whether a socket bound to `local` serves `address:port`; one bound to every
/// interface serves any address.
pub fn binds_to(local: SocketAddress, address: IpAddress, port: u16) -> (yes: bool)
    ensures
        yes == serves(local, address, port),
{
    local.port == port && (local.ip == address || local.ip == IpAddress::V4(0) || local.ip
        == IpAddress::V6(0))
}

/// The single element of a sequence.
pub open spec fn only<T>(items: Seq<T>) -> Option<T> {
    if items.len() == 1 {
        Some(items[0])
    } else {
        None
    }
}

/// The single item, or nothing where there are none or several.
pub fn unique<T: Copy>(items: &Vec<T>) -> (item: Option<T>)
    ensures
        item == only(items@),
{
    if items.len() == 1 {
        Some(items[0])
    } else {
        None
    }
}

/// The inodes of the listening sockets that serve `address:port`.
pub open spec fn serving_inodes(entries: Seq<TcpEntry>, address: IpAddress, port: u16) -> Seq<u64> {
    entries.filter(|entry: TcpEntry| entry.listening && serves(entry.local, address, port))
        .map_values(|entry: TcpEntry| entry.inode)
}

/// The inode of the one listening socket that serves `address:port`.
pub fn listening_inode(entries: &Vec<TcpEntry>, address: IpAddress, port: u16) -> (inode: Option<
    u64,
>)
    ensures
        inode == only(serving_inodes(entries@, address, port)),
{
    let ghost keep = |entry: TcpEntry| entry.listening && serves(entry.local, address, port);
    let mut candidates: Vec<u64> = Vec::new();
    let mut i: usize = 0;
    while i < entries.len()
        invariant
            i <= entries@.len(),
            keep == (|entry: TcpEntry| entry.listening && serves(entry.local, address, port)),
            candidates@ == serving_inodes(entries@.take(i as int), address, port),
        decreases entries@.len() - i,
    {
        let entry = entries[i];
        let ghost before = entries@.take(i as int);
        proof {
            assert(entries@.take(i + 1) =~= before.push(entry));
            before.lemma_filter_push(entry, keep);
        }
        if entry.listening && binds_to(entry.local, address, port) {
            candidates.push(entry.inode);
            assert(candidates@ =~= serving_inodes(entries@.take(i + 1), address, port));
        }
        i += 1;
    }
    assert(entries@.take(entries@.len() as int) =~= entries@);
    unique(&candidates)
}

pub open spec fn holds(process: ProcessSockets, inode: u64) -> bool {
    match process.sockets {
        Some(sockets) => sockets@.contains(inode),
        None => false,
    }
}

/// The processes that hold a socket open.
pub open spec fn holders(processes: Seq<ProcessSockets>, inode: u64) -> Seq<u32> {
    processes.filter(|process: ProcessSockets| holds(process, inode)).map_values(
        |process: ProcessSockets| process.pid,
    )
}

fn holds_inode(process: &ProcessSockets, inode: u64) -> (yes: bool)
    ensures
        yes == holds(*process, inode),
{
    match &process.sockets {
        None => false,
        Some(sockets) => {
            let mut i: usize = 0;
            while i < sockets.len()
                invariant
                    process.sockets == Some(*sockets),
                    i <= sockets@.len(),
                    forall|k: int| 0 <= k < i ==> sockets@[k] != inode,
                decreases sockets@.len() - i,
            {
                if sockets[i] == inode {
                    return true;
                }
                i += 1;
            }
            false
        },
    }
}

/// The one process that holds a socket open.
pub fn pid_holding_inode(processes: &Vec<ProcessSockets>, inode: u64) -> (pid: Option<u32>)
    ensures
        pid == only(holders(processes@, inode)),
{
    let ghost keep = |process: ProcessSockets| holds(process, inode);
    let mut found: Vec<u32> = Vec::new();
    let mut i: usize = 0;
    while i < processes.len()
        invariant
            i <= processes@.len(),
            keep == (|process: ProcessSockets| holds(process, inode)),
            found@ == holders(processes@.take(i as int), inode),
        decreases processes@.len() - i,
    {
        let ghost before = processes@.take(i as int);
        proof {
            assert(processes@.take(i + 1) =~= before.push(processes@[i as int]));
            before.lemma_filter_push(processes@[i as int], keep);
        }
        if holds_inode(&processes[i], inode) {
            found.push(processes[i].pid);
            assert(found@ =~= holders(processes@.take(i + 1), inode));
        }
        i += 1;
    }
    assert(processes@.take(processes@.len() as int) =~= processes@);
    unique(&found)
}

/// A process's name, from the text of its `/proc/<pid>/comm`.
pub fn process_name(comm: &str) -> (name: String)
    ensures
        name@ == text::trimmed_end(comm@, CharSet::Whitespace),
{
    text::trim_end(comm, CharSet::Whitespace)
}

/// The listener's pid and name; a name only beside a pid.
pub fn attribute_listener(pid: Option<u32>, comm: &Option<String>) -> (listener: (
    Option<u32>,
    Option<String>,
))
    ensures
        listener.0 == pid,
        text::option_view(listener.1) == match (pid, text::option_view(*comm)) {
            (Some(_), Some(name)) => Some(text::trimmed_end(name, CharSet::Whitespace)),
            _ => None,
        },
{
    match (pid, comm) {
        (Some(_), Some(comm)) => (pid, Some(process_name(comm.as_str()))),
        _ => (pid, None),
    }
}

/// The port's observation: the probe, and the attribution beside it. The
/// attribution never changes the probe.
pub fn observe(
    connect: Result<(), ConnectFailure>,
    pid: Option<u32>,
    comm: &Option<String>,
) -> (observation: PortObservation)
    ensures
        observation.probe == match connect {
            Ok(()) => PortProbe::Open,
            Err(ConnectFailure::Refused) => PortProbe::Closed,
            Err(_) => PortProbe::Unreachable,
        },
        observation.listener_pid == pid,
        text::option_view(observation.listener_name) == match (pid, text::option_view(*comm)) {
            (Some(_), Some(name)) => Some(text::trimmed_end(name, CharSet::Whitespace)),
            _ => None,
        },
{
    let (listener_pid, listener_name) = attribute_listener(pid, comm);
    PortObservation { probe: probe_tcp(connect), listener_pid, listener_name }
}

/// Two listening sockets that serve the same port leave the holder unknown.
pub proof fn ambiguous_listeners_are_not_attributed(
    entries: Seq<TcpEntry>,
    address: IpAddress,
    port: u16,
    i: int,
    j: int,
)
    requires
        0 <= i < j < entries.len(),
        entries[i].listening && serves(entries[i].local, address, port),
        entries[j].listening && serves(entries[j].local, address, port),
    ensures
        only(serving_inodes(entries, address, port)) is None,
{
    let keep = |entry: TcpEntry| entry.listening && serves(entry.local, address, port);
    let front = entries.take(j);
    let back = entries.skip(j);
    assert(entries =~= front + back);
    Seq::filter_distributes_over_add(front, back, keep);
    broadcast use vstd::seq_lib::group_filter_ensures;

    assert(front[i] == entries[i] && back[0] == entries[j]);
    assert(front.filter(keep).contains(entries[i]));
    assert(back.filter(keep).contains(entries[j]));
}

/// Only a connect that succeeds shows an open port, and only a refused one a
/// closed port.
pub proof fn connects_show_the_port(connect: Result<(), ConnectFailure>, probe: PortProbe)
    requires
        call_ensures(probe_tcp, (connect,), probe),
    ensures
        probe == PortProbe::Open <==> connect is Ok,
        probe == PortProbe::Closed <==> connect is Err && connect->Err_0 is Refused,
        forall|failure: ConnectFailure, classified: PortProbe|
            connect == Err::<(), ConnectFailure>(failure) && #[trigger] call_ensures(
                classify_connect_error,
                (failure,),
                classified,
            ) ==> probe == classified,
{
}

/// Whether a socket listens for an address and a port: on that port, and on
/// that address or on every one.
pub open spec fn listens_for(entry: TcpEntry, address: IpAddress, port: u16) -> bool {
    &&& entry.listening
    &&& entry.local.port == port
    &&& entry.local.ip == address || entry.local.ip == IpAddress::V4(0) || entry.local.ip
        == IpAddress::V6(0)
}

/// The only place, if there is one, at which a sequence holds what is kept.
pub open spec fn only_at<T>(items: Seq<T>, keep: spec_fn(T) -> bool, at: int) -> bool {
    &&& 0 <= at < items.len()
    &&& keep(items[at])
    &&& forall|j: int| 0 <= j < items.len() && keep(#[trigger] items[j]) ==> j == at
}

proof fn single_matches<T>(items: Seq<T>, keep: spec_fn(T) -> bool) -> (at: int)
    ensures
        items.filter(keep).len() == 0 <==> forall|j: int|
            0 <= j < items.len() ==> !keep(#[trigger] items[j]),
        items.filter(keep).len() == 1 ==> only_at(items, keep, at) && items.filter(keep)[0]
            == items[at],
        items.filter(keep).len() > 1 ==> forall|i: int| !#[trigger] only_at(items, keep, i),
    decreases items.len(),
{
    if items.len() == 0 {
        items.lemma_filter_len(keep);
        0
    } else {
        let front = items.drop_last();
        let last = items.last();
        let at = single_matches(front, keep);
        assert(front.push(last) =~= items);
        front.lemma_filter_push(last, keep);
        assert forall|j: int| 0 <= j < front.len() implies #[trigger] items[j] == front[j] by {}
        assert(items[items.len() - 1] == last);
        let n = items.len() - 1;
        if keep(last) {
            if front.filter(keep).len() > 0 {
                let k = choose|k: int| 0 <= k < front.len() && keep(#[trigger] front[k]);
                assert(keep(items[k]));
                assert forall|i: int| !#[trigger] only_at(items, keep, i) by {
                    if only_at(items, keep, i) {
                        assert(i == k && i == n);
                    }
                }
            } else {
                assert forall|j: int| 0 <= j < items.len() && keep(#[trigger] items[j]) implies j
                    == n by {
                    if j < n {
                        assert(!keep(front[j]));
                    }
                }
            }
            n
        } else {
            if front.filter(keep).len() > 1 {
                assert forall|i: int| !#[trigger] only_at(items, keep, i) by {
                    if only_at(items, keep, i) {
                        assert(only_at(front, keep, i));
                    }
                }
            }
            if front.filter(keep).len() == 0 {
                assert forall|j: int| 0 <= j < items.len() implies !keep(#[trigger] items[j]) by {
                    if j < n {
                        assert(!keep(front[j]));
                    }
                }
            } else {
                let k = choose|k: int| 0 <= k < front.len() && keep(#[trigger] front[k]);
                assert(keep(items[k]));
            }
            at
        }
    }
}

/// A socket is found exactly where one and only one listens for the address and
/// the port.
pub proof fn sockets_are_found_where_they_are_alone(
    entries: &Vec<TcpEntry>,
    address: IpAddress,
    port: u16,
    inode: Option<u64>,
) -> (at: int)
    requires
        call_ensures(listening_inode, (entries, address, port), inode),
    ensures
        ({
            let keep = |entry: TcpEntry| listens_for(entry, address, port);
            &&& inode matches Some(inode) ==> only_at(entries@, keep, at) && inode
                == entries@[at].inode
            &&& inode is None ==> forall|i: int| !#[trigger] only_at(entries@, keep, i)
        }),
{
    let keep = |entry: TcpEntry| listens_for(entry, address, port);
    let serving = |entry: TcpEntry| entry.listening && serves(entry.local, address, port);
    assert(keep =~= serving);
    let at = single_matches(entries@, keep);
    if inode is None {
        assert(entries@.filter(keep).len() != 1);
        assert forall|i: int| !#[trigger] only_at(entries@, keep, i) by {}
    }
    at
}

/// Whether a process is known to have a socket open.
pub open spec fn has_open(process: ProcessSockets, inode: u64) -> bool {
    process.sockets is Some && exists|k: int|
        0 <= k < process.sockets->0@.len() && #[trigger] process.sockets->0@[k] == inode
}

/// A holder is found exactly where one and only one process is known to have
/// the socket open.
pub proof fn holders_are_found_where_they_are_alone(
    processes: &Vec<ProcessSockets>,
    inode: u64,
    pid: Option<u32>,
) -> (at: int)
    requires
        call_ensures(pid_holding_inode, (processes, inode), pid),
    ensures
        ({
            let keep = |process: ProcessSockets| has_open(process, inode);
            &&& pid matches Some(pid) ==> only_at(processes@, keep, at) && pid
                == processes@[at].pid
            &&& pid is None ==> forall|i: int| !#[trigger] only_at(processes@, keep, i)
        }),
{
    let keep = |process: ProcessSockets| has_open(process, inode);
    let holding = |process: ProcessSockets| holds(process, inode);
    assert forall|process: ProcessSockets| #[trigger] keep(process) == holding(process) by {
        if holds(process, inode) {
            let k = choose|k: int|
                0 <= k < process.sockets->0@.len() && process.sockets->0@[k] == inode;
            assert(process.sockets->0@[k] == inode);
        }
    }
    assert(keep =~= holding);
    let at = single_matches(processes@, keep);
    if pid is None {
        assert(processes@.filter(keep).len() != 1);
        assert forall|i: int| !#[trigger] only_at(processes@, keep, i) by {}
    }
    at
}

/// An observation holds the probe and the holder as they were found; a name is
/// shown only beside a pid, without the white space behind it. The holder has
/// no influence on the probe.
pub proof fn observations_hold_what_was_found(
    connect: Result<(), ConnectFailure>,
    pid: Option<u32>,
    comm: &Option<String>,
    observation: PortObservation,
)
    requires
        call_ensures(observe, (connect, pid, comm), observation),
    ensures
        forall|probe: PortProbe|
            call_ensures(probe_tcp, (connect,), probe) ==> observation.probe == probe,
        observation.listener_pid == pid,
        observation.listener_name is Some <==> pid is Some && comm is Some,
        comm matches Some(comm) ==> (observation.listener_name matches Some(name) ==> {
            &&& name@.len() <= comm@.len()
            &&& name@ == comm@.take(name@.len() as int)
            &&& name@.len() > 0 ==> !text::whitespace(name@.last())
            &&& forall|i: int|
                name@.len() <= i < comm@.len() ==> text::whitespace(#[trigger] comm@[i])
        }),
{
    if comm is Some {
        let to = text::the_end_is_trimmed(comm->0@, CharSet::Whitespace);
    }
}

/// A socket serves its own port only, and every address where it is bound to
/// none.
pub proof fn sockets_serve_their_own_port(
    local: SocketAddress,
    address: IpAddress,
    port: u16,
    yes: bool,
)
    requires
        call_ensures(binds_to, (local, address, port), yes),
    ensures
        yes ==> local.port == port,
        local.port == port && local.ip == address ==> yes,
        local.port == port && (local.ip == IpAddress::V4(0) || local.ip == IpAddress::V6(0)) ==> yes,
        yes && local.ip != address ==> local.ip == IpAddress::V4(0) || local.ip
            == IpAddress::V6(0),
{
}

} // verus!
