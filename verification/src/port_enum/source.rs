use crate::port_enum::types::{RawListener, RawListenerView, RawScan, RawScanView};
use vstd::prelude::*;

verus! {

/// What a socket table row says about the socket's protocol.
#[derive(Debug, Clone, Copy)]
pub enum SocketKind {
    /// A TCP socket: its local port, whether it is bound to an IPv4 address,
    /// and whether it is in the listening state.
    Tcp { local_port: u16, is_v4: bool, listening: bool },
    /// Any other protocol.
    Other,
}

/// One row of the operating system's socket table.
#[derive(Debug, Clone)]
pub struct SocketRecord {
    pub kind: SocketKind,
    /// The processes associated with the socket, as the table lists them.
    pub pids: Vec<u32>,
}

/// A listening TCP socket and the process it is attributed to.
#[derive(Debug, Clone, Copy)]
pub struct ListeningSocket {
    pub port: u16,
    pub pid: u32,
    pub is_v4: bool,
}

/// The listening socket a table row stands for, if any: only TCP sockets in
/// the listening state with at least one associated process count, and the
/// first associated process is the one shown.
pub fn listening_socket(sock: &SocketRecord) -> (found: Option<ListeningSocket>)
    ensures
        found == match sock.kind {
            SocketKind::Tcp { local_port, is_v4, listening } => if listening && sock.pids@.len()
                > 0 {
                Some(ListeningSocket { port: local_port, pid: sock.pids@[0], is_v4 })
            } else {
                None::<ListeningSocket>
            },
            SocketKind::Other => None::<ListeningSocket>,
        },
{
    match sock.kind {
        SocketKind::Tcp { local_port, is_v4, listening } => {
            if listening && sock.pids.len() > 0 {
                Some(ListeningSocket { port: local_port, pid: sock.pids[0], is_v4 })
            } else {
                None
            }
        },
        SocketKind::Other => None,
    }
}

/// What the process table knows of a process: its name, and its user's name
/// when the user could be resolved.
#[derive(Debug, Clone)]
pub struct ProcessInfo {
    pub name: String,
    pub user: Option<String>,
}

/// The raw listener for a listening socket. A process that is gone shows
/// `"?"` as its name and user; a user that cannot be resolved shows `"?"`.
pub fn raw_listener(sock: ListeningSocket, process: Option<ProcessInfo>) -> (l: RawListener)
    ensures
        l.port == sock.port,
        l.pid == sock.pid,
        l.is_v4 == sock.is_v4,
        match process {
            Some(p) => {
                &&& l.process_name@ == p.name@
                &&& l.user@ == match p.user {
                    Some(u) => u@,
                    None => "?"@,
                }
            },
            None => l.process_name@ == "?"@ && l.user@ == "?"@,
        },
{
    let (process_name, user) = match process {
        Some(p) => {
            let user = match p.user {
                Some(u) => u,
                None => "?".to_owned(),
            };
            (p.name, user)
        },
        None => ("?".to_owned(), "?".to_owned()),
    };
    RawListener { port: sock.port, pid: sock.pid, is_v4: sock.is_v4, process_name, user }
}

// ---------------------------------------------------------------------------
// The whole table
// ---------------------------------------------------------------------------

pub struct SocketRecordView {
    pub kind: SocketKind,
    pub pids: Seq<u32>,
}

impl View for SocketRecord {
    type V = SocketRecordView;

    open spec fn view(&self) -> SocketRecordView {
        SocketRecordView { kind: self.kind, pids: self.pids@ }
    }
}

pub struct ProcessInfoView {
    pub name: Seq<char>,
    pub user: Option<Seq<char>>,
}

impl View for ProcessInfo {
    type V = ProcessInfoView;

    open spec fn view(&self) -> ProcessInfoView {
        ProcessInfoView {
            name: self.name@,
            user: match self.user {
                Some(u) => Some(u@),
                None => None,
            },
        }
    }
}

impl ProcessInfo {
    /// A field-by-field copy.
    pub fn duplicate(&self) -> (copy: ProcessInfo)
        ensures
            copy@ == self@,
    {
        let user = match &self.user {
            Some(u) => Some(u.clone()),
            None => None,
        };
        ProcessInfo { name: self.name.clone(), user }
    }
}

/// One row of the socket table, with what the process table says of the
/// process that the row's first associated pid names (`None` when the row
/// has no pid or the process is gone).
#[derive(Debug, Clone)]
pub struct ScanRow {
    pub socket: SocketRecord,
    pub process: Option<ProcessInfo>,
}

pub struct ScanRowView {
    pub socket: SocketRecordView,
    pub process: Option<ProcessInfoView>,
}

impl View for ScanRow {
    type V = ScanRowView;

    open spec fn view(&self) -> ScanRowView {
        ScanRowView {
            socket: self.socket@,
            process: match self.process {
                Some(p) => Some(p@),
                None => None,
            },
        }
    }
}

/// The listener a row stands for, if it is a listening TCP socket with a
/// process: port, first pid and address family from the socket, name and
/// user from the process, `"?"` for what is unknown.
pub open spec fn row_listener(row: ScanRowView) -> Option<RawListenerView> {
    match row.socket.kind {
        SocketKind::Tcp { local_port, is_v4, listening } => if listening && row.socket.pids.len()
            > 0 {
            Some(
                RawListenerView {
                    port: local_port,
                    pid: row.socket.pids[0],
                    is_v4,
                    process_name: match row.process {
                        Some(p) => p.name,
                        None => "?"@,
                    },
                    user: match row.process {
                        Some(p) => match p.user {
                            Some(u) => u,
                            None => "?"@,
                        },
                        None => "?"@,
                    },
                },
            )
        } else {
            None
        },
        SocketKind::Other => None,
    }
}

/// The listeners of a table: one per listening row, in the table's order,
/// with no deduplication and no filtering.
pub open spec fn listeners_of(rows: Seq<ScanRowView>) -> Seq<RawListenerView>
    decreases rows.len(),
{
    if rows.len() == 0 {
        Seq::empty()
    } else {
        let before = listeners_of(rows.drop_last());
        match row_listener(rows.last()) {
            Some(l) => before.push(l),
            None => before,
        }
    }
}

pub open spec fn rows_view(rows: Seq<ScanRow>) -> Seq<ScanRowView> {
    rows.map_values(|r: ScanRow| r@)
}

/// `l` is what row `row` says: the row is a listening TCP socket with a pid,
/// and `l` has its port, its first pid and its address family, with the
/// process's name and user, or `"?"` where the process table does not know
/// them.
pub open spec fn carries_row(l: RawListenerView, row: ScanRowView) -> bool {
    &&& row.socket.kind is Tcp
    &&& row.socket.kind->listening
    &&& row.socket.pids.len() > 0
    &&& l.port == row.socket.kind->local_port
    &&& l.is_v4 == row.socket.kind->is_v4
    &&& l.pid == row.socket.pids[0]
    &&& l.process_name == (if row.process is Some {
        row.process->Some_0.name
    } else {
        "?"@
    })
    &&& l.user == (if row.process is Some && row.process->Some_0.user is Some {
        row.process->Some_0.user->Some_0
    } else {
        "?"@
    })
}

/// Each listener read from a table comes from a listening TCP row with a
/// process and carries that row's own port, first pid and address family (an
/// IPv6 row gives an IPv6 listener), with the process table's name and user or
/// `"?"`. Conversely every listening TCP row with a pid gives a listener.
pub proof fn law_listeners_read_from_rows(rows: Seq<ScanRowView>)
    ensures
        listeners_of(rows).len() <= rows.len(),
        forall|k: int|
            #![trigger listeners_of(rows)[k]]
            0 <= k < listeners_of(rows).len() ==> exists|j: int|
                0 <= j < rows.len() && carries_row(listeners_of(rows)[k], #[trigger] rows[j]),
        forall|j: int|
            0 <= j < rows.len() && #[trigger] rows[j].socket.kind is Tcp && rows[j].socket.kind->listening
                && rows[j].socket.pids.len() > 0 ==> exists|k: int|
                0 <= k < listeners_of(rows).len() && carries_row(#[trigger] listeners_of(rows)[k], rows[j]),
    decreases rows.len(),
{
    if rows.len() > 0 {
        let pre = rows.drop_last();
        let n = rows.len() - 1;
        law_listeners_read_from_rows(pre);
        assert forall|j: int| 0 <= j < n implies #[trigger] pre[j] == rows[j] by {}
        let before = listeners_of(pre);
        let now = listeners_of(rows);
        assert(rows.last() == rows[n]);
        if row_listener(rows[n]) is Some {
            assert(carries_row(row_listener(rows[n])->Some_0, rows[n]));
        }
        assert forall|k: int| #![trigger now[k]] 0 <= k < now.len() implies exists|j: int|
            0 <= j < rows.len() && carries_row(now[k], #[trigger] rows[j]) by {
            if k < before.len() {
                assert(now[k] == before[k]);
                let j = choose|j: int| 0 <= j < pre.len() && carries_row(before[k], #[trigger] pre[j]);
                assert(pre[j] == rows[j]);
            } else {
                assert(now[k] == row_listener(rows[n])->Some_0);
                assert(carries_row(now[k], rows[n]));
            }
        }
        assert forall|j: int|
            0 <= j < rows.len() && #[trigger] rows[j].socket.kind is Tcp && rows[j].socket.kind->listening
                && rows[j].socket.pids.len() > 0 implies exists|k: int|
                0 <= k < now.len() && carries_row(#[trigger] now[k], rows[j]) by {
            if j < n {
                assert(pre[j] == rows[j]);
                assert(pre[j].socket.kind is Tcp);
                let k = choose|k: int| 0 <= k < before.len() && carries_row(#[trigger] before[k], pre[j]);
                assert(now[k] == before[k]);
            } else {
                let k = before.len() as int;
                assert(now[k] == row_listener(rows[n])->Some_0);
                assert(carries_row(now[k], rows[n]));
            }
        }
    }
}

/// The listeners of a socket table, one per listening row, in order.
pub fn scan_listeners(rows: &Vec<ScanRow>) -> (listeners: Vec<RawListener>)
    ensures
        listeners@.map_values(|l: RawListener| l@) == listeners_of(rows_view(rows@)),
{
    let mut out: Vec<RawListener> = Vec::new();
    let mut i: usize = 0;
    while i < rows.len()
        invariant
            i <= rows@.len(),
            out@.map_values(|l: RawListener| l@) == listeners_of(rows_view(rows@.take(i as int))),
        decreases rows@.len() - i,
    {
        let row = &rows[i];
        let ghost before = out@;
        proof {
            let pre = rows@.take(i as int);
            assert(rows_view(rows@.take(i + 1)).drop_last() =~= rows_view(pre));
            assert(rows_view(rows@.take(i + 1)).last() == row@);
        }
        match listening_socket(&row.socket) {
            Some(sock) => {
                let process = match &row.process {
                    Some(p) => Some(p.duplicate()),
                    None => None,
                };
                let l = raw_listener(sock, process);
                out.push(l);
                assert(out@.map_values(|l: RawListener| l@) =~= before.map_values(
                    |l: RawListener| l@,
                ).push(l@));
            },
            None => {},
        }
        i = i + 1;
    }
    assert(rows@.take(rows@.len() as int) =~= rows@);
    out
}

/// The raw scan of a socket table, as seen by `current_user` in process
/// `current_pid`.
pub fn raw_scan(rows: &Vec<ScanRow>, current_user: String, current_pid: u32) -> (scan: RawScan)
    ensures
        scan@ == (RawScanView {
            listeners: listeners_of(rows_view(rows@)),
            current_user: current_user@,
            current_pid,
        }),
{
    let listeners = scan_listeners(rows);
    RawScan { listeners, current_user, current_pid }
}

} // verus!
