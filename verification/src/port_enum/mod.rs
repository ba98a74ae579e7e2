pub mod assemble;
pub mod filter;
pub mod kill;
pub mod source;
pub mod types;

pub use assemble::assemble;
pub use filter::{apply, apply as apply_filter, FilterOpts};
pub use source::{
    listening_socket, raw_listener, raw_scan, scan_listeners, ListeningSocket, ProcessInfo,
    ScanRow, SocketKind, SocketRecord,
};
pub use kill::{kill_request, KillRequest, KillSignal};
pub use types::{PortEntry, RawListener, RawScan};

use crate::port_enum::assemble::{is_assembly, law_assembly_is_unique, strictly_ascending};
use crate::port_enum::filter::{
    law_filter_rules,
    filtered, is_visible, law_filter_keeps_ascending, law_filter_shows_exactly_visible,
};
use crate::port_enum::types::{entries_view, PortEntryView, RawScanView};
use vstd::prelude::*;

verus! {

/// The listening ports as the operating system sees them (one per port,
/// ownership resolved, sorted), unfiltered. `scan` is what reading the
/// operating system gave; a failed read is passed through unchanged.
pub fn list_listening<E>(scan: Result<RawScan, E>) -> (res: Result<Vec<PortEntry>, E>)
    ensures
        match scan {
            Ok(raw) => res is Ok && is_assembly(raw@, entries_view(res->Ok_0@)),
            Err(e) => res == Err::<Vec<PortEntry>, E>(e),
        },
{
    match scan {
        Ok(raw) => Ok(assemble(raw)),
        Err(e) => Err(e),
    }
}

/// `out` is what the user sees for a scan under `opts`: the assembled list,
/// filtered.
pub open spec fn is_snapshot(scan: RawScanView, opts: FilterOpts, out: Seq<PortEntryView>) -> bool {
    exists|all: Seq<PortEntryView>| is_assembly(scan, all) && out == filtered(all, opts)
}

/// What the user sees: the assembled list of listening ports, filtered by
/// `opts`. A failed read of the operating system is passed through unchanged.
pub fn snapshot<E>(scan: Result<RawScan, E>, opts: FilterOpts) -> (res: Result<Vec<PortEntry>, E>)
    ensures
        match scan {
            Ok(raw) => res is Ok && is_snapshot(raw@, opts, entries_view(res->Ok_0@)),
            Err(e) => res == Err::<Vec<PortEntry>, E>(e),
        },
{
    match list_listening(scan) {
        Ok(all) => {
            let shown = apply(all.as_slice(), opts);
            Ok(shown)
        },
        Err(e) => Err(e),
    }
}

/// What the user sees is ascending by port, holds only entries the options
/// let through, and is the same for the same scan and options.
pub proof fn law_snapshot_well_formed(
    scan: RawScanView,
    opts: FilterOpts,
    out: Seq<PortEntryView>,
    other: Seq<PortEntryView>,
)
    requires
        is_snapshot(scan, opts, out),
    ensures
        strictly_ascending(out),
        forall|k: int| 0 <= k < out.len() ==> is_visible(#[trigger] out[k], opts),
        is_snapshot(scan, opts, other) ==> other == out,
{
    let all = choose|all: Seq<PortEntryView>| is_assembly(scan, all) && out == filtered(all, opts);
    law_filter_keeps_ascending(all, opts);
    assert forall|k: int| 0 <= k < out.len() implies is_visible(#[trigger] out[k], opts) by {
        assert(out.contains(out[k]));
        law_filter_shows_exactly_visible(all, opts, out[k]);
    }
    if is_snapshot(scan, opts, other) {
        let all2 = choose|all2: Seq<PortEntryView>| is_assembly(scan, all2) && other == filtered(all2, opts);
        law_assembly_is_unique(scan, all, all2);
    }
}

/// What the user sees is the assembled list filtered with exactly the given
/// options: an assembled entry shows exactly when its port is in the range,
/// it is not a system port (below 1024) unless system ports are shown, and it
/// is the current user's unless all users are shown. So with all users shown,
/// another user's in-range, non-system port is on screen.
pub proof fn law_snapshot_rules(
    scan: RawScanView,
    opts: FilterOpts,
    out: Seq<PortEntryView>,
    all: Seq<PortEntryView>,
    e: PortEntryView,
)
    requires
        is_snapshot(scan, opts, out),
        is_assembly(scan, all),
    ensures
        out.contains(e) <==> {
            &&& all.contains(e)
            &&& opts.port_range_min <= e.port && e.port <= opts.port_range_max
            &&& (opts.show_system_ports || e.port >= 1024)
            &&& (opts.show_all_users || e.is_current_user)
        },
{
    let a = choose|a: Seq<PortEntryView>| is_assembly(scan, a) && out == filtered(a, opts);
    law_assembly_is_unique(scan, a, all);
    law_filter_rules(all, opts, e);
}

} // verus!
