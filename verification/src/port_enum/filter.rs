use crate::port_enum::assemble::strictly_ascending;
use crate::port_enum::types::{entries_view, PortEntry, PortEntryView};
use vstd::prelude::*;

verus! {

/// Ports below this number are system ports, hidden unless asked for.
pub const FIRST_NON_SYSTEM_PORT: u16 = 1024;

/// Which listening ports the user wants to see.
#[derive(Debug, Clone, Copy)]
pub struct FilterOpts {
    pub port_range_min: u16,
    pub port_range_max: u16,
    pub show_system_ports: bool,
    pub show_all_users: bool,
}

/// An entry is shown when its port lies in the chosen range, it is not a
/// system port (unless system ports are shown), and it belongs to the current
/// user (unless all users are shown).
pub open spec fn is_visible(e: PortEntryView, opts: FilterOpts) -> bool {
    &&& opts.port_range_min <= e.port <= opts.port_range_max
    &&& (opts.show_system_ports || e.port >= FIRST_NON_SYSTEM_PORT)
    &&& (opts.show_all_users || e.is_current_user)
}

pub open spec fn visible_pred(opts: FilterOpts) -> spec_fn(PortEntryView) -> bool {
    |e: PortEntryView| is_visible(e, opts)
}

/// The visible entries, in their original order.
pub open spec fn filtered(entries: Seq<PortEntryView>, opts: FilterOpts) -> Seq<PortEntryView> {
    entries.filter(visible_pred(opts))
}

/// Keeps the entries that `opts` lets through, in order.
pub fn apply(entries: &[PortEntry], opts: FilterOpts) -> (out: Vec<PortEntry>)
    ensures
        entries_view(out@) == filtered(entries_view(entries@), opts),
{
    let mut out: Vec<PortEntry> = Vec::new();
    let mut i: usize = 0;
    while i < entries.len()
        invariant
            i <= entries@.len(),
            entries_view(out@) == filtered(entries_view(entries@.take(i as int)), opts),
        decreases entries@.len() - i,
    {
        let e = &entries[i];
        let keep = e.port >= opts.port_range_min && e.port <= opts.port_range_max
            && (opts.show_system_ports || e.port >= FIRST_NON_SYSTEM_PORT)
            && (opts.show_all_users || e.is_current_user);
        proof {
            let prefix = entries@.take(i as int);
            assert(entries@.take(i + 1) =~= prefix.push(entries@[i as int]));
            assert(entries_view(prefix.push(entries@[i as int])) =~= entries_view(prefix).push(
                entries@[i as int]@,
            ));
            entries_view(prefix).lemma_filter_push(entries@[i as int]@, visible_pred(opts));
        }
        if keep {
            let ghost before = out@;
            let copy = e.duplicate();
            out.push(copy);
            assert(entries_view(out@) =~= entries_view(before).push(copy@));
        }
        i = i + 1;
    }
    assert(entries@.take(entries@.len() as int) =~= entries@);
    out
}

// ---------------------------------------------------------------------------
// Laws
// ---------------------------------------------------------------------------

/// Filtering twice with the same options gives what filtering once gives.
pub proof fn law_filter_idempotent(entries: Seq<PortEntryView>, opts: FilterOpts)
    ensures
        filtered(filtered(entries, opts), opts) == filtered(entries, opts),
    decreases entries.len(),
{
    if entries.len() > 0 {
        let prefix = entries.drop_last();
        let last = entries.last();
        law_filter_idempotent(prefix, opts);
        assert(entries =~= prefix.push(last));
        prefix.lemma_filter_push(last, visible_pred(opts));
        if is_visible(last, opts) {
            filtered(prefix, opts).lemma_filter_push(last, visible_pred(opts));
        }
    } else {
        reveal(Seq::filter);
    }
}

/// An entry is shown exactly when it is in the input and the options let it
/// through.
pub proof fn law_filter_shows_exactly_visible(entries: Seq<PortEntryView>, opts: FilterOpts, e: PortEntryView)
    ensures
        filtered(entries, opts).contains(e) <==> entries.contains(e) && is_visible(e, opts),
{
    broadcast use vstd::seq_lib::group_filter_ensures;

    if filtered(entries, opts).contains(e) {
        entries.lemma_filter_contains_rev(visible_pred(opts), e);
        let k = choose|k: int| 0 <= k < filtered(entries, opts).len() && filtered(entries, opts)[k] == e;
        entries.lemma_filter_pred(visible_pred(opts), k);
    }
    if entries.contains(e) && is_visible(e, opts) {
        let k = choose|k: int| 0 <= k < entries.len() && entries[k] == e;
        entries.lemma_filter_contains(visible_pred(opts), k);
    }
}

/// The filter's rules, one by one. An entry is kept exactly when it is in
/// the input and
/// - its port lies in `port_range_min..=port_range_max`,
/// - its port is 1024 or above, unless system ports are shown, and
/// - it is the current user's, unless all users are shown.
/// In particular whether another user's entry shows depends on
/// `show_all_users` alone, and whether a system port shows on
/// `show_system_ports` alone.
pub proof fn law_filter_rules(entries: Seq<PortEntryView>, opts: FilterOpts, e: PortEntryView)
    ensures
        filtered(entries, opts).contains(e) <==> {
            &&& entries.contains(e)
            &&& opts.port_range_min <= e.port && e.port <= opts.port_range_max
            &&& (opts.show_system_ports || e.port >= 1024)
            &&& (opts.show_all_users || e.is_current_user)
        },
        !opts.show_all_users && !e.is_current_user ==> !filtered(entries, opts).contains(e),
        !opts.show_system_ports && e.port < 1024 ==> !filtered(entries, opts).contains(e),
        (e.port < opts.port_range_min || e.port > opts.port_range_max) ==> !filtered(entries, opts).contains(e),
{
    law_filter_shows_exactly_visible(entries, opts, e);
}

/// Every entry the filter keeps obeys the rules of [`law_filter_rules`], and
/// the kept entries come in input order.
pub proof fn law_filter_output_obeys_rules(entries: Seq<PortEntryView>, opts: FilterOpts, k: int)
    requires
        0 <= k < filtered(entries, opts).len(),
    ensures
        ({
            let e = filtered(entries, opts)[k];
            &&& entries.contains(e)
            &&& opts.port_range_min <= e.port && e.port <= opts.port_range_max
            &&& (opts.show_system_ports || e.port >= 1024)
            &&& (opts.show_all_users || e.is_current_user)
        }),
        filtered(entries, opts).len() <= entries.len(),
{
    let e = filtered(entries, opts)[k];
    assert(filtered(entries, opts).contains(e));
    law_filter_rules(entries, opts, e);
    entries.lemma_filter_len(visible_pred(opts));
}

/// Filtering keeps the order: a list ascending by port stays ascending.
pub proof fn law_filter_keeps_ascending(entries: Seq<PortEntryView>, opts: FilterOpts)
    requires
        strictly_ascending(entries),
    ensures
        strictly_ascending(filtered(entries, opts)),
    decreases entries.len(),
{
    if entries.len() > 0 {
        let prefix = entries.drop_last();
        let last = entries.last();
        assert(entries =~= prefix.push(last));
        assert(strictly_ascending(prefix)) by {
            assert forall|i: int, j: int| 0 <= i < j < prefix.len() implies #[trigger] prefix[i].port
                < #[trigger] prefix[j].port by {
                assert(prefix[i] == entries[i] && prefix[j] == entries[j]);
            }
        }
        law_filter_keeps_ascending(prefix, opts);
        prefix.lemma_filter_push(last, visible_pred(opts));
        if is_visible(last, opts) {
            let f = filtered(prefix, opts);
            let g = f.push(last);
            assert forall|i: int, j: int| 0 <= i < j < g.len() implies #[trigger] g[i].port
                < #[trigger] g[j].port by {
                if j == g.len() - 1 {
                    assert(g[i] == f[i]);
                    assert(f.contains(f[i]));
                    law_filter_shows_exactly_visible(prefix, opts, f[i]);
                    let m = choose|m: int| 0 <= m < prefix.len() && prefix[m] == f[i];
                    assert(entries[m].port < entries[entries.len() - 1].port);
                } else {
                    assert(g[i] == f[i] && g[j] == f[j]);
                }
            }
        }
    } else {
        reveal(Seq::filter);
    }
}

/// Options that show the whole port range, system ports and all users keep
/// every entry.
pub proof fn law_filter_show_everything(entries: Seq<PortEntryView>, opts: FilterOpts)
    requires
        opts.port_range_min == 0,
        opts.port_range_max == u16::MAX,
        opts.show_system_ports,
        opts.show_all_users,
    ensures
        filtered(entries, opts) == entries,
    decreases entries.len(),
{
    if entries.len() > 0 {
        let prefix = entries.drop_last();
        let last = entries.last();
        law_filter_show_everything(prefix, opts);
        assert(entries =~= prefix.push(last));
        prefix.lemma_filter_push(last, visible_pred(opts));
    } else {
        reveal(Seq::filter);
    }
}

} // verus!
