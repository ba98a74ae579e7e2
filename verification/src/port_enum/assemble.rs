use crate::port_enum::types::{
    entries_view, PortEntry, PortEntryView, RawListener, RawListenerView, RawScan, RawScanView,
};
use std::collections::HashMap;
use vstd::prelude::*;

verus! {

// ---------------------------------------------------------------------------
// Who owns a listener
// ---------------------------------------------------------------------------

/// The ASCII lower-case form of a character: `'A'..='Z'` become
/// `'a'..='z'`, every other character is left as it is.
pub open spec fn ascii_lower(c: char) -> char {
    let n = c as u32;
    if 65 <= n <= 90 {
        (n + 32) as char
    } else {
        c
    }
}

/// Two strings are equal when ASCII letters are compared without regard to case.
pub open spec fn ascii_case_insensitive_eq(a: Seq<char>, b: Seq<char>) -> bool {
    &&& a.len() == b.len()
    &&& forall|i: int| 0 <= i < a.len() ==> ascii_lower(#[trigger] a[i]) == ascii_lower(b[i])
}

/// Compares two strings the way `str::eq_ignore_ascii_case` does.
///
/// Trusted: calls `str::eq_ignore_ascii_case` of std, whose documentation
/// says it is the same as comparing `to_ascii_lowercase` of both sides, which
/// maps `'A'..='Z'` to `'a'..='z'` and leaves every other character alone.
/// The contract states exactly that, over the characters of the two strings.
#[verifier::external_body]
fn eq_ignore_ascii_case(a: &str, b: &str) -> (same: bool)
    ensures
        same == ascii_case_insensitive_eq(a@, b@),
{
    a.eq_ignore_ascii_case(b)
}

/// A listener belongs to the current user when it is the current process
/// itself, or when its user name matches the current user's name, ASCII case
/// ignored (user names on some systems are case-insensitive and may come back
/// with a stale case).
pub open spec fn belongs_to_current_user(l: RawListenerView, scan: RawScanView) -> bool {
    l.pid == scan.current_pid || ascii_case_insensitive_eq(l.user, scan.current_user)
}

/// The entry shown for a listener.
pub open spec fn entry_of(l: RawListenerView, scan: RawScanView) -> PortEntryView {
    PortEntryView {
        port: l.port,
        pid: l.pid,
        process_name: l.process_name,
        user: l.user,
        is_current_user: belongs_to_current_user(l, scan),
    }
}

// ---------------------------------------------------------------------------
// Which listener represents a port
// ---------------------------------------------------------------------------

/// Some listener holds port `p`.
pub open spec fn listens_on(ls: Seq<RawListenerView>, p: u16) -> bool {
    exists|i: int| 0 <= i < ls.len() && #[trigger] ls[i].port == p
}

/// Some IPv4 listener holds port `p`.
pub open spec fn listens_on_v4(ls: Seq<RawListenerView>, p: u16) -> bool {
    exists|i: int| 0 <= i < ls.len() && #[trigger] ls[i].port == p && ls[i].is_v4
}

/// Listener `i` is the one that represents port `p`: the first IPv4 listener
/// on `p` when there is one, otherwise the last listener on `p`.
pub open spec fn is_preferred(ls: Seq<RawListenerView>, p: u16, i: int) -> bool {
    &&& 0 <= i < ls.len()
    &&& ls[i].port == p
    &&& if listens_on_v4(ls, p) {
        &&& ls[i].is_v4
        &&& forall|j: int| 0 <= j < i && #[trigger] ls[j].port == p ==> !ls[j].is_v4
    } else {
        forall|j: int| i < j < ls.len() ==> #[trigger] ls[j].port != p
    }
}

/// The index of the listener that represents port `p`.
pub open spec fn preferred_index(ls: Seq<RawListenerView>, p: u16) -> int {
    choose|i: int| is_preferred(ls, p, i)
}

/// Some entry of `out` is for port `p`.
pub open spec fn shows_port(out: Seq<PortEntryView>, p: u16) -> bool {
    exists|k: int| 0 <= k < out.len() && #[trigger] out[k].port == p
}

/// `out` is the list that a raw scan assembles to: one entry per listening
/// port, strictly ascending by port, each built from the listener that
/// represents its port.
pub open spec fn is_assembly(scan: RawScanView, out: Seq<PortEntryView>) -> bool {
    let ls = scan.listeners;
    &&& forall|i: int, j: int| 0 <= i < j < out.len() ==> #[trigger] out[i].port < #[trigger] out[j].port
    &&& forall|p: u16| #[trigger] listens_on(ls, p) <==> shows_port(out, p)
    &&& forall|k: int| 0 <= k < out.len() ==> #[trigger] out[k] == entry_of(ls[preferred_index(ls, out[k].port)], scan)
}

/// The listener index kept per port after reading the listeners in order and
/// replacing what is kept unless it is already an IPv4 one.
spec fn kept_indices(ls: Seq<RawListenerView>) -> Map<u16, int>
    decreases ls.len(),
{
    if ls.len() == 0 {
        Map::empty()
    } else {
        let prev = kept_indices(ls.drop_last());
        let n = ls.len() - 1;
        let p = ls[n].port;
        if prev.contains_key(p) && ls[prev[p]].is_v4 {
            prev
        } else {
            prev.insert(p, n)
        }
    }
}

proof fn lemma_kept_indices(ls: Seq<RawListenerView>, p: u16)
    ensures
        kept_indices(ls).contains_key(p) <==> listens_on(ls, p),
        kept_indices(ls).contains_key(p) ==> is_preferred(ls, p, kept_indices(ls)[p]),
    decreases ls.len(),
{
    if ls.len() > 0 {
        let prefix = ls.drop_last();
        let n = ls.len() - 1;
        lemma_kept_indices(prefix, p);
        let prev = kept_indices(prefix);
        assert forall|i: int| 0 <= i < n implies #[trigger] prefix[i] == ls[i] by {}
        // Facts about `p` in `ls` carry over to `prefix` when the last
        // listener is on another port, and back.
        if listens_on(ls, p) && ls[n].port != p {
            let i = choose|i: int| 0 <= i < ls.len() && #[trigger] ls[i].port == p;
            assert(prefix[i].port == p);
        }
        if listens_on_v4(ls, p) && ls[n].port != p {
            let i = choose|i: int| 0 <= i < ls.len() && #[trigger] ls[i].port == p && ls[i].is_v4;
            assert(prefix[i].port == p);
        }
        if listens_on_v4(prefix, p) {
            let i = choose|i: int|
                0 <= i < prefix.len() && #[trigger] prefix[i].port == p && prefix[i].is_v4;
            assert(ls[i].port == p);
        }
        if listens_on(prefix, p) {
            let i = choose|i: int| 0 <= i < prefix.len() && #[trigger] prefix[i].port == p;
            assert(ls[i].port == p);
        }
        if ls[n].port != p {
            assert(kept_indices(ls).contains_key(p) == prev.contains_key(p));
            if prev.contains_key(p) {
                assert(kept_indices(ls)[p] == prev[p]);
                let w = prev[p];
                assert(is_preferred(prefix, p, w));
                if !listens_on_v4(prefix, p) {
                    assert forall|j: int| w < j < ls.len() implies #[trigger] ls[j].port != p by {
                        if j < n {
                            assert(prefix[j] == ls[j]);
                        }
                    }
                } else {
                    assert forall|j: int| 0 <= j < w && #[trigger] ls[j].port == p implies !ls[j].is_v4 by {
                        assert(prefix[j] == ls[j]);
                    }
                }
                assert(is_preferred(ls, p, w));
            }
        } else {
            if prev.contains_key(p) && ls[prev[p]].is_v4 {
                let w = prev[p];
                assert(kept_indices(ls) == prev);
                assert(prefix[w].is_v4);
                assert(listens_on_v4(prefix, p));
                assert forall|j: int| 0 <= j < w && #[trigger] ls[j].port == p implies !ls[j].is_v4 by {
                    assert(prefix[j] == ls[j]);
                }
                assert(is_preferred(ls, p, w));
            } else {
                assert(kept_indices(ls) == prev.insert(p, n));
                if !prev.contains_key(p) {
                    assert(!listens_on(prefix, p));
                    assert forall|j: int| 0 <= j < n implies #[trigger] ls[j].port != p by {
                        assert(prefix[j] == ls[j]);
                    }
                } else {
                    let w = prev[p];
                    assert(!prefix[w].is_v4);
                    assert(!listens_on_v4(prefix, p));
                    assert forall|j: int| 0 <= j < n && #[trigger] ls[j].port == p implies !ls[j].is_v4 by {
                        assert(prefix[j] == ls[j]);
                        if ls[j].is_v4 {
                            assert(prefix[j].port == p && prefix[j].is_v4);
                        }
                    }
                }
                if ls[n].is_v4 {
                    assert(listens_on_v4(ls, p));
                } else {
                    assert(!listens_on_v4(ls, p));
                }
                assert(is_preferred(ls, p, n));
            }
        }
    }
}

/// At most one listener represents a port.
proof fn lemma_preferred_unique(ls: Seq<RawListenerView>, p: u16, i: int, j: int)
    requires
        is_preferred(ls, p, i),
        is_preferred(ls, p, j),
    ensures
        i == j,
{
    if listens_on_v4(ls, p) {
        if i < j {
            assert(ls[i].port == p);
        } else if j < i {
            assert(ls[j].port == p);
        }
    } else {
        if i < j {
            assert(ls[j].port == p);
        } else if j < i {
            assert(ls[i].port == p);
        }
    }
}

proof fn lemma_preferred_is_kept(ls: Seq<RawListenerView>, p: u16)
    requires
        listens_on(ls, p),
    ensures
        kept_indices(ls).contains_key(p),
        preferred_index(ls, p) == kept_indices(ls)[p],
        is_preferred(ls, p, preferred_index(ls, p)),
{
    lemma_kept_indices(ls, p);
    let w = kept_indices(ls)[p];
    assert(is_preferred(ls, p, w));
    lemma_preferred_unique(ls, p, w, preferred_index(ls, p));
}

// ---------------------------------------------------------------------------
// The transform
// ---------------------------------------------------------------------------

/// Pure transform from raw operating-system facts to the listening-port view:
/// resolves which listeners belong to the current user, keeps one entry per
/// port (preferring the IPv4 binding over the IPv6 one, whichever came
/// first), and sorts the result by port.
pub fn assemble(raw: RawScan) -> (out: Vec<PortEntry>)
    ensures
        is_assembly(raw@, entries_view(out@)),
{
    let ghost scan = raw@;
    let ghost ls = scan.listeners;
    let RawScan { listeners, current_user, current_pid } = raw;

    // One kept entry per port, with whether it came from an IPv4 socket.
    let mut by_port: HashMap<u16, (PortEntry, bool)> = HashMap::new();
    let mut i: usize = 0;
    while i < listeners.len()
        invariant
            i <= listeners@.len(),
            ls == listeners@.map_values(|l: RawListener| l@),
            scan.current_user == current_user@,
            scan.current_pid == current_pid,
            forall|p: u16| #[trigger] by_port@.contains_key(p) <==> kept_indices(ls.take(i as int)).contains_key(p),
            forall|p: u16| #[trigger] by_port@.contains_key(p) ==> {
                let w = kept_indices(ls.take(i as int))[p];
                &&& 0 <= w < i
                &&& by_port@[p].0@ == entry_of(ls[w], scan)
                &&& by_port@[p].1 == ls[w].is_v4
                &&& by_port@[p].0.port == p
            },
        decreases listeners@.len() - i,
    {
        let l = &listeners[i];
        let is_current_user = l.pid == current_pid
            || eq_ignore_ascii_case(l.user.as_str(), current_user.as_str());
        let entry = PortEntry {
            port: l.port,
            pid: l.pid,
            process_name: l.process_name.clone(),
            user: l.user.clone(),
            is_current_user,
        };
        let keep_existing = match by_port.get(&l.port) {
            Some(kept) => kept.1,
            None => false,
        };
        proof {
            let pre = ls.take(i as int);
            let cur = ls.take(i + 1);
            assert(cur.drop_last() =~= pre);
            assert(cur[i as int] == ls[i as int]);
            assert(ls[i as int] == l@);
            assert forall|p: u16| #[trigger] kept_indices(pre).contains_key(p) implies kept_indices(pre)[p] < i by {
                lemma_kept_indices(pre, p);
            }
            assert forall|j: int| 0 <= j < i implies #[trigger] cur[j] == pre[j] && pre[j] == ls[j] by {}
        }
        if !keep_existing {
            by_port.insert(l.port, (entry, l.is_v4));
        }
        i = i + 1;
    }
    proof {
        assert(ls.take(listeners@.len() as int) =~= ls);
    }
    let ghost kept = kept_indices(ls);

    // Emit the kept entries in ascending port order.
    let mut out: Vec<PortEntry> = Vec::new();
    for p in it: by_port.keys()
        invariant
            forall|q: u16| #[trigger] by_port@.contains_key(q) <==> kept.contains_key(q),
            forall|q: u16| #[trigger] by_port@.contains_key(q) ==> by_port@[q].0@ == entry_of(ls[kept[q]], scan)
                && by_port@[q].0.port == q && 0 <= kept[q] < ls.len(),
            it.seq().no_duplicates(),
            it.seq().unref().to_set() == by_port@.dom(),
            forall|a: int, b: int| 0 <= a < b < out@.len() ==> #[trigger] out@[a].port < #[trigger] out@[b].port,
            forall|k: int| 0 <= k < out@.len() ==> by_port@.contains_key(#[trigger] out@[k].port)
                && out@[k]@ == by_port@[out@[k].port].0@,
            forall|k: int, j: int| 0 <= k < out@.len() && it.index() <= j < it.seq().len()
                ==> *#[trigger] it.seq()[j] != #[trigger] out@[k].port,
            forall|q: u16| #[trigger] by_port@.contains_key(q) ==>
                (exists|k: int| 0 <= k < out@.len() && out@[k].port == q)
                || (exists|j: int| it.index() <= j < it.seq().len() && *it.seq()[j] == q),
    {
        let port = *p;
        let ghost idx = it.index();
        let ghost before = out@;
        proof {
            assert(it.seq().unref()[idx] == port);
            assert(it.seq().unref().to_set().contains(port));
        }
        let kept = by_port.get(&port);
        assert(kept.is_some());
        let entry = kept.unwrap().0.duplicate();
        // The ports already emitted come from earlier keys, so none is `port`.
        assert forall|k: int| 0 <= k < before.len() implies #[trigger] before[k].port != port by {
            assert(*it.seq()[idx] != before[k].port);
        }
        let mut pos: usize = 0;
        while pos < out.len() && out[pos].port < port
            invariant
                out@ == before,
                pos <= out@.len(),
                forall|k: int| 0 <= k < pos ==> #[trigger] out@[k].port < port,
            decreases out@.len() - pos,
        {
            pos = pos + 1;
        }
        out.insert(pos, entry);
        proof {
            before.insert_ensures(pos as int, entry);
            assert(out@ == before.insert(pos as int, entry));
            assert forall|k: int, j: int| 0 <= k < out@.len() && idx + 1 <= j < it.seq().len()
                implies *#[trigger] it.seq()[j] != #[trigger] out@[k].port by {
                if k < pos {
                    assert(out@[k] == before[k]);
                } else if k == pos {
                    assert(it.seq()[j] != it.seq()[idx]);
                } else {
                    assert(out@[k] == before[k - 1]);
                }
            }
            assert forall|q: u16| #[trigger] by_port@.contains_key(q) implies
                (exists|k: int| 0 <= k < out@.len() && out@[k].port == q)
                || (exists|j: int| idx + 1 <= j < it.seq().len() && *it.seq()[j] == q) by {
                if q == port {
                    assert(out@[pos as int].port == port);
                } else if exists|k: int| 0 <= k < before.len() && before[k].port == q {
                    let k = choose|k: int| 0 <= k < before.len() && before[k].port == q;
                    if k < pos {
                        assert(out@[k] == before[k]);
                    } else {
                        assert(out@[k + 1] == before[k]);
                    }
                } else {
                    let j = choose|j: int| idx <= j < it.seq().len() && *it.seq()[j] == q;
                    assert(j != idx);
                }
            }
        }
    }

    proof {
        let ov = entries_view(out@);
        assert forall|k: int| 0 <= k < out@.len() implies #[trigger] ov[k] == out@[k]@ by {}
        assert forall|q: u16| #[trigger] listens_on(ls, q) <==> shows_port(ov, q) by {
            lemma_kept_indices(ls, q);
            if listens_on(ls, q) {
                assert(by_port@.contains_key(q));
                let k = choose|k: int| 0 <= k < out@.len() && out@[k].port == q;
                assert(ov[k].port == q);
            }
            if exists|k: int| 0 <= k < ov.len() && #[trigger] ov[k].port == q {
                let k = choose|k: int| 0 <= k < ov.len() && #[trigger] ov[k].port == q;
                assert(by_port@.contains_key(out@[k].port));
            }
        }
        assert forall|k: int| 0 <= k < ov.len() implies #[trigger] ov[k] == entry_of(ls[preferred_index(ls, ov[k].port)], scan) by {
            let q = out@[k].port;
            assert(by_port@.contains_key(q));
            lemma_kept_indices(ls, q);
            lemma_preferred_is_kept(ls, q);
        }
    }
    out
}

// ---------------------------------------------------------------------------
// Laws
// ---------------------------------------------------------------------------

pub open spec fn strictly_ascending(out: Seq<PortEntryView>) -> bool {
    forall|i: int, j: int| 0 <= i < j < out.len() ==> #[trigger] out[i].port < #[trigger] out[j].port
}

pub open spec fn same_ports(a: Seq<PortEntryView>, b: Seq<PortEntryView>) -> bool {
    forall|p: u16| #[trigger] shows_port(a, p) <==> shows_port(b, p)
}

proof fn lemma_sorted_ports_agree(a: Seq<PortEntryView>, b: Seq<PortEntryView>, k: int)
    requires
        strictly_ascending(a),
        strictly_ascending(b),
        same_ports(a, b),
        0 <= k <= a.len(),
        k <= b.len(),
    ensures
        forall|i: int| 0 <= i < k ==> #[trigger] a[i].port == b[i].port,
    decreases k,
{
    if k > 0 {
        let i = k - 1;
        lemma_sorted_ports_agree(a, b, i);
        let pa = a[i].port;
        let pb = b[i].port;
        assert(shows_port(a, pa));
        assert(shows_port(b, pa));
        assert(shows_port(b, pb));
        assert(shows_port(a, pb));
        let m = choose|m: int| 0 <= m < b.len() && #[trigger] b[m].port == pa;
        let n = choose|n: int| 0 <= n < a.len() && #[trigger] a[n].port == pb;
        if m < i {
            assert(a[m].port == b[m].port);
            assert(a[m].port < a[i].port);
        }
        if n < i {
            assert(a[n].port == b[n].port);
            assert(b[n].port < b[i].port);
        }
        if m > i {
            assert(b[i].port < b[m].port);
            if n > i {
                assert(a[i].port < a[n].port);
            }
        }
    }
}

proof fn lemma_sorted_same_ports_same_len(a: Seq<PortEntryView>, b: Seq<PortEntryView>)
    requires
        strictly_ascending(a),
        strictly_ascending(b),
        same_ports(a, b),
        a.len() <= b.len(),
    ensures
        a.len() == b.len(),
{
    if a.len() < b.len() {
        lemma_sorted_ports_agree(a, b, a.len() as int);
        let q = b[a.len() as int].port;
        assert(shows_port(b, q));
        assert(shows_port(a, q));
        let m = choose|m: int| 0 <= m < a.len() && #[trigger] a[m].port == q;
        assert(b[m].port == a[m].port);
        assert(b[m].port < b[a.len() as int].port);
    }
}

/// A raw scan assembles to exactly one list: two lists that both satisfy
/// [`is_assembly`] for the same scan are equal.
pub proof fn law_assembly_is_unique(scan: RawScanView, a: Seq<PortEntryView>, b: Seq<PortEntryView>)
    requires
        is_assembly(scan, a),
        is_assembly(scan, b),
    ensures
        a == b,
{
    assert(same_ports(a, b)) by {
        assert forall|p: u16| #[trigger] shows_port(a, p) <==> shows_port(b, p) by {
            assert(listens_on(scan.listeners, p) <==> shows_port(a, p));
            assert(listens_on(scan.listeners, p) <==> shows_port(b, p));
        }
    }
    if a.len() <= b.len() {
        lemma_sorted_same_ports_same_len(a, b);
    } else {
        assert(same_ports(b, a));
        lemma_sorted_same_ports_same_len(b, a);
    }
    lemma_sorted_ports_agree(a, b, a.len() as int);
    assert forall|k: int| 0 <= k < a.len() implies #[trigger] a[k] == b[k] by {
        assert(a[k].port == b[k].port);
    }
    assert(a =~= b);
}

/// When some IPv4 socket listens on a port, the entry shown for that port
/// comes from an IPv4 socket (the first one), whatever the order in which the
/// operating system reported the IPv4 and IPv6 sockets.
pub proof fn law_ipv4_preferred(scan: RawScanView, out: Seq<PortEntryView>, p: u16)
    requires
        is_assembly(scan, out),
        listens_on_v4(scan.listeners, p),
    ensures
        exists|k: int, i: int|
            0 <= k < out.len() && 0 <= i < scan.listeners.len()
            && #[trigger] out[k].port == p
            && scan.listeners[i].is_v4
            && out[k] == entry_of(#[trigger] scan.listeners[i], scan)
            && forall|j: int| 0 <= j < i && #[trigger] scan.listeners[j].port == p ==> !scan.listeners[j].is_v4,
{
    let ls = scan.listeners;
    let i0 = choose|i: int| 0 <= i < ls.len() && #[trigger] ls[i].port == p && ls[i].is_v4;
    assert(listens_on(ls, p)) by {
        assert(ls[i0].port == p);
    }
    let k = choose|k: int| 0 <= k < out.len() && #[trigger] out[k].port == p;
    lemma_preferred_is_kept(ls, p);
    let i = preferred_index(ls, p);
    assert(out[k] == entry_of(ls[i], scan));
}

/// Each port that something listens on has exactly one representative
/// listener.
pub proof fn law_one_representative_per_port(ls: Seq<RawListenerView>, p: u16, i: int)
    requires
        listens_on(ls, p),
    ensures
        is_preferred(ls, p, preferred_index(ls, p)),
        is_preferred(ls, p, i) ==> i == preferred_index(ls, p),
{
    lemma_preferred_is_kept(ls, p);
    if is_preferred(ls, p, i) {
        lemma_preferred_unique(ls, p, i, preferred_index(ls, p));
    }
}

/// No port is ambiguous: two different listeners on the same port are never
/// both IPv4, and share the port only where an IPv4 listener holds it. Then
/// every port has one candidate for its representative, whatever the order.
pub open spec fn is_unambiguous(ls: Seq<RawListenerView>) -> bool {
    forall|x: RawListenerView, y: RawListenerView|
        #[trigger] ls.contains(x) && #[trigger] ls.contains(y) && x.port == y.port && x != y
            ==> !(x.is_v4 && y.is_v4) && listens_on_v4(ls, x.port)
}

proof fn lemma_same_elements(a: Seq<RawListenerView>, b: Seq<RawListenerView>)
    requires
        a.to_multiset() == b.to_multiset(),
    ensures
        forall|x: RawListenerView| #[trigger] a.contains(x) <==> b.contains(x),
        forall|p: u16| #[trigger] listens_on(a, p) <==> listens_on(b, p),
        forall|p: u16| #[trigger] listens_on_v4(a, p) <==> listens_on_v4(b, p),
{
    a.to_multiset_ensures();
    b.to_multiset_ensures();
    assert forall|x: RawListenerView| #[trigger] a.contains(x) <==> b.contains(x) by {
        assert(a.to_multiset().count(x) == b.to_multiset().count(x));
        assert(a.contains(x) <==> a.to_multiset().count(x) > 0);
        assert(b.contains(x) <==> b.to_multiset().count(x) > 0);
    }
    assert forall|p: u16| #[trigger] listens_on(a, p) implies listens_on(b, p) by {
        let i = choose|i: int| 0 <= i < a.len() && #[trigger] a[i].port == p;
        assert(a.contains(a[i]));
        let j = choose|j: int| 0 <= j < b.len() && b[j] == a[i];
        assert(b[j].port == p);
    }
    assert forall|p: u16| #[trigger] listens_on(b, p) implies listens_on(a, p) by {
        let i = choose|i: int| 0 <= i < b.len() && #[trigger] b[i].port == p;
        assert(b.contains(b[i]));
        assert(a.contains(b[i]));
        let j = choose|j: int| 0 <= j < a.len() && a[j] == b[i];
        assert(a[j].port == p);
    }
    assert forall|p: u16| #[trigger] listens_on_v4(a, p) implies listens_on_v4(b, p) by {
        let i = choose|i: int| 0 <= i < a.len() && #[trigger] a[i].port == p && a[i].is_v4;
        assert(a.contains(a[i]));
        let j = choose|j: int| 0 <= j < b.len() && b[j] == a[i];
        assert(b[j].port == p && b[j].is_v4);
    }
    assert forall|p: u16| #[trigger] listens_on_v4(b, p) implies listens_on_v4(a, p) by {
        let i = choose|i: int| 0 <= i < b.len() && #[trigger] b[i].port == p && b[i].is_v4;
        assert(b.contains(b[i]));
        assert(a.contains(b[i]));
        let j = choose|j: int| 0 <= j < a.len() && a[j] == b[i];
        assert(a[j].port == p && a[j].is_v4);
    }
}

/// The assembled list does not depend on the order in which the operating
/// system reports the listeners, as long as no port is ambiguous (see
/// [`is_unambiguous`]): two scans of the same listeners, in any order, by the
/// same user and process, assemble to the same list.
pub proof fn law_order_independent(
    scan1: RawScanView,
    scan2: RawScanView,
    a: Seq<PortEntryView>,
    b: Seq<PortEntryView>,
)
    requires
        is_assembly(scan1, a),
        is_assembly(scan2, b),
        scan1.listeners.to_multiset() == scan2.listeners.to_multiset(),
        scan1.current_user == scan2.current_user,
        scan1.current_pid == scan2.current_pid,
        is_unambiguous(scan1.listeners),
    ensures
        a == b,
{
    let ls1 = scan1.listeners;
    let ls2 = scan2.listeners;
    lemma_same_elements(ls1, ls2);
    // The representative of each port is the same listener in both orders.
    assert forall|p: u16| listens_on(ls1, p) implies ls1[preferred_index(ls1, p)]
        == #[trigger] ls2[preferred_index(ls2, p)] by {
        lemma_preferred_is_kept(ls1, p);
        lemma_preferred_is_kept(ls2, p);
        let r1 = ls1[preferred_index(ls1, p)];
        let r2 = ls2[preferred_index(ls2, p)];
        assert(ls1.contains(r1));
        assert(ls2.contains(r2));
        assert(ls1.contains(r2));
        if r1 != r2 {
            if listens_on_v4(ls1, p) {
                assert(r1.is_v4 && r2.is_v4);
            } else {
                assert(listens_on_v4(ls1, r1.port));
            }
        }
    }
    assert(same_ports(a, b)) by {
        assert forall|p: u16| #[trigger] shows_port(a, p) <==> shows_port(b, p) by {
            assert(listens_on(ls1, p) <==> shows_port(a, p));
            assert(listens_on(ls2, p) <==> shows_port(b, p));
        }
    }
    if a.len() <= b.len() {
        lemma_sorted_same_ports_same_len(a, b);
    } else {
        assert(same_ports(b, a));
        lemma_sorted_same_ports_same_len(b, a);
    }
    lemma_sorted_ports_agree(a, b, a.len() as int);
    assert forall|k: int| 0 <= k < a.len() implies #[trigger] a[k] == b[k] by {
        let p = a[k].port;
        assert(b[k].port == p);
        assert(shows_port(a, p));
        assert(listens_on(ls1, p));
        assert(ls1[preferred_index(ls1, p)] == ls2[preferred_index(ls2, p)]);
    }
    assert(a =~= b);
}

/// Where each shown entry comes from. The list is strictly ascending by
/// port, and every entry copies one listener on its port: that listener's
/// pid, process name and user. The entry is marked as the current user's
/// exactly when that listener is the current process or its user name equals
/// the current user's name with ASCII letters compared case-blind. The
/// listener is an IPv4 one, the first IPv4 one on that port, whenever some
/// IPv4 listener holds the port; otherwise it is the last listener on that
/// port.
pub proof fn law_entry_source(scan: RawScanView, out: Seq<PortEntryView>, k: int)
    requires
        is_assembly(scan, out),
        0 <= k < out.len(),
    ensures
        forall|j: int| 0 <= j < k ==> #[trigger] out[j].port < out[k].port,
        exists|i: int| #![trigger scan.listeners[i]] {
            let ls = scan.listeners;
            let l = ls[i];
            let e = out[k];
            &&& 0 <= i < ls.len()
            &&& e.port == l.port
            &&& e.pid == l.pid
            &&& e.process_name == l.process_name
            &&& e.user == l.user
            &&& e.is_current_user == (l.pid == scan.current_pid || ascii_case_insensitive_eq(
                l.user,
                scan.current_user,
            ))
            &&& (exists|j: int| 0 <= j < ls.len() && ls[j].port == e.port && ls[j].is_v4) ==> {
                &&& l.is_v4
                &&& forall|j: int| 0 <= j < i && ls[j].port == e.port ==> !ls[j].is_v4
            }
            &&& !(exists|j: int| 0 <= j < ls.len() && ls[j].port == e.port && ls[j].is_v4)
                ==> forall|j: int| i < j < ls.len() ==> ls[j].port != e.port
        },
{
    let ls = scan.listeners;
    let p = out[k].port;
    assert(shows_port(out, p));
    assert(listens_on(ls, p));
    lemma_preferred_is_kept(ls, p);
    let i = preferred_index(ls, p);
    assert(out[k] == entry_of(ls[i], scan));
    if exists|j: int| 0 <= j < ls.len() && ls[j].port == p && ls[j].is_v4 {
        let j = choose|j: int| 0 <= j < ls.len() && ls[j].port == p && ls[j].is_v4;
        assert(listens_on_v4(ls, p)) by {
            assert(ls[j].port == p);
        }
    } else {
        assert(!listens_on_v4(ls, p));
    }
}

/// Case-blind comparison of ASCII letters: two names match exactly when they
/// have the same length and, position by position, the characters are equal
/// or are the upper- and lower-case forms of the same ASCII letter. Every
/// other character, non-ASCII letters included, must be equal.
pub proof fn law_ascii_case_insensitive(a: Seq<char>, b: Seq<char>)
    ensures
        ascii_case_insensitive_eq(a, b) <==> {
            &&& a.len() == b.len()
            &&& forall|i: int|
                0 <= i < a.len() ==> {
                    ||| #[trigger] a[i] == b[i]
                    ||| ('A' <= a[i] <= 'Z' && b[i] as u32 == a[i] as u32 + 32)
                    ||| ('A' <= b[i] <= 'Z' && a[i] as u32 == b[i] as u32 + 32)
                }
        },
{
    assert forall|x: char, y: char| #[trigger] ascii_lower(x) == #[trigger] ascii_lower(y) <==> {
        ||| x == y
        ||| ('A' <= x <= 'Z' && y as u32 == x as u32 + 32)
        ||| ('A' <= y <= 'Z' && x as u32 == y as u32 + 32)
    } by {
        lemma_ascii_lower_pair(x, y);
    }
    if a.len() == b.len() {
        assert forall|i: int| 0 <= i < a.len() implies (ascii_lower(#[trigger] a[i]) == ascii_lower(b[i]) <==> {
            ||| a[i] == b[i]
            ||| ('A' <= a[i] <= 'Z' && b[i] as u32 == a[i] as u32 + 32)
            ||| ('A' <= b[i] <= 'Z' && a[i] as u32 == b[i] as u32 + 32)
        }) by {
            lemma_ascii_lower_pair(a[i], b[i]);
        }
    }
}

proof fn lemma_ascii_lower_pair(x: char, y: char)
    ensures
        ascii_lower(x) == ascii_lower(y) <==> {
            ||| x == y
            ||| ('A' <= x <= 'Z' && y as u32 == x as u32 + 32)
            ||| ('A' <= y <= 'Z' && x as u32 == y as u32 + 32)
        },
{
    let nx = x as u32;
    let ny = y as u32;
    assert(((nx + 32) as char) as u32 == nx + 32 || !(65 <= nx <= 90));
    assert(((ny + 32) as char) as u32 == ny + 32 || !(65 <= ny <= 90));
}

/// Every listening port is shown once, and no entry appears for a port that
/// nothing listens on.
pub proof fn law_one_entry_per_port(scan: RawScanView, out: Seq<PortEntryView>, p: u16)
    requires
        is_assembly(scan, out),
    ensures
        listens_on(scan.listeners, p) <==> shows_port(out, p),
        forall|k1: int, k2: int|
            0 <= k1 < out.len() && 0 <= k2 < out.len() && #[trigger] out[k1].port == p
            && #[trigger] out[k2].port == p ==> k1 == k2,
{
    assert forall|k1: int, k2: int|
        0 <= k1 < out.len() && 0 <= k2 < out.len() && #[trigger] out[k1].port == p
        && #[trigger] out[k2].port == p implies k1 == k2 by {
        if k1 < k2 {
            assert(out[k1].port < out[k2].port);
        } else if k2 < k1 {
            assert(out[k2].port < out[k1].port);
        }
    }
}

} // verus!
