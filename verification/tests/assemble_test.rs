use port_monitor::port_enum::{assemble, list_listening, PortEntry, RawListener, RawScan};

fn listener(port: u16, pid: u32, is_v4: bool, user: &str) -> RawListener {
    RawListener {
        port,
        pid,
        is_v4,
        process_name: "proc".into(),
        user: user.into(),
    }
}

fn scan(listeners: Vec<RawListener>) -> RawScan {
    RawScan {
        listeners,
        current_user: "alice".into(),
        current_pid: 1000,
    }
}

#[test]
fn dedup_prefers_ipv4_regardless_of_order() {
    // v6 first, then v4
    let a = assemble(scan(vec![
        listener(8080, 1, false, "alice"),
        listener(8080, 2, true, "alice"),
    ]));
    assert_eq!(a.len(), 1);
    assert_eq!(a[0].pid, 2);

    // v4 first, then v6
    let b = assemble(scan(vec![
        listener(8080, 2, true, "alice"),
        listener(8080, 1, false, "alice"),
    ]));
    assert_eq!(b.len(), 1);
    assert_eq!(b[0].pid, 2);
}

#[test]
fn current_user_match_is_case_insensitive() {
    let out = assemble(scan(vec![listener(3000, 5, true, "ALICE")]));
    assert!(out[0].is_current_user);
}

#[test]
fn current_pid_overrides_user_mismatch() {
    // user differs, but pid == current_pid → still "mine"
    let out = assemble(scan(vec![listener(3000, 1000, true, "root")]));
    assert!(out[0].is_current_user);
}

#[test]
fn foreign_user_is_not_current() {
    let out = assemble(scan(vec![listener(3000, 7, true, "root")]));
    assert!(!out[0].is_current_user);
}

#[test]
fn sorted_by_port() {
    let out = assemble(scan(vec![
        listener(9000, 1, true, "alice"),
        listener(3000, 2, true, "alice"),
        listener(5000, 3, true, "alice"),
    ]));
    let ports: Vec<u16> = out.iter().map(|e| e.port).collect();
    assert_eq!(ports, vec![3000, 5000, 9000]);
}

#[test]
fn first_ipv4_wins_among_several() {
    let out = assemble(scan(vec![
        listener(8080, 1, false, "alice"),
        listener(8080, 2, true, "alice"),
        listener(8080, 3, true, "alice"),
        listener(8080, 4, false, "alice"),
    ]));
    assert_eq!(out.len(), 1);
    assert_eq!(out[0].pid, 2);
}

#[test]
fn last_ipv6_wins_without_ipv4() {
    let out = assemble(scan(vec![
        listener(8080, 1, false, "alice"),
        listener(8080, 2, false, "alice"),
        listener(8080, 3, false, "alice"),
    ]));
    assert_eq!(out.len(), 1);
    assert_eq!(out[0].pid, 3);
}

#[test]
fn one_entry_per_port_with_fields_carried_over() {
    let mut l = listener(22, 77, true, "root");
    l.process_name = "sshd".into();
    let out = assemble(scan(vec![
        listener(443, 5, false, "alice"),
        l,
        listener(443, 6, true, "alice"),
        listener(22, 78, false, "root"),
    ]));
    assert_eq!(out.len(), 2);
    assert_eq!(
        out[0],
        PortEntry {
            port: 22,
            pid: 77,
            process_name: "sshd".into(),
            user: "root".into(),
            is_current_user: false,
        }
    );
    assert_eq!(out[1].port, 443);
    assert_eq!(out[1].pid, 6);
    assert!(out[1].is_current_user);
}

#[test]
fn empty_scan_gives_empty_list() {
    assert!(assemble(scan(vec![])).is_empty());
}

#[test]
fn case_folding_is_ascii_only() {
    let mut s = scan(vec![
        listener(3000, 5, true, "ÄLICE"),
        listener(3001, 6, true, "äLiCe"),
        listener(3002, 7, true, "alic"),
    ]);
    s.current_user = "äLICE".into();
    let out = assemble(s);
    assert!(!out[0].is_current_user);
    assert!(out[1].is_current_user);
    assert!(!out[2].is_current_user);
}

#[test]
fn list_listening_passes_errors_through() {
    let err: Result<RawScan, String> = Err("no sockets".into());
    assert_eq!(list_listening(err), Err("no sockets".to_string()));
    let ok: Result<RawScan, String> = Ok(scan(vec![listener(80, 1, true, "alice")]));
    let out = list_listening(ok).unwrap();
    assert_eq!(out.len(), 1);
    assert_eq!(out[0].port, 80);
}

#[test]
fn port_entry_eq_by_fields() {
    let a = PortEntry {
        port: 8080,
        pid: 42,
        process_name: "node".into(),
        user: "alice".into(),
        is_current_user: true,
    };
    let b = a.clone();
    assert_eq!(a, b);
}

#[test]
fn types_port_entry_eq_by_fields() {
    let a = PortEntry {
        port: 8080,
        pid: 42,
        process_name: "node".into(),
        user: "alice".into(),
        is_current_user: true,
    };
    let b = a.clone();
    assert_eq!(a, b);
}

#[test]
fn duplicate_copies_every_field() {
    let a = PortEntry {
        port: 5173,
        pid: 9,
        process_name: "vite".into(),
        user: "bob".into(),
        is_current_user: false,
    };
    assert_eq!(a.duplicate(), a);
}

#[test]
fn listener_order_does_not_matter_when_unambiguous() {
    let listeners = vec![
        listener(8080, 1, false, "alice"),
        listener(8080, 2, true, "alice"),
        listener(8080, 3, false, "alice"),
        listener(22, 4, true, "root"),
        listener(5432, 5, false, "alice"),
    ];
    let expected = assemble(scan(listeners.clone()));
    let orders: [[usize; 5]; 4] = [[4, 3, 2, 1, 0], [2, 0, 4, 1, 3], [1, 2, 3, 4, 0], [3, 4, 0, 2, 1]];
    for order in orders {
        let shuffled: Vec<RawListener> = order.iter().map(|&i| listeners[i].clone()).collect();
        assert_eq!(assemble(scan(shuffled)), expected);
    }
    let ports: Vec<(u16, u32)> = expected.iter().map(|e| (e.port, e.pid)).collect();
    assert_eq!(ports, vec![(22, 4), (5432, 5), (8080, 2)]);
}
