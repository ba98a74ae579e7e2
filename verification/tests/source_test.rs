use port_monitor::port_enum::{
    assemble, listening_socket, raw_listener, raw_scan, scan_listeners, ListeningSocket,
    ProcessInfo, ScanRow, SocketKind, SocketRecord,
};

fn tcp(port: u16, listening: bool, pids: Vec<u32>) -> SocketRecord {
    SocketRecord {
        kind: SocketKind::Tcp { local_port: port, is_v4: true, listening },
        pids,
    }
}

#[test]
fn only_listening_tcp_sockets_with_a_process_count() {
    let found = listening_socket(&tcp(8080, true, vec![42, 43])).unwrap();
    assert_eq!((found.port, found.pid, found.is_v4), (8080, 42, true));
    assert!(listening_socket(&tcp(8080, false, vec![42])).is_none());
    assert!(listening_socket(&tcp(8080, true, vec![])).is_none());
    let udp = SocketRecord { kind: SocketKind::Other, pids: vec![7] };
    assert!(listening_socket(&udp).is_none());
}

#[test]
fn unknown_process_and_user_show_question_marks() {
    let sock = ListeningSocket { port: 3000, pid: 9, is_v4: false };
    let gone = raw_listener(sock, None);
    assert_eq!((gone.port, gone.pid, gone.is_v4), (3000, 9, false));
    assert_eq!(gone.process_name, "?");
    assert_eq!(gone.user, "?");

    let no_user = raw_listener(sock, Some(ProcessInfo { name: "node".into(), user: None }));
    assert_eq!(no_user.process_name, "node");
    assert_eq!(no_user.user, "?");

    let known = raw_listener(
        sock,
        Some(ProcessInfo { name: "node".into(), user: Some("alice".into()) }),
    );
    assert_eq!(known.process_name, "node");
    assert_eq!(known.user, "alice");
}

fn row(socket: SocketRecord, process: Option<(&str, Option<&str>)>) -> ScanRow {
    ScanRow {
        socket,
        process: process.map(|(name, user)| ProcessInfo {
            name: name.into(),
            user: user.map(|u| u.into()),
        }),
    }
}

#[test]
fn scan_keeps_one_listener_per_listening_row_in_order() {
    let rows = vec![
        row(tcp(9000, true, vec![10]), Some(("api", Some("alice")))),
        row(tcp(9001, false, vec![11]), Some(("client", Some("alice")))),
        row(SocketRecord { kind: SocketKind::Other, pids: vec![12] }, None),
        row(tcp(80, true, vec![13, 14]), None),
        row(tcp(9000, true, vec![10]), Some(("api", None))),
        row(tcp(7000, true, vec![]), None),
    ];
    let listeners = scan_listeners(&rows);
    let got: Vec<(u16, u32, &str, &str)> = listeners
        .iter()
        .map(|l| (l.port, l.pid, l.process_name.as_str(), l.user.as_str()))
        .collect();
    assert_eq!(got, vec![(9000, 10, "api", "alice"), (80, 13, "?", "?"), (9000, 10, "api", "?")]);

    let scan = raw_scan(&rows, "alice".into(), 99);
    assert_eq!(scan.listeners.len(), 3);
    assert_eq!(scan.current_user, "alice");
    assert_eq!(scan.current_pid, 99);
    let out = assemble(scan);
    let ports: Vec<(u16, u32, bool)> = out.iter().map(|e| (e.port, e.pid, e.is_current_user)).collect();
    assert_eq!(ports, vec![(80, 13, false), (9000, 10, true)]);
}

#[test]
fn empty_table_scans_to_no_listeners() {
    let scan = raw_scan(&vec![], "bob".into(), 1);
    assert!(scan.listeners.is_empty());
}
