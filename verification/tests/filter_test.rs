use port_monitor::port_enum::{apply, snapshot, FilterOpts, PortEntry, RawListener, RawScan};

fn entry(port: u16, is_me: bool) -> PortEntry {
    PortEntry {
        port,
        pid: 1,
        process_name: "p".into(),
        user: if is_me { "me".into() } else { "root".into() },
        is_current_user: is_me,
    }
}

fn defaults() -> FilterOpts {
    FilterOpts {
        port_range_min: 1024,
        port_range_max: 65535,
        show_system_ports: false,
        show_all_users: false,
    }
}

#[test]
fn drops_entries_outside_range() {
    let e = vec![entry(500, true), entry(3000, true), entry(1023, true)];
    let out = apply(&e, defaults());
    assert_eq!(out.len(), 1);
    assert_eq!(out[0].port, 3000);
}

#[test]
fn drops_non_current_user_by_default() {
    let e = vec![entry(3000, true), entry(3001, false)];
    let out = apply(&e, defaults());
    assert_eq!(out.len(), 1);
    assert_eq!(out[0].port, 3000);
}

#[test]
fn show_all_users_keeps_other_users() {
    let e = vec![entry(3000, true), entry(3001, false)];
    let out = apply(
        &e,
        FilterOpts {
            show_all_users: true,
            ..defaults()
        },
    );
    assert_eq!(out.len(), 2);
}

#[test]
fn show_system_ports_keeps_low_ports_in_range() {
    let e = vec![entry(80, true), entry(3000, true)];
    let out = apply(
        &e,
        FilterOpts {
            port_range_min: 1,
            port_range_max: 65535,
            show_system_ports: true,
            show_all_users: false,
        },
    );
    assert_eq!(out.len(), 2);
}

#[test]
fn range_bounds_are_inclusive() {
    let e = vec![entry(2999, true), entry(3000, true), entry(4000, true), entry(4001, true)];
    let out = apply(
        &e,
        FilterOpts {
            port_range_min: 3000,
            port_range_max: 4000,
            ..defaults()
        },
    );
    let ports: Vec<u16> = out.iter().map(|e| e.port).collect();
    assert_eq!(ports, vec![3000, 4000]);
}

#[test]
fn system_port_flag_does_not_widen_the_range() {
    let e = vec![entry(80, true), entry(3000, true)];
    let out = apply(
        &e,
        FilterOpts {
            show_system_ports: true,
            ..defaults()
        },
    );
    assert_eq!(out.len(), 1);
    assert_eq!(out[0].port, 3000);
}

#[test]
fn filtering_twice_changes_nothing() {
    let e = vec![entry(80, true), entry(3000, false), entry(5000, true), entry(70, false)];
    let once = apply(&e, defaults());
    let twice = apply(&once, defaults());
    assert_eq!(once, twice);
}

#[test]
fn showing_everything_keeps_everything() {
    let e = vec![entry(0, false), entry(80, true), entry(65535, false)];
    let all = FilterOpts {
        port_range_min: 0,
        port_range_max: u16::MAX,
        show_system_ports: true,
        show_all_users: true,
    };
    assert_eq!(apply(&e, all), e);
}

#[test]
fn inverted_range_shows_nothing() {
    let e = vec![entry(3000, true), entry(5000, true)];
    let out = apply(
        &e,
        FilterOpts {
            port_range_min: 6000,
            port_range_max: 2000,
            ..defaults()
        },
    );
    assert!(out.is_empty());
}

#[test]
fn snapshot_assembles_then_filters() {
    let raw = RawScan {
        listeners: vec![
            RawListener { port: 9000, pid: 3, is_v4: false, process_name: "a".into(), user: "me".into() },
            RawListener { port: 80, pid: 4, is_v4: true, process_name: "b".into(), user: "me".into() },
            RawListener { port: 3000, pid: 5, is_v4: true, process_name: "c".into(), user: "root".into() },
            RawListener { port: 9000, pid: 6, is_v4: true, process_name: "d".into(), user: "ME".into() },
        ],
        current_user: "me".into(),
        current_pid: 1,
    };
    let ok: Result<RawScan, String> = Ok(raw);
    let out = snapshot(ok, defaults()).unwrap();
    assert_eq!(out.len(), 1);
    assert_eq!(out[0].port, 9000);
    assert_eq!(out[0].pid, 6);
    assert_eq!(out[0].process_name, "d");

    let failed: Result<RawScan, String> = Err("scan failed".into());
    assert_eq!(snapshot(failed, defaults()), Err("scan failed".to_string()));
}
