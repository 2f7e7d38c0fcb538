use auto_discovery::listener::{port_plan, BindStep, Listener, ListenerAction, ListenerEvent, Phase, PortPlan, PortScan, Status};

fn drain(mut s: PortScan) -> Vec<u16> {
    let mut v = Vec::new();
    while let Some(p) = s.next_port() {
        v.push(p);
    }
    v
}

#[test]
fn port_scan_follows_the_range() {
    assert_eq!(drain(PortScan::of_range(&(5000..=5003))), vec![5000, 5001, 5002, 5003]);
    assert_eq!(drain(PortScan::of_range(&(7..=7))), vec![7]);
    assert!(drain(PortScan::of_range(&(9..=3))).is_empty());
    let full = drain(PortScan::of_range(&(65534..=65535)));
    assert_eq!(full, vec![65534, 65535]);
    let mut r = 1..=2u16;
    r.next();
    r.next();
    assert!(drain(PortScan::of_range(&r)).is_empty());
}

#[test]
fn port_plan_without_range_lets_the_system_choose() {
    assert!(matches!(port_plan(None), PortPlan::Ephemeral));
    match port_plan(Some(10..=11)) {
        PortPlan::Scan(s) => assert_eq!(drain(s), vec![10, 11]),
        PortPlan::Ephemeral => panic!("expected a scan"),
    }
}

#[test]
fn listener_session_cycle() {
    let mut l = Listener::new();
    assert_eq!(l.status(), Status::Waiting);
    assert!(matches!(l.on_event(ListenerEvent::Connection { paired: false }), ListenerAction::Accept));
    assert_eq!(l.status(), Status::Waiting);
    assert!(matches!(l.on_event(ListenerEvent::Connection { paired: true }), ListenerAction::ReadLine));
    assert_eq!(l.status(), Status::Connected);
    assert_eq!(l.phase(), Phase::InSession);
    match l.on_event(ListenerEvent::Line("  ls -l \n".to_string())) {
        ListenerAction::ShowCommand(c) => assert_eq!(c, "ls -l"),
        other => panic!("{:?}", other),
    }
    assert!(matches!(l.on_event(ListenerEvent::Closed), ListenerAction::Accept));
    assert_eq!(l.status(), Status::Waiting);
    assert!(matches!(l.on_event(ListenerEvent::Connection { paired: true }), ListenerAction::ReadLine));
    assert!(matches!(l.on_event(ListenerEvent::ReadFailed), ListenerAction::Accept));
    assert_eq!(l.status(), Status::Waiting);
    assert!(matches!(l.on_event(ListenerEvent::AcceptFailed), ListenerAction::Shutdown));
    assert_eq!(l.status(), Status::Failed);
    assert!(matches!(l.on_event(ListenerEvent::Connection { paired: true }), ListenerAction::Shutdown));
    assert_eq!(l.status(), Status::Failed);
}

#[test]
fn bind_scan_takes_the_first_port_that_binds() {
    let mut s = PortScan::of_range(&(5000..=5002));
    assert_eq!(s.on_bind(false), BindStep::Try(5000));
    assert_eq!(s.on_bind(false), BindStep::Try(5001));
    assert_eq!(s.on_bind(true), BindStep::Listen);
    assert_eq!(drain(s), vec![5002]);
    let mut t = PortScan::of_range(&(8..=8));
    assert_eq!(t.on_bind(false), BindStep::Try(8));
    assert_eq!(t.on_bind(false), BindStep::NoneLeft);
    assert_eq!(t.on_bind(false), BindStep::NoneLeft);
    let mut e = PortScan::of_range(&(9..=3));
    assert_eq!(e.on_bind(false), BindStep::NoneLeft);
}
