use auto_discovery::advertise::{local_host_name, service_info, service_type, AdvertiseError};
use auto_discovery::discovery::Sighting;
use auto_discovery::listener::PortPlan;
use auto_discovery::node::{pairing_code_text, Node};
use auto_discovery::Status;

#[test]
fn new_node_takes_override() {
    let n = Node::new("davinci".to_string(), None);
    assert_eq!(n.name, "davinci");
    assert_eq!(n.status, Status::Waiting);
    let m = Node::new("davinci".to_string(), Some("Other Name".to_string()));
    assert_eq!(m.name, "Other Name");
}

#[test]
fn pairing_code_has_four_digits() {
    assert_eq!(pairing_code_text(0), "0000");
    assert_eq!(pairing_code_text(42), "0042");
    assert_eq!(pairing_code_text(9999), "9999");
    assert_eq!(Node::choose_pairing_code(Some("abc".to_string()), 5), "abc");
    assert_eq!(Node::choose_pairing_code(None, 5), "0005");
}

#[test]
fn plan_uses_requested_code_and_range_once() {
    let mut n = Node::new("Da Vinci".to_string(), None);
    n.passcode("1234").port_range(5000..=5001).tasks(vec!["a".to_string()]);
    let p = n.plan_broadcast();
    assert_eq!(p.pairing_code, "1234");
    assert_eq!(p.instance, "da-vinci");
    assert_eq!(p.name, "Da Vinci");
    assert_eq!(p.tasks, vec!["a".to_string()]);
    match p.ports {
        PortPlan::Scan(mut s) => {
            assert_eq!(s.next_port(), Some(5000));
            assert_eq!(s.next_port(), Some(5001));
            assert_eq!(s.next_port(), None);
        }
        PortPlan::Ephemeral => panic!("expected a scan"),
    }
    // The requests were taken: the next plan draws a code and lets the system pick.
    let q = n.plan_broadcast();
    assert_eq!(q.pairing_code.len(), 4);
    assert!(q.pairing_code.chars().all(|c| c.is_ascii_digit()));
    assert!(matches!(q.ports, PortPlan::Ephemeral));
    assert_eq!(q.tasks, vec!["a".to_string()]);
}

#[test]
fn browse_table_skips_own_service() {
    let n = Node::new("Forsyth TUI".to_string(), None);
    let mut t = n.browse_table();
    t.observe(Sighting::Resolved {
        fullname: "forsyth-tui._forsyth._tcp.local.".to_string(),
        address: None,
        port: 1,
        pairing_code: None,
    });
    assert!(t.nodes().is_empty());
}

#[test]
fn service_record_is_built() {
    assert_eq!(service_type(), "_forsyth._tcp.local.");
    assert_eq!(local_host_name("box"), "box.local.");
    let mut n = Node::new("davinci".to_string(), None);
    n.passcode("1");
    let p = n.plan_broadcast();
    let record = service_info(&p, "box", "192.168.1.20", 5000).expect("valid record");
    assert_eq!(record.ty_domain(), "_forsyth._tcp.local.");
    assert_eq!(record.fullname(), "davinci._forsyth._tcp.local.");
    assert_eq!(record.host(), "box.local.");
    assert_eq!(record.addresses(), &vec!["192.168.1.20".to_string()]);
    assert_eq!(record.port(), 5000);
    assert_eq!(record.properties(), &vec![("name".to_string(), "davinci".to_string())]);
    let info = record.into_info();
    assert_eq!(info.get_fullname(), "davinci._forsyth._tcp.local.");
    assert_eq!(info.get_port(), 5000);
    assert_eq!(info.get_property_val_str("name"), Some("davinci"));
}

#[test]
fn service_record_escapes_instance_and_keeps_name() {
    let mut n = Node::new("Da Vinci.v2".to_string(), None);
    n.passcode("1");
    let p = n.plan_broadcast();
    assert_eq!(p.instance, "da-vinci.v2");
    let record = service_info(&p, "box.local", "10.0.0.1, 10.0.0.2", 7).expect("valid record");
    assert_eq!(record.fullname(), "da-vinci\\.v2._forsyth._tcp.local.");
    assert_eq!(record.host(), "box.local.");
    let mut addrs = record.addresses().clone();
    addrs.sort();
    assert_eq!(addrs, vec!["10.0.0.1".to_string(), "10.0.0.2".to_string()]);
    assert_eq!(record.properties(), &vec![("name".to_string(), "Da Vinci.v2".to_string())]);
}

#[test]
fn service_record_errors() {
    let mut n = Node::new("davinci".to_string(), None);
    n.passcode("1");
    let p = n.plan_broadcast();
    assert_eq!(service_info(&p, "box", "not an address", 5000).err(), Some(AdvertiseError::InvalidAddress));
    let mut long = Node::new("x".repeat(251), None);
    long.passcode("1");
    let q = long.plan_broadcast();
    assert_eq!(service_info(&q, "box", "192.168.1.20", 5000).err(), Some(AdvertiseError::PropertyTooLong));
    assert_eq!(service_info(&q, "box", "not an address", 5000).err(), Some(AdvertiseError::PropertyTooLong));
    let mut edge = Node::new("y".repeat(250), None);
    edge.passcode("1");
    let e = edge.plan_broadcast();
    assert!(service_info(&e, "box", "192.168.1.20", 5000).is_ok());
}
