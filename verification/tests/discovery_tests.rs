use auto_discovery::discovery::{instance_name, DiscoveryTable, Sighting, SightingNote};

fn resolved(name: &str, addr: Option<&str>, port: u16, code: Option<&str>) -> Sighting {
    Sighting::Resolved {
        fullname: name.to_string(),
        address: addr.map(|a| a.to_string()),
        port,
        pairing_code: code.map(|c| c.to_string()),
    }
}

#[test]
fn instance_name_lowercases_and_hyphenates() {
    assert_eq!(instance_name("Forsyth TUI"), "forsyth-tui");
    assert_eq!(instance_name("davinci"), "davinci");
    assert_eq!(instance_name("ÀB C"), "àb-c");
}

#[test]
fn table_records_replaces_and_removes() {
    let mut t = DiscoveryTable::new("me".to_string());
    assert_eq!(t.observe(resolved("alpha._forsyth._tcp.local.", Some("10.0.0.2"), 5000, None)), SightingNote::Recorded);
    assert_eq!(t.observe(resolved("beta._forsyth._tcp.local.", None, 5001, Some("12"))), SightingNote::Recorded);
    let nodes = t.nodes();
    assert_eq!(nodes.len(), 2);
    assert_eq!(nodes[0].address, "10.0.0.2");
    assert_eq!(nodes[0].pairing_code, "");
    assert_eq!(nodes[1].address, "");
    assert_eq!(nodes[1].pairing_code, "12");
    // A newer report of the same service replaces the entry.
    t.observe(resolved("alpha._forsyth._tcp.local.", Some("10.0.0.3"), 6000, None));
    let nodes = t.nodes();
    assert_eq!(nodes.len(), 2);
    let alpha = nodes.iter().find(|n| n.name.starts_with("alpha")).unwrap();
    assert_eq!(alpha.port, 6000);
    assert_eq!(alpha.address, "10.0.0.3");
    assert_eq!(t.observe(Sighting::Removed { fullname: "alpha._forsyth._tcp.local.".to_string() }), SightingNote::Removed);
    let nodes = t.nodes();
    assert_eq!(nodes.len(), 1);
    assert_eq!(nodes[0].name, "beta._forsyth._tcp.local.");
    // Removing an unknown service changes nothing.
    assert_eq!(t.observe(Sighting::Removed { fullname: "gamma".to_string() }), SightingNote::Removed);
    assert_eq!(t.nodes().len(), 1);
    assert_eq!(t.observe(Sighting::Other), SightingNote::Ignored);
    assert_eq!(t.nodes().len(), 1);
}

#[test]
fn table_leaves_out_own_service() {
    let mut t = DiscoveryTable::new("forsyth-tui".to_string());
    assert_eq!(t.observe(resolved("forsyth-tui._forsyth._tcp.local.", Some("1.2.3.4"), 1, None)), SightingNote::OwnService);
    assert!(t.nodes().is_empty());
    assert_eq!(t.own_instance(), "forsyth-tui");
}

#[test]
fn table_keeps_a_node_whose_name_extends_ours() {
    let mut t = DiscoveryTable::new("davinci".to_string());
    assert_eq!(t.observe(resolved("davinci._forsyth._tcp.local.", None, 1, None)), SightingNote::OwnService);
    assert_eq!(t.observe(resolved("davinci-2._forsyth._tcp.local.", None, 2, None)), SightingNote::Recorded);
    let nodes = t.nodes();
    assert_eq!(nodes.len(), 1);
    assert_eq!(nodes[0].name, "davinci-2._forsyth._tcp.local.");
}
