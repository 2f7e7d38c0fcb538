use auto_discovery::config::Config;
use auto_discovery::tui::{ActivePane, App, Key, KeyAction};
use auto_discovery::{DiscoveredNode, Node};

fn peer(name: &str) -> DiscoveredNode {
    DiscoveredNode { name: name.to_string(), address: "10.0.0.9".to_string(), port: 4242, pairing_code: "77".to_string() }
}

fn app(peers: Vec<DiscoveredNode>) -> App {
    App::new(Node::new("forsyth-tui".to_string(), None), vec!["build".to_string(), "test".to_string(), "ship".to_string()], peers)
}

#[test]
fn config_path_defaults() {
    assert_eq!(Config::path_or_default(None), "./despereaux.yaml");
    assert_eq!(Config::path_or_default(Some("x.yaml".to_string())), "x.yaml");
}

#[test]
fn host_selection_wraps() {
    let mut a = app(vec![peer("a"), peer("b")]);
    a.next_host();
    assert_eq!(a.selected_host, 1);
    a.next_host();
    assert_eq!(a.selected_host, 0);
    a.prev_host();
    assert_eq!(a.selected_host, 1);
    let mut e = app(vec![]);
    e.next_host();
    e.prev_host();
    assert_eq!(e.selected_host, 0);
}

#[test]
fn task_selection_wraps_and_highlights() {
    let mut a = app(vec![]);
    a.prev_task();
    assert_eq!(a.selected_task, 2);
    assert_eq!(a.task_list_selected, Some(2));
    a.next_task();
    assert_eq!(a.selected_task, 0);
    assert_eq!(a.task_list_selected, Some(0));
}

#[test]
fn rescan_clamps_selection() {
    let mut a = app(vec![peer("a"), peer("b"), peer("c")]);
    a.selected_host = 2;
    a.finish_rescan(vec![peer("x")]);
    assert_eq!(a.selected_host, 0);
    assert_eq!(a.output, "Rescan complete. Found 1 nodes.");
    a.selected_host = 5;
    a.rescan(vec![]);
    assert_eq!(a.selected_host, 5);
}

#[test]
fn keys_drive_the_state() {
    let mut a = app(vec![peer("a"), peer("b")]);
    assert_eq!(a.handle_key(Key::Right), KeyAction::Done);
    assert_eq!(a.selected_host, 1);
    assert_eq!(a.handle_key(Key::Down), KeyAction::Done);
    assert_eq!(a.selected_task, 1);
    assert_eq!(a.handle_key(Key::Tab), KeyAction::Done);
    assert_eq!(a.active_pane, ActivePane::Output);
    assert_eq!(a.handle_key(Key::Enter), KeyAction::Done);
    assert_eq!(a.output, "Running 'test' on b...\n\n(SSH not wired up yet)");
    assert_eq!(a.handle_key(Key::Char('r')), KeyAction::Rescan);
    assert_eq!(a.output, "Rescanning for nodes...");
    assert_eq!(a.handle_key(Key::Char('x')), KeyAction::Done);
    assert!(!a.should_quit);
    assert_eq!(a.handle_key(Key::Char('q')), KeyAction::Done);
    assert!(a.should_quit);
    let mut e = app(vec![]);
    e.handle_key(Key::Enter);
    assert_eq!(e.output, "No node selected. Press 'r' to rescan.");
}

#[test]
fn texts_of_the_panes() {
    let mut a = app(vec![peer("alpha"), peer("beta")]);
    a.output = "done".to_string();
    assert_eq!(a.details_text(), "Node:    alpha\nAddress: 10.0.0.9\nPort:    4242\nCode:    77\n\ndone");
    assert_eq!(a.host_titles(), vec!["alpha".to_string(), "beta".to_string()]);
    assert!(a.status_text().ends_with("│  node: alpha │  nodes: 2"));
    a.selected_host = 9;
    assert_eq!(a.details_text(), "done");
    assert!(a.status_text().ends_with("node: none │  nodes: 2"));
    let e = app(vec![]);
    assert_eq!(e.host_titles(), vec![" No nodes discovered ".to_string()]);
    assert!(e.details_text().starts_with("No nodes discovered yet."));
}
