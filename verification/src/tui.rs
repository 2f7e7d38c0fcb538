//! The state of the terminal front end: the peers found, the tasks to run,
//! which of each is selected, and the texts it shows.

use vstd::prelude::*;
use crate::discovery::{DiscoveredNode, PeerView};
use crate::node::Node;
use crate::protocol::strings_view;
use crate::text::{decimal, push_decimal};

verus! {

/// Which pane has the focus.
#[derive(Clone, Copy, Debug, PartialEq, Eq, Structural)]
pub enum ActivePane {
    Tasks,
    Output,
}

/// A key the front end reacts to.
#[derive(Clone, Copy, Debug, PartialEq, Eq, Structural)]
pub enum Key {
    Char(char),
    Left,
    Right,
    Up,
    Down,
    Tab,
    Enter,
    Other,
}

/// What the front end must do after a key, beyond the state change.
#[derive(Clone, Copy, Debug, PartialEq, Eq, Structural)]
pub enum KeyAction {
    /// Nothing more.
    Done,
    /// Browse the network again, then report with `finish_rescan`.
    Rescan,
}

/// The views of a list of peers.
pub open spec fn peers_view(v: Seq<DiscoveredNode>) -> Seq<PeerView> {
    v.map_values(|n: DiscoveredNode| n@)
}

/// The front end's state.
pub struct App {
    /// The node it browses with.
    pub node: Node,
    /// The peers found by the last browse.
    pub discovered_nodes: Vec<DiscoveredNode>,
    /// The tasks it offers to run.
    pub tasks: Vec<String>,
    /// The selected peer.
    pub selected_host: usize,
    /// The selected task.
    pub selected_task: usize,
    /// The row the task list highlights.
    pub task_list_selected: Option<usize>,
    /// The pane with the focus.
    pub active_pane: ActivePane,
    /// The text of the output pane.
    pub output: String,
    /// Whether the front end should exit.
    pub should_quit: bool,
}

/// The front end's state with its texts as character sequences.
pub struct AppView {
    pub node: Node,
    pub discovered: Seq<PeerView>,
    pub tasks: Seq<Seq<char>>,
    pub selected_host: usize,
    pub selected_task: usize,
    pub task_list_selected: Option<usize>,
    pub active_pane: ActivePane,
    pub output: Seq<char>,
    pub should_quit: bool,
}

impl View for App {
    type V = AppView;

    open spec fn view(&self) -> AppView {
        AppView {
            node: self.node,
            discovered: peers_view(self.discovered_nodes@),
            tasks: strings_view(self.tasks@),
            selected_host: self.selected_host,
            selected_task: self.selected_task,
            task_list_selected: self.task_list_selected,
            active_pane: self.active_pane,
            output: self.output@,
            should_quit: self.should_quit,
        }
    }
}

/// The index after `i` among `len`, wrapping to the first.
pub open spec fn next_index(i: usize, len: nat) -> usize {
    ((i + 1) % (len as int)) as usize
}

/// The index before `i` among `len`, wrapping to the last.
pub open spec fn prev_index(i: usize, len: nat) -> usize {
    if i == 0 {
        (len - 1) as usize
    } else {
        (i - 1) as usize
    }
}

/// The selected peer after moving right.
pub open spec fn host_after_next(v: AppView) -> usize {
    if v.discovered.len() == 0 {
        v.selected_host
    } else {
        next_index(v.selected_host, v.discovered.len())
    }
}

/// The selected peer after moving left.
pub open spec fn host_after_prev(v: AppView) -> usize {
    if v.discovered.len() == 0 {
        v.selected_host
    } else {
        prev_index(v.selected_host, v.discovered.len())
    }
}

/// The selected peer after a browse found `len` peers: a selection past the
/// end moves to the last peer; with no peer it stays.
pub open spec fn clamped_host(selected: usize, len: nat) -> usize {
    if selected >= len && len > 0 {
        (len - 1) as usize
    } else {
        selected
    }
}

/// The output after asking to run the selected task.
pub open spec fn run_message(v: AppView) -> Seq<char> {
    if v.selected_host < v.discovered.len() {
        "Running '"@ + v.tasks[v.selected_task as int] + "' on "@ + v.discovered[v.selected_host as int].name
            + "...\n\n(SSH not wired up yet)"@
    } else {
        "No node selected. Press 'r' to rescan."@
    }
}

/// The output while a browse runs.
pub open spec fn rescanning_message() -> Seq<char> {
    "Rescanning for nodes..."@
}

/// The state after a key (for `r`, before the browse it asks for).
pub open spec fn key_outcome(v: AppView, key: Key) -> AppView {
    match key {
        Key::Char(c) => if c == 'q' {
            AppView { should_quit: true, ..v }
        } else if c == 'r' {
            AppView { output: rescanning_message(), ..v }
        } else {
            v
        },
        Key::Right => AppView { selected_host: host_after_next(v), ..v },
        Key::Left => AppView { selected_host: host_after_prev(v), ..v },
        Key::Down => {
            let t = next_index(v.selected_task, v.tasks.len());
            AppView { selected_task: t, task_list_selected: Some(t), ..v }
        },
        Key::Up => {
            let t = prev_index(v.selected_task, v.tasks.len());
            AppView { selected_task: t, task_list_selected: Some(t), ..v }
        },
        Key::Tab => AppView {
            active_pane: match v.active_pane {
                ActivePane::Tasks => ActivePane::Output,
                ActivePane::Output => ActivePane::Tasks,
            },
            ..v
        },
        Key::Enter => AppView { output: run_message(v), ..v },
        Key::Other => v,
    }
}

/// The keys the front end can serve: it cannot move through an empty task
/// list or run a task that is not there (nor step past the largest index).
pub open spec fn key_allowed(v: AppView, key: Key) -> bool {
    match key {
        Key::Right => v.discovered.len() > 0 ==> v.selected_host < usize::MAX,
        Key::Down => v.tasks.len() > 0 && v.selected_task < usize::MAX,
        Key::Up => v.selected_task == 0 ==> v.tasks.len() > 0,
        Key::Enter => v.selected_host < v.discovered.len() ==> v.selected_task < v.tasks.len(),
        _ => true,
    }
}

/// The text of the output pane: the selected peer's details above the
/// output, a hint when no peer is known, the bare output otherwise.
pub open spec fn details_of(v: AppView) -> Seq<char> {
    if v.discovered.len() == 0 {
        "No nodes discovered yet.\n\nPress 'r' to rescan or make sure other nodes are running broadcast_existence()."@
    } else if v.selected_host < v.discovered.len() {
        let n = v.discovered[v.selected_host as int];
        "Node:    "@ + n.name + "\nAddress: "@ + n.address + "\nPort:    "@ + decimal(n.port as nat)
            + "\nCode:    "@ + n.pairing_code + "\n\n"@ + v.output
    } else {
        v.output
    }
}

/// The name shown for the selected peer in the status bar.
pub open spec fn host_label(v: AppView) -> Seq<char> {
    if v.selected_host < v.discovered.len() {
        v.discovered[v.selected_host as int].name
    } else {
        "none"@
    }
}

/// The status bar: the key bindings, the selected peer and the peer count.
pub open spec fn status_of(v: AppView) -> Seq<char> {
    " [←/→] switch node  [↑/↓] select task  [Enter] connect  [r] rescan  [Tab] focus  [q] quit  │  node: "@
        + host_label(v) + " │  nodes: "@ + decimal(v.discovered.len())
}

/// The titles of the peer tabs: each peer's name, or one placeholder when
/// none is known.
pub open spec fn titles_of(v: AppView) -> Seq<Seq<char>> {
    if v.discovered.len() == 0 {
        seq![" No nodes discovered "@]
    } else {
        v.discovered.map_values(|n: PeerView| n.name)
    }
}

/// Appends a string's characters.
fn append_text(out: &mut String, s: &str)
    ensures
        final(out)@ == old(out)@ + s@,
{
    out.append(s);
}

impl App {
    /// A front end over `node`, offering `tasks`, with the peers of a first
    /// browse; the first peer and the first task are selected.
    pub fn new(node: Node, tasks: Vec<String>, initial_nodes: Vec<DiscoveredNode>) -> (a: App)
        ensures
            a@ == (AppView {
                node,
                discovered: peers_view(initial_nodes@),
                tasks: strings_view(tasks@),
                selected_host: 0,
                selected_task: 0,
                task_list_selected: Some(0usize),
                active_pane: ActivePane::Tasks,
                output: Seq::empty(),
                should_quit: false,
            }),
    {
        App {
            node,
            discovered_nodes: initial_nodes,
            tasks,
            selected_host: 0,
            selected_task: 0,
            task_list_selected: Some(0),
            active_pane: ActivePane::Tasks,
            output: String::new(),
            should_quit: false,
        }
    }

    /// Takes the peers of a new browse; a selection past the end moves to the
    /// last peer (it stays as it is when none was found).
    pub fn rescan(&mut self, found: Vec<DiscoveredNode>)
        ensures
            final(self)@ == (AppView {
                discovered: peers_view(found@),
                selected_host: clamped_host(old(self).selected_host, found.len() as nat),
                ..old(self)@
            }),
    {
        self.discovered_nodes = found;
        if self.selected_host >= self.discovered_nodes.len() && self.discovered_nodes.len() > 0 {
            self.selected_host = self.discovered_nodes.len() - 1;
        }
    }

    /// Takes the peers of the browse that `r` asked for and reports how many
    /// were found.
    pub fn finish_rescan(&mut self, found: Vec<DiscoveredNode>)
        ensures
            final(self)@ == (AppView {
                discovered: peers_view(found@),
                selected_host: clamped_host(old(self).selected_host, found.len() as nat),
                output: "Rescan complete. Found "@ + decimal(found.len() as nat) + " nodes."@,
                ..old(self)@
            }),
    {
        let n = found.len();
        self.rescan(found);
        let mut out = String::new();
        append_text(&mut out, "Rescan complete. Found ");
        push_decimal(&mut out, n as u64);
        append_text(&mut out, " nodes.");
        self.output = out;
    }

    /// Selects the next peer, wrapping around; nothing happens without peers.
    pub fn next_host(&mut self)
        requires
            old(self).discovered_nodes.len() > 0 ==> old(self).selected_host < usize::MAX,
        ensures
            final(self)@ == (AppView { selected_host: host_after_next(old(self)@), ..old(self)@ }),
    {
        let len = self.discovered_nodes.len();
        if len == 0 {
            return ;
        }
        self.selected_host = (self.selected_host + 1) % len;
    }

    /// Selects the previous peer, wrapping around; nothing happens without
    /// peers.
    pub fn prev_host(&mut self)
        ensures
            final(self)@ == (AppView { selected_host: host_after_prev(old(self)@), ..old(self)@ }),
    {
        let len = self.discovered_nodes.len();
        if len == 0 {
            return ;
        }
        if self.selected_host == 0 {
            self.selected_host = len - 1;
        } else {
            self.selected_host = self.selected_host - 1;
        }
    }

    /// Selects the next task, wrapping around, and highlights it.
    pub fn next_task(&mut self)
        requires
            old(self).tasks.len() > 0,
            old(self).selected_task < usize::MAX,
        ensures
            final(self)@ == (AppView {
                selected_task: next_index(old(self).selected_task, old(self).tasks.len() as nat),
                task_list_selected: Some(
                    next_index(old(self).selected_task, old(self).tasks.len() as nat),
                ),
                ..old(self)@
            }),
    {
        let next = (self.selected_task + 1) % self.tasks.len();
        self.selected_task = next;
        self.task_list_selected = Some(next);
    }

    /// Selects the previous task, wrapping around, and highlights it.
    pub fn prev_task(&mut self)
        requires
            old(self).selected_task == 0 ==> old(self).tasks.len() > 0,
        ensures
            final(self)@ == (AppView {
                selected_task: prev_index(old(self).selected_task, old(self).tasks.len() as nat),
                task_list_selected: Some(
                    prev_index(old(self).selected_task, old(self).tasks.len() as nat),
                ),
                ..old(self)@
            }),
    {
        let prev = if self.selected_task == 0 {
            self.tasks.len() - 1
        } else {
            self.selected_task - 1
        };
        self.selected_task = prev;
        self.task_list_selected = Some(prev);
    }

    /// Says which task would run on which peer (the run itself is not wired
    /// up), or that no peer is selected.
    pub fn run_selected(&mut self)
        requires
            old(self).selected_host < old(self).discovered_nodes.len() ==> old(self).selected_task
                < old(self).tasks.len(),
        ensures
            final(self)@ == (AppView { output: run_message(old(self)@), ..old(self)@ }),
    {
        let mut out = String::new();
        if self.selected_host < self.discovered_nodes.len() {
            append_text(&mut out, "Running '");
            append_text(&mut out, self.tasks[self.selected_task].as_str());
            append_text(&mut out, "' on ");
            append_text(&mut out, self.discovered_nodes[self.selected_host].name.as_str());
            append_text(&mut out, "...\n\n(SSH not wired up yet)");
        } else {
            append_text(&mut out, "No node selected. Press 'r' to rescan.");
        }
        self.output = out;
    }

    /// The text of the output pane.
    pub fn details_text(&self) -> (r: String)
        ensures
            r@ == details_of(self@),
    {
        if self.discovered_nodes.len() == 0 {
            String::from_str(
                "No nodes discovered yet.\n\nPress 'r' to rescan or make sure other nodes are running broadcast_existence().",
            )
        } else if self.selected_host < self.discovered_nodes.len() {
            let n = &self.discovered_nodes[self.selected_host];
            let mut out = String::new();
            append_text(&mut out, "Node:    ");
            append_text(&mut out, n.name.as_str());
            append_text(&mut out, "\nAddress: ");
            append_text(&mut out, n.address.as_str());
            append_text(&mut out, "\nPort:    ");
            push_decimal(&mut out, n.port as u64);
            append_text(&mut out, "\nCode:    ");
            append_text(&mut out, n.pairing_code.as_str());
            append_text(&mut out, "\n\n");
            append_text(&mut out, self.output.as_str());
            out
        } else {
            self.output.clone()
        }
    }

    /// The status bar.
    pub fn status_text(&self) -> (r: String)
        ensures
            r@ == status_of(self@),
    {
        let mut out = String::new();
        append_text(
            &mut out,
            " [←/→] switch node  [↑/↓] select task  [Enter] connect  [r] rescan  [Tab] focus  [q] quit  │  node: ",
        );
        if self.selected_host < self.discovered_nodes.len() {
            append_text(&mut out, self.discovered_nodes[self.selected_host].name.as_str());
        } else {
            append_text(&mut out, "none");
        }
        append_text(&mut out, " │  nodes: ");
        push_decimal(&mut out, self.discovered_nodes.len() as u64);
        out
    }

    /// The titles of the peer tabs.
    pub fn host_titles(&self) -> (r: Vec<String>)
        ensures
            strings_view(r@) == titles_of(self@),
    {
        let mut r: Vec<String> = Vec::new();
        if self.discovered_nodes.len() == 0 {
            r.push(String::from_str(" No nodes discovered "));
            assert(strings_view(r@) =~= titles_of(self@));
            return r;
        }
        let mut i: usize = 0;
        while i < self.discovered_nodes.len()
            invariant
                i <= self.discovered_nodes.len(),
                strings_view(r@) == peers_view(self.discovered_nodes@).map_values(
                    |n: PeerView| n.name,
                ).take(i as int),
            decreases self.discovered_nodes.len() - i,
        {
            let ghost before = r@;
            r.push(self.discovered_nodes[i].name.clone());
            assert(strings_view(r@) =~= strings_view(before).push(self.discovered_nodes@[i as int].name@));
            assert(peers_view(self.discovered_nodes@).map_values(|n: PeerView| n.name).take(i + 1)
                =~= peers_view(self.discovered_nodes@).map_values(|n: PeerView| n.name).take(
                i as int,
            ).push(self.discovered_nodes@[i as int].name@));
            i = i + 1;
        }
        assert(peers_view(self.discovered_nodes@).map_values(|n: PeerView| n.name).take(
            self.discovered_nodes.len() as int,
        ) =~= peers_view(self.discovered_nodes@).map_values(|n: PeerView| n.name));
        r
    }

    /// Reacts to a key; `r` asks for a new browse.
    pub fn handle_key(&mut self, key: Key) -> (a: KeyAction)
        requires
            key_allowed(old(self)@, key),
        ensures
            final(self)@ == key_outcome(old(self)@, key),
            a == if key == Key::Char('r') {
                KeyAction::Rescan
            } else {
                KeyAction::Done
            },
    {
        match key {
            Key::Char(c) => {
                if c == 'q' {
                    self.should_quit = true;
                    KeyAction::Done
                } else if c == 'r' {
                    self.output = String::from_str("Rescanning for nodes...");
                    KeyAction::Rescan
                } else {
                    KeyAction::Done
                }
            },
            Key::Right => {
                self.next_host();
                KeyAction::Done
            },
            Key::Left => {
                self.prev_host();
                KeyAction::Done
            },
            Key::Down => {
                self.next_task();
                KeyAction::Done
            },
            Key::Up => {
                self.prev_task();
                KeyAction::Done
            },
            Key::Tab => {
                self.active_pane = match self.active_pane {
                    ActivePane::Tasks => ActivePane::Output,
                    ActivePane::Output => ActivePane::Tasks,
                };
                KeyAction::Done
            },
            Key::Enter => {
                self.run_selected();
                KeyAction::Done
            },
            Key::Other => KeyAction::Done,
        }
    }
}

/// Moving the selection forward and then back, or back and then forward,
/// returns to where it was, and a selection within range stays within range.
pub proof fn law_selection_round_trip(i: usize, len: nat)
    requires
        i < len,
        len <= usize::MAX,
    ensures
        i + 1 < len ==> next_index(i, len) == i + 1,
        i + 1 == len ==> next_index(i, len) == 0,
        i > 0 ==> prev_index(i, len) == i - 1,
        i == 0 ==> prev_index(i, len) == len - 1,
        next_index(i, len) < len,
        prev_index(i, len) < len,
        prev_index(next_index(i, len), len) == i,
        next_index(prev_index(i, len), len) == i,
{
    let l = len as int;
    if i + 1 < l {
        assert((i + 1) % l == i + 1) by (nonlinear_arith)
            requires
                0 <= i + 1 < l,
        ;
    } else {
        assert((i + 1) % l == 0) by (nonlinear_arith)
            requires
                i + 1 == l,
                l > 0,
        ;
    }
    if i == 0 {
        assert(l % l == 0) by (nonlinear_arith)
            requires
                l > 0,
        ;
    } else {
        assert((i as int) % l == i) by (nonlinear_arith)
            requires
                0 <= i < l,
        ;
    }
}

/// The selected task after moving from the first of `len` tasks; each move
/// goes forward (`true`) or back (`false`).
pub open spec fn selection_after(len: nat, moves: Seq<bool>) -> usize
    decreases moves.len(),
{
    if moves.len() == 0 {
        0
    } else {
        let before = selection_after(len, moves.drop_last());
        if moves.last() {
            next_index(before, len)
        } else {
            prev_index(before, len)
        }
    }
}

/// From the first task, any sequence of moves through a non-empty task list
/// keeps the selection on a task (`next_task` and `prev_task` also keep the
/// highlighted row equal to it).
pub proof fn law_task_selection_in_range(len: nat, moves: Seq<bool>)
    requires
        0 < len <= usize::MAX,
    ensures
        selection_after(len, moves) < len,
    decreases moves.len(),
{
    if moves.len() > 0 {
        law_task_selection_in_range(len, moves.drop_last());
        law_selection_round_trip(selection_after(len, moves.drop_last()), len);
    }
}

/// After a browse that found any peer, the selection points at one of them:
/// it stays where it was when that is still a peer, and a selection at or
/// past the end moves to the last peer found.
pub proof fn law_rescan_selects_a_found_peer(selected: usize, len: nat)
    requires
        len > 0,
        len <= usize::MAX,
    ensures
        clamped_host(selected, len) < len,
        selected < len ==> clamped_host(selected, len) == selected,
        selected >= len ==> clamped_host(selected, len) == len - 1,
{
}

/// A browse that found no peer leaves the selection where it was.
pub proof fn law_empty_rescan_keeps_selection(selected: usize)
    ensures
        clamped_host(selected, 0) == selected,
{
}

/// Right selects the next peer, `(selected + 1) % len`, wrapping from the
/// last to the first; Left selects the previous one, wrapping from the first
/// to the last; with no peer either leaves the selection alone. Nothing else
/// of the state changes, and Left undoes Right (and Right undoes Left) for a
/// selection on a peer.
pub proof fn law_host_keys(v: AppView)
    requires
        v.discovered.len() <= usize::MAX,
    ensures
        v.discovered.len() == 0 ==> key_outcome(v, Key::Right) == v && key_outcome(v, Key::Left)
            == v,
        v.discovered.len() > 0 ==> key_outcome(v, Key::Right) == (AppView {
            selected_host: ((v.selected_host + 1) % (v.discovered.len() as int)) as usize,
            ..v
        }),
        v.discovered.len() > 0 && v.selected_host > 0 ==> key_outcome(v, Key::Left) == (AppView {
            selected_host: (v.selected_host - 1) as usize,
            ..v
        }),
        v.discovered.len() > 0 && v.selected_host == 0 ==> key_outcome(v, Key::Left) == (AppView {
            selected_host: (v.discovered.len() - 1) as usize,
            ..v
        }),
        v.selected_host < v.discovered.len() ==> key_outcome(key_outcome(v, Key::Right), Key::Left)
            == v && key_outcome(key_outcome(v, Key::Left), Key::Right) == v,
{
    if v.selected_host < v.discovered.len() {
        law_selection_round_trip(v.selected_host, v.discovered.len());
        let r = key_outcome(v, Key::Right);
        assert(key_outcome(r, Key::Left) =~= v);
        let l = key_outcome(v, Key::Left);
        assert(key_outcome(l, Key::Right) =~= v);
    }
}

/// The output pane shows the selected peer's details (its name, address,
/// port and pairing code, one per line) above the output; the status bar
/// names the selected peer.
pub proof fn law_details_show_selected_peer(v: AppView)
    requires
        v.selected_host < v.discovered.len(),
    ensures
        ({
            let n = v.discovered[v.selected_host as int];
            &&& details_of(v) == "Node:    "@ + n.name + "\nAddress: "@ + n.address + "\nPort:    "@
                + decimal(n.port as nat) + "\nCode:    "@ + n.pairing_code + "\n\n"@ + v.output
            &&& host_label(v) == n.name
        }),
{
}

/// Enter says which task would run on the selected peer, or that no peer is
/// selected; nothing else of the state changes.
pub proof fn law_enter_names_selected_task_and_peer(v: AppView)
    ensures
        v.selected_host < v.discovered.len() ==> key_outcome(v, Key::Enter) == (AppView {
            output: "Running '"@ + v.tasks[v.selected_task as int] + "' on "@
                + v.discovered[v.selected_host as int].name + "...\n\n(SSH not wired up yet)"@,
            ..v
        }),
        v.selected_host >= v.discovered.len() ==> key_outcome(v, Key::Enter) == (AppView {
            output: "No node selected. Press 'r' to rescan."@,
            ..v
        }),
{
}

/// `q` asks to quit, `r` shows that a browse runs, Tab moves the focus to the
/// other pane, Down and Up select and highlight the next and previous task
/// (wrapping), and any other key changes nothing; each touches nothing else.
pub proof fn law_other_keys(v: AppView, c: char)
    requires
        c != 'q' && c != 'r',
        v.tasks.len() > 0,
        v.selected_task < v.tasks.len(),
    ensures
        key_outcome(v, Key::Char('q')) == (AppView { should_quit: true, ..v }),
        key_outcome(v, Key::Char('r')) == (AppView { output: "Rescanning for nodes..."@, ..v }),
        key_outcome(v, Key::Char(c)) == v,
        key_outcome(v, Key::Other) == v,
        key_outcome(v, Key::Tab).active_pane != v.active_pane,
        key_outcome(v, Key::Tab) == (AppView { active_pane: key_outcome(v, Key::Tab).active_pane, ..v }),
        key_outcome(v, Key::Down) == (AppView {
            selected_task: ((v.selected_task + 1) % (v.tasks.len() as int)) as usize,
            task_list_selected: Some(((v.selected_task + 1) % (v.tasks.len() as int)) as usize),
            ..v
        }),
        key_outcome(v, Key::Up) == (AppView {
            selected_task: (if v.selected_task == 0 {
                v.tasks.len() - 1
            } else {
                v.selected_task - 1
            }) as usize,
            task_list_selected: Some(
                (if v.selected_task == 0 {
                    v.tasks.len() - 1
                } else {
                    v.selected_task - 1
                }) as usize,
            ),
            ..v
        }),
{
}

/// The tabs name every peer found, in order, and the status bar counts them;
/// with none found there is one placeholder tab.
pub proof fn law_titles_and_count(v: AppView)
    ensures
        v.discovered.len() > 0 ==> titles_of(v).len() == v.discovered.len() && forall|i: int|
            0 <= i < v.discovered.len() ==> #[trigger] titles_of(v)[i] == v.discovered[i].name,
        v.discovered.len() == 0 ==> titles_of(v) == seq![" No nodes discovered "@],
        status_of(v) == " [←/→] switch node  [↑/↓] select task  [Enter] connect  [r] rescan  [Tab] focus  [q] quit  │  node: "@
            + host_label(v) + " │  nodes: "@ + decimal(v.discovered.len()),
        v.selected_host >= v.discovered.len() ==> host_label(v) == "none"@,
{
}

} // verus!
