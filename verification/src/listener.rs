//! The choice of a listening port and the decisions of the pairing listener.
//!
//! A node listens on a port chosen by the system, or on the first port of a
//! requested range that it can bind. The listener then takes connections one
//! at a time: a connection that offers the right code opens a session, whose
//! lines are shown until the peer closes it; a failure to accept stops the
//! listener for good.

use vstd::prelude::*;
use core::ops::RangeInclusive;
use vstd::std_specs::range::RangeInclusiveView;
use crate::protocol::{fail_word, reply_text};
use crate::text::{trim, trim_str};

verus! {

/// The lower bound of a range (`RangeInclusive::start`).
#[verifier::external_body]
fn range_start(r: &RangeInclusive<u16>) -> (v: u16)
    ensures
        v == r@.start,
{
    *r.start()
}

/// The upper bound of a range (`RangeInclusive::end`).
#[verifier::external_body]
fn range_end(r: &RangeInclusive<u16>) -> (v: u16)
    ensures
        v == r@.end,
{
    *r.end()
}

/// Whether a range holds no value (`RangeInclusive::is_empty`): it has been
/// iterated to its end, or its lower bound exceeds its upper bound.
#[verifier::external_body]
fn range_is_empty(r: &RangeInclusive<u16>) -> (b: bool)
    ensures
        b == (r@.exhausted || r@.start > r@.end),
{
    r.is_empty()
}

/// The ports from `next` to `last`, in order.
pub open spec fn port_run(next: int, last: int) -> Seq<u16> {
    if next <= last {
        Seq::new((last - next + 1) as nat, |i: int| (next + i) as u16)
    } else {
        Seq::empty()
    }
}

/// The ports that iterating a range yields, in order.
pub open spec fn range_ports(r: RangeInclusiveView<u16>) -> Seq<u16> {
    if r.exhausted || r.start > r.end {
        Seq::empty()
    } else {
        port_run(r.start as int, r.end as int)
    }
}

/// The ports still to try, lowest first.
pub struct PortScan {
    next: u32,
    last: u32,
}

impl View for PortScan {
    type V = Seq<u16>;

    closed spec fn view(&self) -> Seq<u16> {
        port_run(self.next as int, self.last as int)
    }
}

impl PortScan {
    #[verifier::type_invariant]
    spec fn well_formed(self) -> bool {
        self.last <= u16::MAX && self.next <= self.last + 1
    }

    /// The ports of `range`, in the order in which iterating it yields them.
    pub fn of_range(range: &RangeInclusive<u16>) -> (s: PortScan)
        ensures
            s@ == range_ports(range@),
    {
        if range_is_empty(range) {
            PortScan { next: 1, last: 0 }
        } else {
            PortScan { next: range_start(range) as u32, last: range_end(range) as u32 }
        }
    }

    /// The next port to try, if any is left.
    pub fn next_port(&mut self) -> (p: Option<u16>)
        ensures
            old(self)@.len() == 0 ==> p is None && final(self)@ == old(self)@,
            old(self)@.len() > 0 ==> p == Some(old(self)@[0]) && final(self)@
                == old(self)@.drop_first(),
    {
        proof {
            use_type_invariant(&*self);
        }
        if self.next <= self.last {
            let p = self.next as u16;
            let ghost before = self@;
            self.next = self.next + 1;
            assert(self@ =~= before.drop_first());
            Some(p)
        } else {
            None
        }
    }

    /// What follows an attempt to bind the port last handed out: listen on
    /// it when it was bound, else try the next port, and give up when none
    /// is left. Nothing is bound before the first attempt, so a scan starts
    /// with `on_bind(false)`.
    pub fn on_bind(&mut self, bound: bool) -> (s: BindStep)
        ensures
            bound ==> s == BindStep::Listen && final(self)@ == old(self)@,
            !bound && old(self)@.len() > 0 ==> s == BindStep::Try(old(self)@[0]) && final(self)@
                == old(self)@.drop_first(),
            !bound && old(self)@.len() == 0 ==> s == BindStep::NoneLeft && final(self)@ == old(
                self,
            )@,
    {
        if bound {
            BindStep::Listen
        } else {
            match self.next_port() {
                Some(p) => BindStep::Try(p),
                None => BindStep::NoneLeft,
            }
        }
    }
}

/// The step after an attempt to bind a port of a scan.
#[derive(Debug, Clone, Copy, PartialEq, Eq)]
pub enum BindStep {
    /// The port was bound: listen on it.
    Listen,
    /// Try this port next.
    Try(u16),
    /// No port of the range could be bound.
    NoneLeft,
}

/// How a node picks the port it listens on.
pub enum PortPlan {
    /// Let the system choose a free port.
    Ephemeral,
    /// Try these ports in order and take the first that can be bound.
    Scan(PortScan),
}

/// `None` for a port the system chooses, else the ports to try in order.
pub open spec fn port_plan_view(p: PortPlan) -> Option<Seq<u16>> {
    match p {
        PortPlan::Ephemeral => None,
        PortPlan::Scan(s) => Some(s@),
    }
}

/// The port plan for an optional requested range.
pub fn port_plan(range: Option<RangeInclusive<u16>>) -> (p: PortPlan)
    ensures
        port_plan_view(p) == match range {
            None => None,
            Some(r) => Some(range_ports(r@)),
        },
{
    match range {
        None => PortPlan::Ephemeral,
        Some(r) => PortPlan::Scan(PortScan::of_range(&r)),
    }
}

/// Whether a node is waiting for a peer, paired with one, or has stopped
/// listening after a failure.
#[derive(Clone, Copy, Debug, PartialEq, Eq, Structural)]
pub enum Status {
    Waiting,
    Connected,
    Failed,
}

/// Where the listener stands.
#[derive(Clone, Copy, Debug, PartialEq, Eq, Structural)]
pub enum Phase {
    /// Waiting for a connection.
    Listening,
    /// Reading the lines of a paired peer.
    InSession,
    /// Stopped after a failed accept.
    Stopped,
}

/// What the listener learns from the outside.
pub enum ListenerEvent {
    /// A connection was handled; `paired` tells whether its code matched.
    Connection { paired: bool },
    /// The paired peer sent a line.
    Line(String),
    /// The paired peer closed the connection.
    Closed,
    /// Reading from the paired peer failed.
    ReadFailed,
    /// Accepting a connection failed.
    AcceptFailed,
}

/// What the listener asks to be done next.
#[derive(Debug)]
pub enum ListenerAction {
    /// Accept the next connection.
    Accept,
    /// Read the next line of the session.
    ReadLine,
    /// Show this command (the trimmed line), then read the next line.
    ShowCommand(String),
    /// Stop: shut the advertisement down.
    Shutdown,
}

/// The view of an action, with texts as character sequences.
pub enum ActionView {
    Accept,
    ReadLine,
    ShowCommand(Seq<char>),
    Shutdown,
}

impl View for ListenerAction {
    type V = ActionView;

    open spec fn view(&self) -> ActionView {
        match self {
            ListenerAction::Accept => ActionView::Accept,
            ListenerAction::ReadLine => ActionView::ReadLine,
            ListenerAction::ShowCommand(s) => ActionView::ShowCommand(s@),
            ListenerAction::Shutdown => ActionView::Shutdown,
        }
    }
}

/// The listener's state as plain values.
pub struct ListenerView {
    pub status: Status,
    pub phase: Phase,
}

/// One step of the listener: its state after an event and what it asks for.
/// Events that cannot happen in a phase leave the state as it is and repeat
/// what that phase waits for.
pub open spec fn listener_step(s: ListenerView, e: ListenerEvent) -> (ListenerView, ActionView) {
    match s.phase {
        Phase::Listening => match e {
            ListenerEvent::Connection { paired } => if paired {
                (ListenerView { status: Status::Connected, phase: Phase::InSession }, ActionView::ReadLine)
            } else {
                (s, ActionView::Accept)
            },
            ListenerEvent::AcceptFailed => (
                ListenerView { status: Status::Failed, phase: Phase::Stopped },
                ActionView::Shutdown,
            ),
            _ => (s, ActionView::Accept),
        },
        Phase::InSession => match e {
            ListenerEvent::Line(l) => (s, ActionView::ShowCommand(trim(l@))),
            ListenerEvent::Closed => (
                ListenerView { status: Status::Waiting, phase: Phase::Listening },
                ActionView::Accept,
            ),
            ListenerEvent::ReadFailed => (
                ListenerView { status: Status::Waiting, phase: Phase::Listening },
                ActionView::Accept,
            ),
            _ => (s, ActionView::ReadLine),
        },
        Phase::Stopped => (s, ActionView::Shutdown),
    }
}

/// The status tells the phase: a node is `Connected` exactly while a paired
/// session is open, `Failed` exactly once it has stopped, and `Waiting`
/// exactly while it listens.
pub open spec fn status_matches_phase(s: ListenerView) -> bool {
    &&& (s.status == Status::Connected <==> s.phase == Phase::InSession)
    &&& (s.status == Status::Failed <==> s.phase == Phase::Stopped)
    &&& (s.status == Status::Waiting <==> s.phase == Phase::Listening)
}

/// The decisions of a pairing listener.
pub struct Listener {
    status: Status,
    phase: Phase,
}

impl View for Listener {
    type V = ListenerView;

    closed spec fn view(&self) -> ListenerView {
        ListenerView { status: self.status, phase: self.phase }
    }
}

impl Listener {
    /// A listener waiting for its first connection.
    pub fn new() -> (l: Listener)
        ensures
            l@ == fresh_listener(),
    {
        Listener { status: Status::Waiting, phase: Phase::Listening }
    }

    /// The status to publish.
    pub fn status(&self) -> (s: Status)
        ensures
            s == self@.status,
    {
        self.status
    }

    /// The phase the listener is in.
    pub fn phase(&self) -> (p: Phase)
        ensures
            p == self@.phase,
    {
        self.phase
    }

    /// Takes in one event and says what to do next.
    pub fn on_event(&mut self, e: ListenerEvent) -> (a: ListenerAction)
        ensures
            (final(self)@, a@) == listener_step(old(self)@, e),
    {
        match self.phase {
            Phase::Listening => match e {
                ListenerEvent::Connection { paired } => {
                    if paired {
                        self.status = Status::Connected;
                        self.phase = Phase::InSession;
                        ListenerAction::ReadLine
                    } else {
                        ListenerAction::Accept
                    }
                },
                ListenerEvent::AcceptFailed => {
                    self.status = Status::Failed;
                    self.phase = Phase::Stopped;
                    ListenerAction::Shutdown
                },
                _ => ListenerAction::Accept,
            },
            Phase::InSession => match e {
                ListenerEvent::Line(l) => ListenerAction::ShowCommand(trim_str(l.as_str())),
                ListenerEvent::Closed => {
                    self.status = Status::Waiting;
                    self.phase = Phase::Listening;
                    ListenerAction::Accept
                },
                ListenerEvent::ReadFailed => {
                    self.status = Status::Waiting;
                    self.phase = Phase::Listening;
                    ListenerAction::Accept
                },
                _ => ListenerAction::ReadLine,
            },
            Phase::Stopped => ListenerAction::Shutdown,
        }
    }
}

/// Every step keeps the status in line with the phase, so from a fresh
/// listener, after any sequence of events, the status tells whether a paired
/// session is open, the listener waits, or it has stopped.
pub proof fn law_status_tracks_phase(s: ListenerView, e: ListenerEvent)
    requires
        status_matches_phase(s),
    ensures
        status_matches_phase(listener_step(s, e).0),
{
}

/// The state of a listener that has just started.
pub open spec fn fresh_listener() -> ListenerView {
    ListenerView { status: Status::Waiting, phase: Phase::Listening }
}

/// The state of a fresh listener after `events`, in order.
pub open spec fn listener_after(events: Seq<ListenerEvent>) -> ListenerView
    decreases events.len(),
{
    if events.len() == 0 {
        fresh_listener()
    } else {
        listener_step(listener_after(events.drop_last()), events.last()).0
    }
}

/// The status changes a listener can make in one step: none, a waiting node
/// pairs, a paired node's peer leaves, or a waiting node fails.
pub open spec fn allowed_change(a: Status, b: Status) -> bool {
    ||| a == b
    ||| a == Status::Waiting && b == Status::Connected
    ||| a == Status::Connected && b == Status::Waiting
    ||| a == Status::Waiting && b == Status::Failed
}

/// From a fresh listener, after any sequence of events, the status tells the
/// phase; each event changes the status only by pairing (Waiting to
/// Connected), by the peer leaving (Connected to Waiting) or by a failed
/// accept (Waiting to Failed); and once Failed the listener stays as it is
/// and only asks to shut down.
pub proof fn law_listener_trace(events: Seq<ListenerEvent>)
    ensures
        status_matches_phase(listener_after(events)),
        events.len() > 0 ==> allowed_change(
            listener_after(events.drop_last()).status,
            listener_after(events).status,
        ),
        events.len() > 0 && listener_after(events.drop_last()).status == Status::Failed ==> (
        listener_after(events) == listener_after(events.drop_last()) && listener_step(
            listener_after(events.drop_last()),
            events.last(),
        ).1 == ActionView::Shutdown),
    decreases events.len(),
{
    if events.len() > 0 {
        law_listener_trace(events.drop_last());
        law_status_tracks_phase(listener_after(events.drop_last()), events.last());
    }
}

/// A peer whose first line does not trim to the node's code is answered
/// `FAIL` and nothing else, and the waiting listener stays waiting and goes
/// on to accept the next peer.
pub proof fn law_wrong_code_keeps_waiting(
    s: ListenerView,
    line: Seq<char>,
    code: Seq<char>,
    tasks: Seq<Seq<char>>,
)
    requires
        status_matches_phase(s),
        s.phase == Phase::Listening,
        trim(line) != code,
    ensures
        s.status == Status::Waiting,
        reply_text(trim(line) == code, tasks) == fail_word().push('\n'),
        listener_step(s, ListenerEvent::Connection { paired: trim(line) == code }) == (
        s,
        ActionView::Accept,
        ),
{
    seq![fail_word().push('\n')].lemma_flatten_one_element();
}

/// A stopped listener stays stopped and only asks to shut down.
pub proof fn law_stopped_is_final(s: ListenerView, e: ListenerEvent)
    requires
        s.phase == Phase::Stopped,
    ensures
        listener_step(s, e) == (s, ActionView::Shutdown),
{
}

/// A paired session stays open, with the node `Connected`, through every
/// line the peer sends, each of which is shown trimmed (an empty line as an
/// empty command); only the peer closing the connection or a failed read ends
/// it, after which the node waits for and accepts the next peer.
pub proof fn law_session_lasts_until_peer_leaves(e: ListenerEvent)
    ensures
        ({
            let s = ListenerView { status: Status::Connected, phase: Phase::InSession };
            let (t, a) = listener_step(s, e);
            &&& e matches ListenerEvent::Line(l) ==> t == s && a == ActionView::ShowCommand(trim(l@))
            &&& (e is Closed || e is ReadFailed) ==> t == (ListenerView {
                status: Status::Waiting,
                phase: Phase::Listening,
            }) && a == ActionView::Accept
            &&& !(e is Closed || e is ReadFailed) ==> t.status == Status::Connected && t.phase
                == Phase::InSession && a !is Accept && a !is Shutdown
        }),
{
}

/// A listening node whose peer offered the right code is `Connected` in a
/// session and reads the peer's first command.
pub proof fn law_pairing_opens_session(s: ListenerView)
    requires
        s.phase == Phase::Listening,
    ensures
        listener_step(s, ListenerEvent::Connection { paired: true }) == (
        ListenerView { status: Status::Connected, phase: Phase::InSession },
        ActionView::ReadLine,
        ),
{
}

} // verus!
