//! A node of the network: its name, its status, and what it will offer when
//! it announces itself.

use vstd::prelude::*;
use core::ops::RangeInclusive;
use vstd::std_specs::range::RangeInclusiveView;
use crate::discovery::{instance_name, instance_name_of, DiscoveryTable, PeerView};
use crate::listener::{port_plan, port_plan_view, range_ports, PortPlan, Status};
use crate::protocol::strings_view;
use crate::text::{decimal, digit_char, digit_to_char, digit_value, is_digit, push_char};

verus! {

/// A number drawn uniformly from `lo..=hi` by the thread-local generator
/// (`rand::random_range`); all that is known of it is that it lies in range.
#[verifier::external_body]
fn random_between(lo: u16, hi: u16) -> (n: u16)
    requires
        lo <= hi,
    ensures
        lo <= n <= hi,
{
    rand::random_range(lo..=hi)
}

/// The largest pairing code a node draws for itself.
pub const MAX_DRAWN_CODE: u16 = 9999;

/// `n` written with four digits, zero-padded (as `{:04}` writes numbers below
/// ten thousand).
pub open spec fn four_digits(n: nat) -> Seq<char> {
    seq![
        digit_char(n / 1000),
        digit_char((n / 100) % 10),
        digit_char((n / 10) % 10),
        digit_char(n % 10),
    ]
}

/// A code that a node may draw for itself: four digits.
pub open spec fn is_drawn_code(s: Seq<char>) -> bool {
    exists|n: nat| n <= 9999 && s == #[trigger] four_digits(n)
}

/// Writes a pairing code number with four digits.
pub fn pairing_code_text(n: u16) -> (r: String)
    requires
        n <= 9999,
    ensures
        r@ == four_digits(n as nat),
{
    let mut r = String::new();
    push_char(&mut r, digit_to_char((n / 1000) as u64));
    push_char(&mut r, digit_to_char(((n / 100) % 10) as u64));
    push_char(&mut r, digit_to_char(((n / 10) % 10) as u64));
    push_char(&mut r, digit_to_char((n % 10) as u64));
    assert(r@ =~= four_digits(n as nat));
    r
}

/// Everything a node needs to announce itself and answer pairing requests.
pub struct BroadcastPlan {
    /// The node's name, advertised as a property.
    pub name: String,
    /// The instance name it advertises under.
    pub instance: String,
    /// The code a peer must offer.
    pub pairing_code: String,
    /// How to pick the listening port.
    pub ports: PortPlan,
    /// The tasks offered to a paired peer.
    pub tasks: Vec<String>,
}

/// A node of the network.
pub struct Node {
    /// The node's name.
    pub name: String,
    /// Whether it waits for, holds, or failed to hold a pairing.
    pub status: Status,
    /// The peers it has recorded.
    pub discovered: DiscoveryTable,
    pending_port_range: Option<RangeInclusive<u16>>,
    pending_passcode: Option<String>,
    tasks: Vec<String>,
}

impl Node {
    /// The node's name.
    pub closed spec fn name_view(&self) -> Seq<char> {
        self.name@
    }

    /// The node's status.
    pub closed spec fn status_view(&self) -> Status {
        self.status
    }

    /// The peers the node has recorded.
    pub closed spec fn table_view(&self) -> DiscoveryTable {
        self.discovered
    }

    /// The range of ports requested for the next announcement.
    pub closed spec fn port_range_view(&self) -> Option<RangeInclusiveView<u16>> {
        match self.pending_port_range {
            Some(r) => Some(r@),
            None => None,
        }
    }

    /// The pairing code requested for the next announcement.
    pub closed spec fn passcode_view(&self) -> Option<Seq<char>> {
        match self.pending_passcode {
            Some(c) => Some(c@),
            None => None,
        }
    }

    /// The tasks offered to a paired peer.
    pub closed spec fn tasks_view(&self) -> Seq<Seq<char>> {
        strings_view(self.tasks@)
    }

    /// A node named `name`, or `name_override` when one is set (the
    /// `DESPEREAUX_NODE_NAME` environment variable), waiting, with nothing
    /// recorded, requested or offered.
    pub fn new(name: String, name_override: Option<String>) -> (n: Node)
        ensures
            n.name_view() == match name_override {
                Some(o) => o@,
                None => name@,
            },
            n.status_view() == Status::Waiting,
            n.table_view()@ == Map::<Seq<char>, PeerView>::empty(),
            n.table_view().own_view() == instance_name_of(n.name_view()),
            n.port_range_view() is None,
            n.passcode_view() is None,
            n.tasks_view() == Seq::<Seq<char>>::empty(),
    {
        let actual = match name_override {
            Some(o) => o,
            None => name,
        };
        let own = instance_name(actual.as_str());
        let n = Node {
            name: actual,
            status: Status::Waiting,
            discovered: DiscoveryTable::new(own),
            pending_port_range: None,
            pending_passcode: None,
            tasks: Vec::new(),
        };
        assert(n.tasks_view() =~= Seq::<Seq<char>>::empty());
        n
    }

    /// Sets the tasks offered to a paired peer.
    pub fn tasks(&mut self, tasks: Vec<String>) -> (r: &mut Self)
        ensures
            r.tasks_view() == strings_view(tasks@),
            r.name_view() == old(self).name_view(),
            r.status_view() == old(self).status_view(),
            r.table_view() == old(self).table_view(),
            r.port_range_view() == old(self).port_range_view(),
            r.passcode_view() == old(self).passcode_view(),
            *final(self) == *final(r),
    {
        self.tasks = tasks;
        self
    }

    /// Requests the range of ports to try for the next announcement.
    pub fn port_range(&mut self, range: RangeInclusive<u16>) -> (r: &mut Self)
        ensures
            r.port_range_view() == Some(range@),
            r.name_view() == old(self).name_view(),
            r.status_view() == old(self).status_view(),
            r.table_view() == old(self).table_view(),
            r.passcode_view() == old(self).passcode_view(),
            r.tasks_view() == old(self).tasks_view(),
            *final(self) == *final(r),
    {
        self.pending_port_range = Some(range);
        self
    }

    /// Requests the pairing code for the next announcement.
    pub fn passcode(&mut self, code: &str) -> (r: &mut Self)
        ensures
            r.passcode_view() == Some(code@),
            r.name_view() == old(self).name_view(),
            r.status_view() == old(self).status_view(),
            r.table_view() == old(self).table_view(),
            r.port_range_view() == old(self).port_range_view(),
            r.tasks_view() == old(self).tasks_view(),
            *final(self) == *final(r),
    {
        self.pending_passcode = Some(String::from_str(code));
        self
    }

    /// The pairing code for an announcement: the requested one, or else a
    /// drawn number written with four digits.
    pub fn choose_pairing_code(requested: Option<String>, drawn: u16) -> (c: String)
        requires
            drawn <= 9999,
        ensures
            c@ == match requested {
                Some(r) => r@,
                None => four_digits(drawn as nat),
            },
    {
        match requested {
            Some(r) => r,
            None => pairing_code_text(drawn),
        }
    }

    /// Prepares an announcement: takes the requested code (drawing one when
    /// none was requested) and the requested port range, which later
    /// announcements will not reuse.
    pub fn plan_broadcast(&mut self) -> (p: BroadcastPlan)
        ensures
            final(self).name_view() == old(self).name_view(),
            final(self).status_view() == old(self).status_view(),
            final(self).table_view() == old(self).table_view(),
            final(self).tasks_view() == old(self).tasks_view(),
            final(self).port_range_view() is None,
            final(self).passcode_view() is None,
            p.name@ == old(self).name_view(),
            p.instance@ == instance_name_of(old(self).name_view()),
            match old(self).passcode_view() {
                Some(c) => p.pairing_code@ == c,
                None => is_drawn_code(p.pairing_code@),
            },
            port_plan_view(p.ports) == match old(self).port_range_view() {
                None => None,
                Some(r) => Some(range_ports(r)),
            },
            strings_view(p.tasks@) == old(self).tasks_view(),
    {
        let requested = self.pending_passcode.take();
        let pairing_code = match requested {
            Some(c) => c,
            None => {
                let drawn = random_between(0, MAX_DRAWN_CODE);
                let c = Self::choose_pairing_code(None, drawn);
                assert(four_digits(drawn as nat) == c@);
                c
            },
        };
        let range = self.pending_port_range.take();
        let ports = port_plan(range);
        let mut tasks: Vec<String> = Vec::new();
        let mut i: usize = 0;
        while i < self.tasks.len()
            invariant
                i <= self.tasks.len(),
                strings_view(tasks@) == strings_view(self.tasks@).take(i as int),
            decreases self.tasks.len() - i,
        {
            let t = self.tasks[i].clone();
            let ghost before = tasks@;
            tasks.push(t);
            assert(strings_view(tasks@) =~= strings_view(before).push(self.tasks@[i as int]@));
            assert(strings_view(self.tasks@).take(i + 1) =~= strings_view(self.tasks@).take(
                i as int,
            ).push(self.tasks@[i as int]@));
            i = i + 1;
        }
        assert(strings_view(self.tasks@).take(self.tasks.len() as int) =~= strings_view(
            self.tasks@,
        ));
        BroadcastPlan {
            name: self.name.clone(),
            instance: instance_name(self.name.as_str()),
            pairing_code,
            ports,
            tasks,
        }
    }

    /// An empty table for a browse by this node: its own service is left out.
    pub fn browse_table(&self) -> (t: DiscoveryTable)
        ensures
            t@ == Map::<Seq<char>, PeerView>::empty(),
            t.own_view() == instance_name_of(self.name_view()),
            t.lists_others_once(),
    {
        DiscoveryTable::new(instance_name(self.name.as_str()))
    }
}

/// A drawn code is the number written with exactly four decimal digits,
/// most significant first and zero-padded: reading the digits back gives the
/// number, and from 1000 on it is the plain decimal rendering.
pub proof fn law_four_digits(n: nat)
    requires
        n <= 9999,
    ensures
        four_digits(n).len() == 4,
        forall|i: int| 0 <= i < 4 ==> is_digit(#[trigger] four_digits(n)[i]),
        digit_value(four_digits(n)[0]) * 1000 + digit_value(four_digits(n)[1]) * 100 + digit_value(
            four_digits(n)[2],
        ) * 10 + digit_value(four_digits(n)[3]) == n,
        n >= 1000 ==> four_digits(n) == decimal(n),
{
    let a = n / 1000;
    let b = (n / 100) % 10;
    let c = (n / 10) % 10;
    let d = n % 10;
    assert(a < 10 && b < 10 && c < 10 && d < 10) by (nonlinear_arith)
        requires
            n <= 9999,
            a == n / 1000,
            b == (n / 100) % 10,
            c == (n / 10) % 10,
            d == n % 10,
    ;
    assert(a * 1000 + b * 100 + c * 10 + d == n) by (nonlinear_arith)
        requires
            a == n / 1000,
            b == (n / 100) % 10,
            c == (n / 10) % 10,
            d == n % 10,
    ;
    lemma_digit_char_value(a);
    lemma_digit_char_value(b);
    lemma_digit_char_value(c);
    lemma_digit_char_value(d);
    if n >= 1000 {
        assert((n / 10) / 10 == n / 100 && (n / 100) / 10 == n / 1000 && n / 100 >= 10 && n / 10
            >= 10 && n / 1000 < 10 && (n / 100) % 10 == b && (n / 10) % 10 == c) by (nonlinear_arith)
            requires
                1000 <= n <= 9999,
                b == (n / 100) % 10,
                c == (n / 10) % 10,
        ;
        assert(decimal(n / 1000) == seq![digit_char(a)]);
        assert(decimal(n / 100) == seq![digit_char(a)].push(digit_char(b)));
        assert(decimal(n / 10) == seq![digit_char(a)].push(digit_char(b)).push(digit_char(c)));
        assert(decimal(n) =~= four_digits(n));
    }
}

/// The digit written for a value below ten is a digit of that value.
proof fn lemma_digit_char_value(d: nat)
    requires
        d < 10,
    ensures
        is_digit(digit_char(d)),
        digit_value(digit_char(d)) == d,
{
}

} // verus!
