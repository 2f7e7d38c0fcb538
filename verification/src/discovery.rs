//! The table of peers that a browse of the local network has found.
//!
//! A browse reports services as they resolve and as they vanish. The table
//! keeps one entry per full service name, the latest report winning, and
//! never lists the browsing node's own service: the one whose full name is
//! the node's instance name followed by a dot and the service type.

use vstd::prelude::*;
use crate::text::{
    has_prefix, lowercase, push_char, replace_char, replace_chars, starts_with, to_lowercase,
};

verus! {

/// A peer found on the network.
#[derive(Debug)]
pub struct DiscoveredNode {
    /// The full service name it advertises.
    pub name: String,
    /// One of its addresses, as text (empty when it reported none).
    pub address: String,
    /// The port its pairing listener is on.
    pub port: u16,
    /// The pairing code it advertises (empty when it advertises none).
    pub pairing_code: String,
}

/// A [`DiscoveredNode`] with its texts as character sequences.
pub struct PeerView {
    pub name: Seq<char>,
    pub address: Seq<char>,
    pub port: u16,
    pub pairing_code: Seq<char>,
}

impl View for DiscoveredNode {
    type V = PeerView;

    open spec fn view(&self) -> PeerView {
        PeerView {
            name: self.name@,
            address: self.address@,
            port: self.port,
            pairing_code: self.pairing_code@,
        }
    }
}

impl Clone for DiscoveredNode {
    fn clone(&self) -> (r: Self)
        ensures
            r@ == self@,
    {
        DiscoveredNode {
            name: self.name.clone(),
            address: self.address.clone(),
            port: self.port,
            pairing_code: self.pairing_code.clone(),
        }
    }
}

/// The instance name a node advertises under: its name in lower case with
/// spaces turned into hyphens.
pub open spec fn instance_name_of(name: Seq<char>) -> Seq<char> {
    replace_char(lowercase(name), ' ', '-')
}

/// Computes the instance name a node advertises under.
pub fn instance_name(name: &str) -> (r: String)
    ensures
        r@ == instance_name_of(name@),
{
    let lower = to_lowercase(name);
    replace_chars(lower.as_str(), ' ', '-')
}

/// What a browse of the network reports.
pub enum Sighting {
    /// A service resolved: its full name, one of its addresses if it has
    /// any, its port, and its `pairing_code` property if it has one.
    Resolved { fullname: String, address: Option<String>, port: u16, pairing_code: Option<String> },
    /// A service went away.
    Removed { fullname: String },
    /// Any other report of the browse.
    Other,
}

/// What the table did with a report.
#[derive(Debug, Clone, Copy, PartialEq, Eq)]
pub enum SightingNote {
    /// A peer was added or its entry replaced.
    Recorded,
    /// The report was of this node's own service and was left out.
    OwnService,
    /// A removal was noted (whether or not the peer was listed).
    Removed,
    /// The report carried nothing to record.
    Ignored,
}

/// The entry a resolved service gives.
pub open spec fn resolved_peer(
    fullname: Seq<char>,
    address: Option<String>,
    port: u16,
    pairing_code: Option<String>,
) -> PeerView {
    PeerView {
        name: fullname,
        address: match address {
            Some(a) => a@,
            None => Seq::empty(),
        },
        port,
        pairing_code: match pairing_code {
            Some(c) => c@,
            None => Seq::empty(),
        },
    }
}

/// What the full name of a node's own service starts with: its instance name
/// and a dot.
pub open spec fn own_service_prefix(own: Seq<char>) -> Seq<char> {
    own.push('.')
}

/// The peers after one report of a browse by a node advertising under `own`:
/// a resolved service of another node is entered under its full name
/// (replacing an older entry), a removed one is dropped, and anything else
/// leaves the peers as they are.
pub open spec fn observed(m: Map<Seq<char>, PeerView>, own: Seq<char>, s: Sighting) -> Map<
    Seq<char>,
    PeerView,
> {
    match s {
        Sighting::Resolved { fullname, address, port, pairing_code } => {
            if has_prefix(fullname@, own_service_prefix(own)) {
                m
            } else {
                m.insert(fullname@, resolved_peer(fullname@, address, port, pairing_code))
            }
        },
        Sighting::Removed { fullname } => m.remove(fullname@),
        Sighting::Other => m,
    }
}

/// What the table reports having done with a report.
pub open spec fn note_for(own: Seq<char>, s: Sighting) -> SightingNote {
    match s {
        Sighting::Resolved { fullname, .. } => {
            if has_prefix(fullname@, own_service_prefix(own)) {
                SightingNote::OwnService
            } else {
                SightingNote::Recorded
            }
        },
        Sighting::Removed { .. } => SightingNote::Removed,
        Sighting::Other => SightingNote::Ignored,
    }
}

/// A resolved service of another node is listed under its full name, with
/// the address, port and pairing code it reported (an absent address or code
/// giving the empty text); the node's own service is left out.
pub proof fn law_resolved_service_listed(
    m: Map<Seq<char>, PeerView>,
    own: Seq<char>,
    fullname: String,
    address: Option<String>,
    port: u16,
    pairing_code: Option<String>,
)
    ensures
        ({
            let after = observed(
                m,
                own,
                Sighting::Resolved { fullname, address, port, pairing_code },
            );
            if has_prefix(fullname@, own_service_prefix(own)) {
                after == m
            } else {
                &&& after.contains_key(fullname@)
                &&& after[fullname@].name == fullname@
                &&& after[fullname@].port == port
                &&& pairing_code is None ==> after[fullname@].pairing_code == Seq::<char>::empty()
                &&& pairing_code is Some ==> after[fullname@].pairing_code == pairing_code->0@
                &&& address is None ==> after[fullname@].address == Seq::<char>::empty()
                &&& address is Some ==> after[fullname@].address == address->0@
            }
        }),
        ({
            let after = observed(
                m,
                own,
                Sighting::Resolved { fullname, address, port, pairing_code },
            );
            forall|k: Seq<char>|
                k != fullname@ ==> (#[trigger] after.contains_key(k) == m.contains_key(k) && (
                m.contains_key(k) ==> after[k] == m[k]))
        }),
{
}

/// A removal report drops exactly the named service: it is no longer listed,
/// and every other peer keeps its entry (whatever address it shares with the
/// removed one).
pub proof fn law_removal_drops_only_named(m: Map<Seq<char>, PeerView>, own: Seq<char>, fullname: String)
    ensures
        ({
            let after = observed(m, own, Sighting::Removed { fullname });
            &&& !after.contains_key(fullname@)
            &&& forall|k: Seq<char>|
                k != fullname@ ==> (#[trigger] after.contains_key(k) == m.contains_key(k) && (
                m.contains_key(k) ==> after[k] == m[k]))
            &&& after == m.remove(fullname@)
        }),
{
}

/// The table tells a resolved service of its own node (whose full name starts
/// with its instance name and a dot) from one of another node, notes each
/// removal, and ignores any other report.
pub proof fn law_sighting_notes(own: Seq<char>, s: Sighting)
    ensures
        s matches Sighting::Resolved { fullname, .. } ==> note_for(own, s) == (if has_prefix(
            fullname@,
            own.push('.'),
        ) {
            SightingNote::OwnService
        } else {
            SightingNote::Recorded
        }),
        s is Removed ==> note_for(own, s) == SightingNote::Removed,
        s is Other ==> note_for(own, s) == SightingNote::Ignored,
{
}

/// A report that is neither a resolved service nor a removal leaves the
/// peers as they are.
pub proof fn law_other_reports_change_nothing(m: Map<Seq<char>, PeerView>, own: Seq<char>)
    ensures
        observed(m, own, Sighting::Other) == m,
{
}

/// The peers as a map from full name to entry, later entries winning.
pub open spec fn peer_map(s: Seq<PeerView>) -> Map<Seq<char>, PeerView>
    decreases s.len(),
{
    if s.len() == 0 {
        Map::empty()
    } else {
        peer_map(s.drop_last()).insert(s.last().name, s.last())
    }
}

/// No two entries share a name.
pub open spec fn names_unique(s: Seq<PeerView>) -> bool {
    forall|i: int, j: int| 0 <= i < s.len() && 0 <= j < s.len() && i != j ==> s[i].name != s[j].name
}

/// The names in the map are those of the entries.
pub proof fn lemma_peer_map_dom(s: Seq<PeerView>, k: Seq<char>)
    ensures
        peer_map(s).contains_key(k) <==> exists|i: int| 0 <= i < s.len() && s[i].name == k,
    decreases s.len(),
{
    if s.len() > 0 {
        lemma_peer_map_dom(s.drop_last(), k);
        if peer_map(s.drop_last()).contains_key(k) {
            let i = choose|i: int| 0 <= i < s.drop_last().len() && s.drop_last()[i].name == k;
            assert(s[i].name == k);
        }
        if exists|i: int| 0 <= i < s.len() && s[i].name == k {
            let i = choose|i: int| 0 <= i < s.len() && s[i].name == k;
            if i < s.len() - 1 {
                assert(s.drop_last()[i].name == k);
            }
        }
    }
}

/// Replacing an entry by one of the same name replaces it in the map.
pub proof fn lemma_peer_map_update(s: Seq<PeerView>, i: int, x: PeerView)
    requires
        names_unique(s),
        0 <= i < s.len(),
        s[i].name == x.name,
    ensures
        peer_map(s.update(i, x)) == peer_map(s).insert(x.name, x),
    decreases s.len(),
{
    let t = s.update(i, x);
    if i == s.len() - 1 {
        assert(t.drop_last() =~= s.drop_last());
        assert(peer_map(t) =~= peer_map(s).insert(x.name, x));
    } else {
        assert(t.drop_last() =~= s.drop_last().update(i, x));
        lemma_peer_map_update(s.drop_last(), i, x);
        assert(s.last().name != x.name);
        assert(peer_map(t) =~= peer_map(s).insert(x.name, x));
    }
}

/// Dropping an entry drops its name from the map.
pub proof fn lemma_peer_map_remove(s: Seq<PeerView>, i: int)
    requires
        names_unique(s),
        0 <= i < s.len(),
    ensures
        peer_map(s.remove(i)) == peer_map(s).remove(s[i].name),
    decreases s.len(),
{
    let k = s[i].name;
    let t = s.remove(i);
    if i == s.len() - 1 {
        assert(t =~= s.drop_last());
        lemma_peer_map_dom(s.drop_last(), k);
        assert(!peer_map(s.drop_last()).contains_key(k));
        assert(peer_map(t) =~= peer_map(s).remove(k));
    } else {
        assert(t.drop_last() =~= s.drop_last().remove(i));
        assert(t.last() == s.last());
        lemma_peer_map_remove(s.drop_last(), i);
        assert(s.last().name != k);
        assert(peer_map(t) =~= peer_map(s).remove(k));
    }
}

/// A map built from entries none of which is named with prefix `own` has no
/// such key either (`own` here is any prefix).
pub proof fn lemma_keys_not_own(s: Seq<PeerView>, own: Seq<char>)
    requires
        forall|i: int| 0 <= i < s.len() ==> !has_prefix(#[trigger] s[i].name, own),
    ensures
        forall|k: Seq<char>| #[trigger] peer_map(s).contains_key(k) ==> !has_prefix(k, own),
{
    assert forall|k: Seq<char>| #[trigger] peer_map(s).contains_key(k) implies !has_prefix(
        k,
        own,
    ) by {
        lemma_peer_map_dom(s, k);
        let i = choose|i: int| 0 <= i < s.len() && s[i].name == k;
        assert(!has_prefix(s[i].name, own));
    }
}

/// The peers that a browse has found so far.
pub struct DiscoveryTable {
    own: String,
    own_prefix: String,
    entries: Vec<DiscoveredNode>,
}

impl View for DiscoveryTable {
    type V = Map<Seq<char>, PeerView>;

    closed spec fn view(&self) -> Map<Seq<char>, PeerView> {
        peer_map(self.entries_view())
    }
}

impl DiscoveryTable {
    /// The entries in the order the table keeps them.
    pub closed spec fn entries_view(&self) -> Seq<PeerView> {
        self.entries@.map_values(|n: DiscoveredNode| n@)
    }

    /// The instance name of the browsing node; a service whose full name
    /// starts with it and a dot is its own.
    pub closed spec fn own_view(&self) -> Seq<char> {
        self.own@
    }

    /// The table lists only other nodes, each under one name: no entry's name
    /// starts with the browsing node's instance name followed by a dot (the
    /// node's own service), and no two entries share a name. Every operation
    /// keeps this.
    pub open spec fn lists_others_once(&self) -> bool {
        &&& names_unique(self.entries_view())
        &&& forall|k: Seq<char>|
            #[trigger] self@.contains_key(k) ==> !has_prefix(k, own_service_prefix(self.own_view()))
    }

    #[verifier::type_invariant]
    spec fn well_formed(self) -> bool {
        &&& names_unique(self.entries_view())
        &&& self.own_prefix@ == own_service_prefix(self.own@)
        &&& forall|i: int|
            0 <= i < self.entries_view().len() ==> !has_prefix(
                #[trigger] self.entries_view()[i].name,
                self.own_prefix@,
            )
    }

    /// An empty table for a node advertising under `own_instance`.
    pub fn new(own_instance: String) -> (t: DiscoveryTable)
        ensures
            t@ == Map::<Seq<char>, PeerView>::empty(),
            t.own_view() == own_instance@,
            t.entries_view() == Seq::<PeerView>::empty(),
            t.lists_others_once(),
    {
        let mut own_prefix = String::from_str(own_instance.as_str());
        push_char(&mut own_prefix, '.');
        let t = DiscoveryTable { own: own_instance, own_prefix, entries: Vec::new() };
        assert(t.entries_view() =~= Seq::<PeerView>::empty());
        proof {
            use_type_invariant(&t);
            lemma_keys_not_own(t.entries_view(), own_service_prefix(t.own_view()));
        }
        t
    }

    /// The instance name of the browsing node.
    pub fn own_instance(&self) -> (r: &String)
        ensures
            r@ == self.own_view(),
    {
        &self.own
    }

    /// Where the entry named `name` stands, if there is one.
    fn position(&self, name: &String) -> (r: Option<usize>)
        ensures
            match r {
                Some(i) => i < self.entries_view().len() && self.entries_view()[i as int].name
                    == name@,
                None => forall|i: int|
                    0 <= i < self.entries_view().len() ==> self.entries_view()[i].name != name@,
            },
    {
        let mut i: usize = 0;
        while i < self.entries.len()
            invariant
                i <= self.entries.len(),
                forall|j: int| 0 <= j < i ==> self.entries_view()[j].name != name@,
            decreases self.entries.len() - i,
        {
            if self.entries[i].name == *name {
                return Some(i);
            }
            i = i + 1;
        }
        None
    }

    /// Takes in one report of the browse.
    pub fn observe(&mut self, sighting: Sighting) -> (note: SightingNote)
        ensures
            final(self).own_view() == old(self).own_view(),
            final(self).lists_others_once(),
            final(self)@ == observed(old(self)@, old(self).own_view(), sighting),
            note == note_for(old(self).own_view(), sighting),
    {
        let note = self.record(sighting);
        proof {
            use_type_invariant(&*self);
            lemma_keys_not_own(self.entries_view(), own_service_prefix(self.own_view()));
        }
        note
    }

    fn record(&mut self, sighting: Sighting) -> (note: SightingNote)
        ensures
            final(self).own_view() == old(self).own_view(),
            final(self)@ == observed(old(self)@, old(self).own_view(), sighting),
            note == note_for(old(self).own_view(), sighting),
    {
        proof {
            use_type_invariant(&*self);
        }
        match sighting {
            Sighting::Resolved { fullname, address, port, pairing_code } => {
                if starts_with(fullname.as_str(), self.own_prefix.as_str()) {
                    return SightingNote::OwnService;
                }
                let node = DiscoveredNode {
                    name: fullname,
                    address: match address {
                        Some(a) => a,
                        None => String::new(),
                    },
                    port,
                    pairing_code: match pairing_code {
                        Some(c) => c,
                        None => String::new(),
                    },
                };
                let ghost old_entries = self.entries_view();
                let ghost nv = node@;
                let pos = self.position(&node.name);
                let mut entries: Vec<DiscoveredNode> = Vec::new();
                std::mem::swap(&mut entries, &mut self.entries);
                let ghost ev = entries@.map_values(|n: DiscoveredNode| n@);
                assert(ev == old_entries);
                match pos {
                    Some(i) => {
                        entries.set(i, node);
                        proof {
                            assert(entries@.map_values(|n: DiscoveredNode| n@) =~= old_entries.update(
                                i as int,
                                nv,
                            ));
                            lemma_peer_map_update(old_entries, i as int, nv);
                        }
                    },
                    None => {
                        entries.push(node);
                        proof {
                            assert(entries@.map_values(|n: DiscoveredNode| n@) =~= old_entries.push(
                                nv,
                            ));
                            assert(old_entries.push(nv).drop_last() =~= old_entries);
                        }
                    },
                }
                self.entries = entries;
                SightingNote::Recorded
            },
            Sighting::Removed { fullname } => {
                let ghost old_entries = self.entries_view();
                match self.position(&fullname) {
                    Some(i) => {
                        let mut entries: Vec<DiscoveredNode> = Vec::new();
                        std::mem::swap(&mut entries, &mut self.entries);
                        assert(entries@.map_values(|n: DiscoveredNode| n@) == old_entries);
                        entries.remove(i);
                        proof {
                            assert(entries@.map_values(|n: DiscoveredNode| n@) =~= old_entries.remove(
                                i as int,
                            ));
                            lemma_peer_map_remove(old_entries, i as int);
                        }
                        self.entries = entries;
                    },
                    None => {
                        proof {
                            lemma_peer_map_dom(old_entries, fullname@);
                            assert(self@ =~= self@.remove(fullname@));
                        }
                    },
                }
                SightingNote::Removed
            },
            Sighting::Other => SightingNote::Ignored,
        }
    }

    /// The peers found, each once.
    pub fn nodes(&self) -> (r: Vec<DiscoveredNode>)
        ensures
            r@.map_values(|n: DiscoveredNode| n@) == self.entries_view(),
            peer_map(r@.map_values(|n: DiscoveredNode| n@)) == self@,
    {
        let mut r: Vec<DiscoveredNode> = Vec::new();
        let mut i: usize = 0;
        while i < self.entries.len()
            invariant
                i <= self.entries.len(),
                r@.map_values(|n: DiscoveredNode| n@) == self.entries_view().take(i as int),
            decreases self.entries.len() - i,
        {
            let c = self.entries[i].clone();
            assert(c@ == self.entries_view()[i as int]);
            let ghost before = r@;
            r.push(c);
            assert(r@ == before.push(c));
            assert(r@.map_values(|n: DiscoveredNode| n@) =~= before.map_values(|n: DiscoveredNode| n@).push(c@));
            assert(self.entries_view().take(i + 1) =~= self.entries_view().take(i as int).push(self.entries_view()[i as int]));
            i = i + 1;
        }
        assert(self.entries_view().take(self.entries.len() as int) =~= self.entries_view());
        r
    }
}

} // verus!
