//! The aggregation engine: turns capture records into peer bookkeeping and
//! the events that subscribers receive.
use vstd::prelude::*;

use crate::addr::IpAddress;
use crate::event::{Direction, RawEvent};
use crate::net::IpProto;
use crate::resolver::{
    has_city_location,
    info_view,
    lemma_country_fallback,
    registered_geo,
    resolve_record,
    spec_resolution,
    CityRecord,
    IpInfo,
    IpInfoView,
};

verus! {

/// A remote, globally routable address that the host exchanged traffic with.
#[derive(Debug, Clone)]
pub struct Peer {
    pub addr: IpAddress,
    /// Fixed when the peer is created.
    pub info: IpInfo,
    pub ingress_bytes: u64,
    pub egress_bytes: u64,
    /// Wall-clock time of the last packet, in nanoseconds since the Unix epoch.
    pub last_message: Option<u128>,
}

pub struct PeerView {
    pub addr: IpAddress,
    pub info: IpInfoView,
    pub ingress_bytes: u64,
    pub egress_bytes: u64,
    pub last_message: Option<u128>,
}

impl View for Peer {
    type V = PeerView;

    open spec fn view(&self) -> PeerView {
        PeerView {
            addr: self.addr,
            info: self.info@,
            ingress_bytes: self.ingress_bytes,
            egress_bytes: self.egress_bytes,
            last_message: self.last_message,
        }
    }
}

impl Peer {
    pub fn duplicate(&self) -> (r: Peer)
        ensures
            r@ == self@,
    {
        Peer {
            addr: self.addr,
            info: self.info.duplicate(),
            ingress_bytes: self.ingress_bytes,
            egress_bytes: self.egress_bytes,
            last_message: self.last_message,
        }
    }
}

/// One processed packet, as subscribers see it.
#[derive(Debug, Clone, Copy, PartialEq, Eq, Structural)]
pub struct Packet {
    pub proto: IpProto,
    pub src_addr: IpAddress,
    pub dst_addr: IpAddress,
    pub bytes: u16,
    /// Wall-clock time, in nanoseconds since the Unix epoch.
    pub timestamp: u128,
}

/// What subscribers receive.
#[derive(Debug, Clone)]
pub enum Event {
    Peer(Peer),
    Packet(Packet),
}

pub enum EventView {
    Peer(PeerView),
    Packet(Packet),
}

impl View for Event {
    type V = EventView;

    open spec fn view(&self) -> EventView {
        match self {
            Event::Peer(p) => EventView::Peer(p@),
            Event::Packet(p) => EventView::Packet(*p),
        }
    }
}

pub open spec fn events_view(s: Seq<Event>) -> Seq<EventView> {
    s.map_values(|e: Event| e@)
}

pub open spec fn peers_view(s: Seq<Peer>) -> Seq<PeerView> {
    s.map_values(|p: Peer| p@)
}

pub open spec fn sat_add(a: u64, b: u64) -> u64 {
    if a + b > u64::MAX {
        u64::MAX
    } else {
        (a + b) as u64
    }
}

/// Whether a record's remote endpoint may become a peer.
pub open spec fn qualifies(raw: RawEvent) -> bool {
    !raw.spec_peer_addr().spec_is_multicast() && raw.spec_peer_addr().spec_is_global()
}

pub open spec fn has_addr(s: Seq<PeerView>, a: IpAddress) -> bool {
    exists|i: int| 0 <= i < s.len() && s[i].addr == a
}

/// Where `a` stands in `s`; meaningful when `has_addr(s, a)`.
pub open spec fn addr_pos(s: Seq<PeerView>, a: IpAddress) -> int {
    choose|i: int| 0 <= i < s.len() && s[i].addr == a
}

/// No address is listed twice.
pub open spec fn unique_addrs(s: Seq<PeerView>) -> bool {
    forall|i: int, j: int| 0 <= i < s.len() && 0 <= j < s.len() && s[i].addr == s[j].addr ==> i == j
}

pub open spec fn cache_has(c: Seq<(IpAddress, IpInfoView)>, a: IpAddress) -> bool {
    exists|i: int| 0 <= i < c.len() && c[i].0 == a
}

pub open spec fn cache_pos(c: Seq<(IpAddress, IpInfoView)>, a: IpAddress) -> int {
    choose|i: int| 0 <= i < c.len() && c[i].0 == a
}

pub open spec fn unique_keys(c: Seq<(IpAddress, IpInfoView)>) -> bool {
    forall|i: int, j: int| 0 <= i < c.len() && 0 <= j < c.len() && c[i].0 == c[j].0 ==> i == j
}

/// The memoised location of `a`, if any.
pub open spec fn cached(c: Seq<(IpAddress, IpInfoView)>, a: IpAddress) -> Option<IpInfoView> {
    if cache_has(c, a) {
        Some(c[cache_pos(c, a)].1)
    } else {
        None
    }
}

/// The peer after one packet from its side of view: bytes that came from it
/// count as ingress, bytes sent to it as egress.
pub open spec fn credit(p: PeerView, raw: RawEvent, now: u128) -> PeerView {
    PeerView {
        ingress_bytes: if raw.direction == Direction::Ingress {
            sat_add(p.ingress_bytes, raw.bytes as u64)
        } else {
            p.ingress_bytes
        },
        egress_bytes: if raw.direction == Direction::Egress {
            sat_add(p.egress_bytes, raw.bytes as u64)
        } else {
            p.egress_bytes
        },
        last_message: Some(now),
        ..p
    }
}

/// The local endpoint's entry after one packet: the same bytes, counted in
/// the opposite direction.
pub open spec fn credit_local(p: PeerView, raw: RawEvent, now: u128) -> PeerView {
    PeerView {
        ingress_bytes: if raw.direction == Direction::Egress {
            sat_add(p.ingress_bytes, raw.bytes as u64)
        } else {
            p.ingress_bytes
        },
        egress_bytes: if raw.direction == Direction::Ingress {
            sat_add(p.egress_bytes, raw.bytes as u64)
        } else {
            p.egress_bytes
        },
        last_message: Some(now),
        ..p
    }
}

pub open spec fn fresh_peer(a: IpAddress, info: IpInfoView) -> PeerView {
    PeerView { addr: a, info, ingress_bytes: 0, egress_bytes: 0, last_message: None }
}

/// The table after the remote endpoint's entry was created if missing, then credited.
pub open spec fn credit_peer_in(s: Seq<PeerView>, raw: RawEvent, info: IpInfoView, now: u128) -> Seq<
    PeerView,
> {
    let a = raw.spec_peer_addr();
    if has_addr(s, a) {
        s.update(addr_pos(s, a), credit(s[addr_pos(s, a)], raw, now))
    } else {
        s.push(credit(fresh_peer(a, info), raw, now))
    }
}

/// The table after the local endpoint's entry, if there is one, was credited.
pub open spec fn credit_local_in(s: Seq<PeerView>, raw: RawEvent, now: u128) -> Seq<PeerView> {
    let a = raw.spec_local_addr();
    if has_addr(s, a) {
        s.update(addr_pos(s, a), credit_local(s[addr_pos(s, a)], raw, now))
    } else {
        s
    }
}

pub open spec fn packet_of(raw: RawEvent, now: u128) -> Packet {
    Packet {
        proto: raw.proto,
        src_addr: raw.src_addr,
        dst_addr: raw.dst_addr,
        bytes: raw.bytes,
        timestamp: now,
    }
}

/// The location of `a`: the memoised one if there is one, else what the
/// fallback chain gives for the database record.
pub open spec fn location_for(
    c: Seq<(IpAddress, IpInfoView)>,
    a: IpAddress,
    record: Option<CityRecord>,
) -> Option<IpInfoView> {
    if cache_has(c, a) {
        cached(c, a)
    } else {
        match record {
            Some(rec) => spec_resolution(rec),
            None => None,
        }
    }
}

/// Each peer as a peer event.
pub open spec fn peer_events(s: Seq<PeerView>) -> Seq<EventView> {
    s.map_values(|p: PeerView| EventView::Peer(p))
}

fn credit_exec(p: &mut Peer, raw: &RawEvent, now: u128)
    ensures
        final(p)@ == credit(old(p)@, *raw, now),
{
    let b = raw.bytes as u64;
    match raw.direction {
        Direction::Ingress => p.ingress_bytes = p.ingress_bytes.saturating_add(b),
        Direction::Egress => p.egress_bytes = p.egress_bytes.saturating_add(b),
    }
    p.last_message = Some(now);
}

fn credit_local_exec(p: &mut Peer, raw: &RawEvent, now: u128)
    ensures
        final(p)@ == credit_local(old(p)@, *raw, now),
{
    let b = raw.bytes as u64;
    match raw.direction {
        Direction::Ingress => p.egress_bytes = p.egress_bytes.saturating_add(b),
        Direction::Egress => p.ingress_bytes = p.ingress_bytes.saturating_add(b),
    }
    p.last_message = Some(now);
}

/// The aggregator's state, as contracts see it.
pub struct AggregatorView {
    pub peers: Seq<PeerView>,
    pub cache: Seq<(IpAddress, IpInfoView)>,
    pub boot_time_ns: u64,
}

/// One record processed against state `s`, with `resolved` the location of its
/// remote endpoint: the next state and the events emitted. A record whose remote
/// endpoint is multicast or not global, or has no location, changes nothing and
/// emits nothing. Otherwise the location is memoised, the peer is created if new
/// (emitting it) and credited, the local endpoint's entry is credited if it
/// exists, and a packet event is emitted.
pub open spec fn spec_step(s: AggregatorView, raw: RawEvent, resolved: Option<IpInfoView>) -> (
    AggregatorView,
    Seq<EventView>,
) {
    let a = raw.spec_peer_addr();
    if !qualifies(raw) || resolved is None {
        (s, Seq::empty())
    } else {
        let info = resolved.unwrap();
        let now = raw.spec_timestamp(s.boot_time_ns) as u128;
        let cache = if cache_has(s.cache, a) {
            s.cache
        } else {
            s.cache.push((a, info))
        };
        let peers1 = credit_peer_in(s.peers, raw, info, now);
        let peers2 = credit_local_in(peers1, raw, now);
        let packet = EventView::Packet(packet_of(raw, now));
        let events = if has_addr(s.peers, a) {
            seq![packet]
        } else {
            seq![EventView::Peer(peers1.last()), packet]
        };
        (AggregatorView { peers: peers2, cache, boot_time_ns: s.boot_time_ns }, events)
    }
}

/// The peer table, the location memo, and the wall-clock time of boot.
pub struct Aggregator {
    peers: Vec<Peer>,
    cache: Vec<(IpAddress, IpInfo)>,
    boot_time_ns: u64,
}

impl View for Aggregator {
    type V = AggregatorView;

    closed spec fn view(&self) -> AggregatorView {
        AggregatorView {
            peers: peers_view(self.peers@),
            cache: self.cache@.map_values(|e: (IpAddress, IpInfo)| (e.0, e.1@)),
            boot_time_ns: self.boot_time_ns,
        }
    }
}

impl Aggregator {
    pub open spec fn wf(&self) -> bool {
        &&& unique_addrs(self@.peers)
        &&& unique_keys(self@.cache)
    }

    /// A table holding `initial` (the local observer, for one), with an empty
    /// memo; `boot_time_ns` is the wall-clock time of boot.
    pub fn new(initial: Vec<Peer>, boot_time_ns: u64) -> (r: Option<Aggregator>)
        ensures
            r is Some <==> unique_addrs(peers_view(initial@)),
            r matches Some(g) ==> {
                &&& g.wf()
                &&& g@.peers == peers_view(initial@)
                &&& g@.cache == Seq::<(IpAddress, IpInfoView)>::empty()
                &&& g@.boot_time_ns == boot_time_ns
            },
    {
        let ghost pv = peers_view(initial@);
        let mut i: usize = 0;
        while i < initial.len()
            invariant
                i <= initial@.len(),
                pv == peers_view(initial@),
                forall|j: int, k: int|
                    0 <= j < i && 0 <= k < pv.len() && pv[j].addr == pv[k].addr ==> j == k,
            decreases initial.len() - i,
        {
            let mut k: usize = 0;
            while k < initial.len()
                invariant
                    i < initial@.len(),
                    k <= initial@.len(),
                    pv == peers_view(initial@),
                    forall|j: int, m: int|
                        0 <= j < i && 0 <= m < pv.len() && pv[j].addr == pv[m].addr ==> j == m,
                    forall|m: int| 0 <= m < k && pv[i as int].addr == pv[m].addr ==> i == m,
                decreases initial.len() - k,
            {
                if k != i && initial[k].addr == initial[i].addr {
                    assert(pv[k as int].addr == pv[i as int].addr);
                    return None;
                }
                k = k + 1;
            }
            i = i + 1;
        }
        let g = Aggregator { peers: initial, cache: Vec::new(), boot_time_ns };
        assert(g@.cache =~= Seq::<(IpAddress, IpInfoView)>::empty());
        Some(g)
    }

    fn find_peer(&self, a: IpAddress) -> (r: Option<usize>)
        requires
            self.wf(),
        ensures
            r is Some <==> has_addr(self@.peers, a),
            r matches Some(i) ==> i < self@.peers.len() && i == addr_pos(self@.peers, a),
    {
        let mut i: usize = 0;
        while i < self.peers.len()
            invariant
                self.wf(),
                i <= self@.peers.len(),
                self@.peers.len() == self.peers@.len(),
                forall|j: int| 0 <= j < i ==> self@.peers[j].addr != a,
            decreases self.peers.len() - i,
        {
            if self.peers[i].addr == a {
                assert(self@.peers[i as int].addr == a);
                assert(has_addr(self@.peers, a));
                let ghost p = addr_pos(self@.peers, a);
                assert(self@.peers[p].addr == a);
                return Some(i);
            }
            i = i + 1;
        }
        None
    }

    /// The memoised location of `a`, if it was resolved before.
    pub fn cached_location(&self, a: IpAddress) -> (r: Option<IpInfo>)
        requires
            self.wf(),
        ensures
            info_view(r) == cached(self@.cache, a),
    {
        let mut i: usize = 0;
        while i < self.cache.len()
            invariant
                self.wf(),
                i <= self@.cache.len(),
                self@.cache.len() == self.cache@.len(),
                forall|j: int| 0 <= j < i ==> self@.cache[j].0 != a,
            decreases self.cache.len() - i,
        {
            if self.cache[i].0 == a {
                assert(self@.cache[i as int].0 == a);
                assert(cache_has(self@.cache, a));
                let ghost p = cache_pos(self@.cache, a);
                assert(self@.cache[p].0 == a);
                return Some(self.cache[i].1.duplicate());
            }
            i = i + 1;
        }
        None
    }

    /// Processes one record, given the location of its remote endpoint
    /// (`None` when it has none). See `spec_step`.
    pub fn handle_resolved(&mut self, raw: &RawEvent, resolved: Option<IpInfo>) -> (r: Vec<Event>)
        requires
            old(self).wf(),
        ensures
            final(self).wf(),
            spec_step(old(self)@, *raw, info_view(resolved)) == (final(self)@, events_view(r@)),
    {
        let a = raw.peer_addr();
        if a.is_multicast() || !a.is_global() {
            let none: Vec<Event> = Vec::new();
            assert(events_view(none@) =~= Seq::<EventView>::empty());
            return none;
        }
        let info = match resolved {
            Some(i) => i,
            None => {
                let none: Vec<Event> = Vec::new();
                assert(events_view(none@) =~= Seq::<EventView>::empty());
                return none;
            },
        };
        let ghost s0 = self@;
        let now = raw.timestamp(self.boot_time_ns);
        match self.cached_location(a) {
            Some(_) => {},
            None => {
                self.cache.push((a, info.duplicate()));
                assert(self@.cache =~= s0.cache.push((a, info@)));
            },
        }
        assert(unique_keys(self@.cache));
        let ghost peers1 = credit_peer_in(s0.peers, *raw, info@, now);
        let mut events: Vec<Event> = Vec::new();
        match self.find_peer(a) {
            Some(i) => {
                credit_exec(&mut self.peers[i], raw, now);
                assert(self@.peers =~= peers1);
            },
            None => {
                let mut p = Peer { addr: a, info, ingress_bytes: 0, egress_bytes: 0, last_message: None };
                credit_exec(&mut p, raw, now);
                events.push(Event::Peer(p.duplicate()));
                self.peers.push(p);
                assert(self@.peers =~= peers1);
            },
        }
        assert(unique_addrs(self@.peers));
        let ghost peers2 = credit_local_in(peers1, *raw, now);
        match self.find_peer(raw.local_addr()) {
            Some(j) => {
                credit_local_exec(&mut self.peers[j], raw, now);
                assert(self@.peers =~= peers2);
            },
            None => {},
        }
        assert(unique_addrs(self@.peers));
        let packet = Packet {
            proto: raw.proto,
            src_addr: raw.src_addr,
            dst_addr: raw.dst_addr,
            bytes: raw.bytes,
            timestamp: now,
        };
        events.push(Event::Packet(packet));
        proof {
            let (s1, ev) = spec_step(s0, *raw, Some(info@));
            assert(s1.peers == self@.peers);
            assert(events_view(events@) =~= ev);
        }
        events
    }

    /// The address to look up in the city database before `handle` processes
    /// `raw`: its remote endpoint, when that is global, not multicast and not
    /// yet memoised. Otherwise `handle` needs no database record.
    pub fn needs_lookup(&self, raw: &RawEvent) -> (r: Option<IpAddress>)
        requires
            self.wf(),
        ensures
            r == (if qualifies(*raw) && !cache_has(self@.cache, raw.spec_peer_addr()) {
                Some(raw.spec_peer_addr())
            } else {
                None::<IpAddress>
            }),
    {
        let a = raw.peer_addr();
        if a.is_multicast() || !a.is_global() {
            return None;
        }
        match self.cached_location(a) {
            Some(_) => None,
            None => Some(a),
        }
    }

    /// Processes one record. `record` is what the city database holds for its
    /// remote endpoint (`None` when it holds nothing, or when `needs_lookup`
    /// asked for no lookup). The endpoint's location is the memoised one if
    /// there is one, else what the fallback chain gives for `record`; then
    /// the record proceeds as in `handle_resolved`.
    pub fn handle(&mut self, raw: &RawEvent, record: Option<CityRecord>) -> (r: Vec<Event>)
        requires
            old(self).wf(),
        ensures
            final(self).wf(),
            spec_step(
                old(self)@,
                *raw,
                location_for(old(self)@.cache, raw.spec_peer_addr(), record),
            ) == (final(self)@, events_view(r@)),
    {
        let a = raw.peer_addr();
        if a.is_multicast() || !a.is_global() {
            let none: Vec<Event> = Vec::new();
            assert(events_view(none@) =~= Seq::<EventView>::empty());
            return none;
        }
        let resolved = match self.cached_location(a) {
            Some(i) => Some(i),
            None => match &record {
                Some(rec) => resolve_record(rec),
                None => None,
            },
        };
        self.handle_resolved(raw, resolved)
    }

    /// The current peers, each as a peer event, in table order: the order in
    /// which they were first seen.
    pub fn snapshot(&self) -> (r: Vec<Event>)
        ensures
            events_view(r@) == peer_events(self@.peers),
    {
        let mut out: Vec<Event> = Vec::new();
        let mut i: usize = 0;
        while i < self.peers.len()
            invariant
                i <= self.peers@.len(),
                events_view(out@) =~= peer_events(self@.peers.subrange(0, i as int)),
            decreases self.peers.len() - i,
        {
            let e = Event::Peer(self.peers[i].duplicate());
            assert(e@ == EventView::Peer(self@.peers[i as int]));
            let ghost before = out@;
            out.push(e);
            assert(events_view(out@) =~= events_view(before).push(e@));
            i = i + 1;
            assert(self@.peers.subrange(0, i as int) =~= self@.peers.subrange(0, i - 1).push(
                self@.peers[i - 1],
            ));
            assert(events_view(out@) =~= peer_events(self@.peers.subrange(0, i as int)));
        }
        assert(self@.peers.subrange(0, i as int) =~= self@.peers);
        out
    }

    /// How many peers the table holds.
    pub fn peer_count(&self) -> (r: usize)
        ensures
            r == self@.peers.len(),
    {
        self.peers.len()
    }
}

/// The bytes a record adds to its remote endpoint's ingress counter.
pub open spec fn ingress_of(raw: RawEvent) -> u64 {
    if raw.direction == Direction::Ingress {
        raw.bytes as u64
    } else {
        0
    }
}

/// The bytes a record adds to its remote endpoint's egress counter.
pub open spec fn egress_of(raw: RawEvent) -> u64 {
    if raw.direction == Direction::Egress {
        raw.bytes as u64
    } else {
        0
    }
}

proof fn lemma_pos(s: Seq<PeerView>, a: IpAddress, i: int)
    requires
        unique_addrs(s),
        0 <= i < s.len(),
        s[i].addr == a,
    ensures
        has_addr(s, a),
        addr_pos(s, a) == i,
{
    assert(has_addr(s, a));
    let p = addr_pos(s, a);
    assert(s[p].addr == a);
}

proof fn lemma_credit_peer_in(s: Seq<PeerView>, raw: RawEvent, info: IpInfoView, now: u128)
    requires
        unique_addrs(s),
    ensures
        ({
            let t = credit_peer_in(s, raw, info, now);
            let a = raw.spec_peer_addr();
            let base = if has_addr(s, a) {
                s[addr_pos(s, a)]
            } else {
                fresh_peer(a, info)
            };
            &&& unique_addrs(t)
            &&& has_addr(t, a)
            &&& t[addr_pos(t, a)] == credit(base, raw, now)
            &&& t.len() == if has_addr(s, a) {
                s.len()
            } else {
                s.len() + 1
            }
            &&& forall|j: int| 0 <= j < s.len() ==> t[j].addr == s[j].addr
            &&& forall|j: int| 0 <= j < s.len() && s[j].addr != a ==> t[j] == s[j]
            &&& !has_addr(s, a) ==> t.last().addr == a
        }),
{
    let t = credit_peer_in(s, raw, info, now);
    let a = raw.spec_peer_addr();
    if has_addr(s, a) {
        let p = addr_pos(s, a);
        assert(s[p].addr == a);
        lemma_pos(t, a, p);
    } else {
        assert forall|i: int, j: int|
            0 <= i < t.len() && 0 <= j < t.len() && t[i].addr == t[j].addr implies i == j by {
            if i < s.len() && j == s.len() {
                assert(s[i].addr == a);
            } else if j < s.len() && i == s.len() {
                assert(s[j].addr == a);
            }
        }
        lemma_pos(t, a, s.len() as int);
    }
}

proof fn lemma_credit_local_in(s: Seq<PeerView>, raw: RawEvent, now: u128)
    requires
        unique_addrs(s),
    ensures
        ({
            let t = credit_local_in(s, raw, now);
            &&& unique_addrs(t)
            &&& t.len() == s.len()
            &&& forall|j: int| 0 <= j < s.len() ==> t[j].addr == s[j].addr
            &&& forall|j: int| 0 <= j < s.len() && s[j].addr != raw.spec_local_addr() ==> t[j] == s[j]
        }),
{
    let a = raw.spec_local_addr();
    if has_addr(s, a) {
        let p = addr_pos(s, a);
        assert(s[p].addr == a);
    }
}

/// The peer table after one step keeps every entry it had, at the same place
/// and under the same address, and stays free of duplicates; a new entry can
/// only be the record's remote endpoint, at the end.
pub proof fn lemma_step_keeps_order(s: AggregatorView, raw: RawEvent, resolved: Option<IpInfoView>)
    requires
        unique_addrs(s.peers),
    ensures
        ({
            let t = spec_step(s, raw, resolved).0.peers;
            &&& unique_addrs(t)
            &&& s.peers.len() <= t.len() <= s.peers.len() + 1
            &&& forall|j: int| 0 <= j < s.peers.len() ==> t[j].addr == s.peers[j].addr
            &&& forall|j: int|
                s.peers.len() <= j < t.len() ==> t[j].addr == raw.spec_peer_addr() && qualifies(raw)
        }),
{
    if qualifies(raw) && resolved is Some {
        let now = raw.spec_timestamp(s.boot_time_ns) as u128;
        let info = resolved.unwrap();
        lemma_credit_peer_in(s.peers, raw, info, now);
        let t1 = credit_peer_in(s.peers, raw, info, now);
        lemma_credit_local_in(t1, raw, now);
    }
}

/// Records processed one after another, each with the location of its remote endpoint.
pub open spec fn run(s: AggregatorView, steps: Seq<(RawEvent, Option<IpInfoView>)>) -> AggregatorView
    decreases steps.len(),
{
    if steps.len() == 0 {
        s
    } else {
        run(spec_step(s, steps[0].0, steps[0].1).0, steps.drop_first())
    }
}

/// However many records are processed, multicast and non-global addresses
/// never get an entry: every entry was in the table from the start or is a
/// global, non-multicast address.
pub proof fn lemma_only_global_peers(s: AggregatorView, steps: Seq<(RawEvent, Option<IpInfoView>)>)
    requires
        unique_addrs(s.peers),
    ensures
        unique_addrs(run(s, steps).peers),
        forall|j: int|
            0 <= j < run(s, steps).peers.len() ==> has_addr(s.peers, #[trigger] run(s, steps).peers[j].addr)
                || (run(s, steps).peers[j].addr.spec_is_global()
                && !run(s, steps).peers[j].addr.spec_is_multicast()),
    decreases steps.len(),
{
    if steps.len() > 0 {
        let (raw, res) = steps[0];
        let s1 = spec_step(s, raw, res).0;
        lemma_step_keeps_order(s, raw, res);
        lemma_only_global_peers(s1, steps.drop_first());
        let t = run(s, steps);
        assert(t == run(s1, steps.drop_first()));
        assert forall|j: int| 0 <= j < t.peers.len() implies has_addr(s.peers, #[trigger] t.peers[j].addr)
            || (t.peers[j].addr.spec_is_global() && !t.peers[j].addr.spec_is_multicast()) by {
            let a = t.peers[j].addr;
            if has_addr(s1.peers, a) && !(a.spec_is_global() && !a.spec_is_multicast()) {
                let k = addr_pos(s1.peers, a);
                assert(s1.peers[k].addr == a);
                if k < s.peers.len() {
                    assert(s.peers[k].addr == a);
                }
            }
        }
    }
}

/// A record whose remote endpoint is multicast or not global changes nothing
/// and emits nothing, whatever location it comes with: subscribers receive
/// neither a peer nor a packet event for it.
pub proof fn lemma_nonglobal_is_silent(s: AggregatorView, raw: RawEvent, resolved: Option<IpInfoView>)
    requires
        raw.spec_peer_addr().spec_is_multicast() || !raw.spec_peer_addr().spec_is_global(),
    ensures
        spec_step(s, raw, resolved) == (s, Seq::<EventView>::empty()),
{
}

/// However many records with a multicast or non-global remote endpoint are
/// processed, the state does not change.
pub proof fn lemma_nonglobal_run_is_silent(s: AggregatorView, steps: Seq<(RawEvent, Option<IpInfoView>)>)
    requires
        forall|i: int| 0 <= i < steps.len() ==> !qualifies(#[trigger] steps[i].0),
    ensures
        run(s, steps) == s,
    decreases steps.len(),
{
    if steps.len() > 0 {
        assert(!qualifies(steps[0].0));
        assert forall|i: int| 0 <= i < steps.drop_first().len() implies !qualifies(
            #[trigger] steps.drop_first()[i].0,
        ) by {
            assert(steps.drop_first()[i] == steps[i + 1]);
        }
        lemma_nonglobal_run_is_silent(s, steps.drop_first());
    }
}

/// Two records for the same remote endpoint, each with a location, add their
/// bytes to that peer's counters: ingress bytes to the ingress counter, egress
/// bytes to the egress counter, saturating at the maximum instead of wrapping.
/// The start is the peer's entry if it had one, else zero counters.
pub proof fn lemma_counters_accumulate(
    s: AggregatorView,
    r1: RawEvent,
    i1: IpInfoView,
    r2: RawEvent,
    i2: IpInfoView,
)
    requires
        unique_addrs(s.peers),
        qualifies(r1),
        qualifies(r2),
        r1.spec_peer_addr() == r2.spec_peer_addr(),
        r1.spec_local_addr() != r1.spec_peer_addr(),
        r2.spec_local_addr() != r2.spec_peer_addr(),
    ensures
        ({
            let a = r1.spec_peer_addr();
            let t = spec_step(spec_step(s, r1, Some(i1)).0, r2, Some(i2)).0.peers;
            let base = if has_addr(s.peers, a) {
                s.peers[addr_pos(s.peers, a)]
            } else {
                fresh_peer(a, i1)
            };
            &&& has_addr(t, a)
            &&& t[addr_pos(t, a)].ingress_bytes == sat_add(
                sat_add(base.ingress_bytes, ingress_of(r1)),
                ingress_of(r2),
            )
            &&& t[addr_pos(t, a)].egress_bytes == sat_add(
                sat_add(base.egress_bytes, egress_of(r1)),
                egress_of(r2),
            )
        }),
{
    let a = r1.spec_peer_addr();
    let s1 = spec_step(s, r1, Some(i1)).0;
    let now1 = r1.spec_timestamp(s.boot_time_ns) as u128;
    let now2 = r2.spec_timestamp(s1.boot_time_ns) as u128;
    lemma_credit_peer_in(s.peers, r1, i1, now1);
    let p1 = credit_peer_in(s.peers, r1, i1, now1);
    lemma_credit_local_in(p1, r1, now1);
    let k1 = addr_pos(p1, a);
    assert(p1[k1].addr == a);
    lemma_pos(s1.peers, a, k1);
    lemma_credit_peer_in(s1.peers, r2, i2, now2);
    let p2 = credit_peer_in(s1.peers, r2, i2, now2);
    lemma_credit_local_in(p2, r2, now2);
    let t = spec_step(s1, r2, Some(i2)).0.peers;
    let k2 = addr_pos(p2, a);
    assert(p2[k2].addr == a);
    lemma_pos(t, a, k2);
}

/// A subscriber that takes the snapshot of a table and then receives the
/// events of a record for a new peer C sees exactly: every peer of the table in
/// table order, then C, then the packet. The next snapshot lists the same
/// peers in the same order, followed by C.
pub proof fn lemma_snapshot_then_live(s: AggregatorView, raw: RawEvent, info: IpInfoView)
    requires
        unique_addrs(s.peers),
        qualifies(raw),
        !has_addr(s.peers, raw.spec_peer_addr()),
        raw.spec_local_addr() != raw.spec_peer_addr(),
    ensures
        ({
            let now = raw.spec_timestamp(s.boot_time_ns) as u128;
            let c = credit(fresh_peer(raw.spec_peer_addr(), info), raw, now);
            let (t, live) = spec_step(s, raw, Some(info));
            &&& peer_events(s.peers) + live == peer_events(s.peers) + seq![
                EventView::Peer(c),
                EventView::Packet(packet_of(raw, now)),
            ]
            &&& t.peers.len() == s.peers.len() + 1
            &&& forall|j: int| 0 <= j < s.peers.len() ==> t.peers[j].addr == s.peers[j].addr
            &&& t.peers.last() == c
        }),
{
    let now = raw.spec_timestamp(s.boot_time_ns) as u128;
    lemma_credit_peer_in(s.peers, raw, info, now);
    let p1 = credit_peer_in(s.peers, raw, info, now);
    lemma_credit_local_in(p1, raw, now);
    assert(p1.last().addr == raw.spec_peer_addr());
}

/// A record whose remote endpoint has no location in either layer changes
/// nothing and emits nothing.
pub proof fn lemma_unresolvable_is_silent(s: AggregatorView, raw: RawEvent, rec: CityRecord)
    requires
        !has_city_location(rec),
        !(rec.registered_country_code is Some && (registered_geo(rec) matches Some((Some(_), Some(_))))),
    ensures
        spec_step(s, raw, spec_resolution(rec)) == (s, Seq::<EventView>::empty()),
{
    lemma_country_fallback(rec);
}

} // verus!
