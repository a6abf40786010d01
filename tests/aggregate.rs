use std::str::FromStr;

use palantir::addr::IpAddress;
use palantir::aggregate::{Aggregator, Event, Peer};
use palantir::event::{Direction, RawEvent};
use palantir::net::IpProto;
use palantir::resolver::{locate, resolve_record, CityRecord, Degrees, IpInfo, LocationDetails};

const BOOT: u64 = 1_700_000_000_000_000_000;
const LOCAL: u32 = 0x5DB8_D801; // 93.184.216.1
const PEER_A: u32 = 0x0808_0808; // 8.8.8.8
const PEER_B: u32 = 0x0101_0101; // 1.1.1.1
const PEER_C: u32 = 0x0909_0909; // 9.9.9.9

fn info(tag: &str) -> IpInfo {
    IpInfo {
        lat: Degrees { bits: 1.5f64.to_bits() },
        lon: Degrees { bits: (-2.25f64).to_bits() },
        country_code: tag.to_string(),
        details: LocationDetails::RegisteredCountry,
    }
}

fn raw(src: u32, dst: u32, direction: Direction, bytes: u16, ts: u64) -> RawEvent {
    RawEvent {
        pid: 1,
        src_addr: IpAddress::V4(src),
        dst_addr: IpAddress::V4(dst),
        src_port: 443,
        dst_port: 50000,
        ts_offset_ns: ts,
        proto: IpProto::Tcp,
        fragment: false,
        last_fragment: true,
        direction,
        bytes,
    }
}

fn inbound(peer: u32, bytes: u16, ts: u64) -> RawEvent {
    raw(peer, LOCAL, Direction::Ingress, bytes, ts)
}

fn outbound(peer: u32, bytes: u16, ts: u64) -> RawEvent {
    raw(LOCAL, peer, Direction::Egress, bytes, ts)
}

fn local_peer() -> Peer {
    Peer {
        addr: IpAddress::V4(LOCAL),
        info: IpInfo {
            lat: Degrees { bits: 40.0f64.to_bits() },
            lon: Degrees { bits: 8.0f64.to_bits() },
            country_code: "US".to_string(),
            details: LocationDetails::Manual,
        },
        ingress_bytes: 0,
        egress_bytes: 0,
        last_message: None,
    }
}

fn peer_of(e: &Event) -> &Peer {
    match e {
        Event::Peer(p) => p,
        Event::Packet(_) => panic!("expected a peer event"),
    }
}

fn find(g: &Aggregator, a: u32) -> Option<Peer> {
    g.snapshot().iter().map(peer_of).find(|p| p.addr == IpAddress::V4(a)).cloned()
}

#[test]
fn first_event_creates_peer_then_packet() {
    let mut g = Aggregator::new(vec![], BOOT).unwrap();
    let ev = g.handle_resolved(&inbound(PEER_A, 100, 5), Some(info("A")));
    assert_eq!(ev.len(), 2);
    let p = peer_of(&ev[0]);
    assert_eq!(p.addr, IpAddress::V4(PEER_A));
    assert_eq!(p.ingress_bytes, 100);
    assert_eq!(p.egress_bytes, 0);
    assert_eq!(p.last_message, Some(BOOT as u128 + 5));
    match &ev[1] {
        Event::Packet(k) => {
            assert_eq!(k.bytes, 100);
            assert_eq!(k.src_addr, IpAddress::V4(PEER_A));
            assert_eq!(k.dst_addr, IpAddress::V4(LOCAL));
            assert_eq!(k.proto, IpProto::Tcp);
            assert_eq!(k.timestamp, BOOT as u128 + 5);
        }
        Event::Peer(_) => panic!("expected a packet event"),
    }
}

#[test]
fn counters_accumulate_for_the_same_peer() {
    let mut g = Aggregator::new(vec![], BOOT).unwrap();
    g.handle_resolved(&inbound(PEER_A, 100, 1), Some(info("A")));
    let ev = g.handle_resolved(&inbound(PEER_A, 250, 2), Some(info("other")));
    assert_eq!(ev.len(), 1);
    g.handle_resolved(&outbound(PEER_A, 40, 3), Some(info("A")));
    let p = find(&g, PEER_A).unwrap();
    assert_eq!(p.ingress_bytes, 350);
    assert_eq!(p.egress_bytes, 40);
    assert_eq!(p.last_message, Some(BOOT as u128 + 3));
    assert_eq!(p.info.country_code, "A");
    assert_eq!(g.peer_count(), 1);
}

#[test]
fn counters_saturate_instead_of_wrapping() {
    let mut start = local_peer();
    start.addr = IpAddress::V4(PEER_A);
    start.ingress_bytes = u64::MAX - 10;
    let mut g = Aggregator::new(vec![start], BOOT).unwrap();
    g.handle_resolved(&inbound(PEER_A, 100, 1), Some(info("A")));
    g.handle_resolved(&inbound(PEER_A, 100, 2), Some(info("A")));
    assert_eq!(find(&g, PEER_A).unwrap().ingress_bytes, u64::MAX);
}

#[test]
fn local_and_multicast_peers_are_never_recorded() {
    let mut g = Aggregator::new(vec![], BOOT).unwrap();
    for i in 0..5 {
        assert!(g.handle_resolved(&inbound(0x0A00_0005, 60, i), Some(info("x"))).is_empty());
        assert!(g.handle_resolved(&outbound(0xE000_00FB, 60, i), Some(info("x"))).is_empty());
        assert!(g.handle_resolved(&inbound(0x7F00_0001, 60, i), Some(info("x"))).is_empty());
        assert!(g.handle_resolved(&outbound(0xFFFF_FFFF, 60, i), Some(info("x"))).is_empty());
    }
    assert_eq!(g.peer_count(), 0);
    assert!(g.snapshot().is_empty());
}

#[test]
fn unresolved_peer_emits_nothing() {
    let mut g = Aggregator::new(vec![], BOOT).unwrap();
    assert!(g.handle_resolved(&inbound(PEER_A, 100, 1), None).is_empty());
    assert_eq!(g.peer_count(), 0);
    assert!(g.cached_location(IpAddress::V4(PEER_A)).is_none());
}

#[test]
fn resolved_location_is_memoised() {
    let mut g = Aggregator::new(vec![], BOOT).unwrap();
    g.handle_resolved(&inbound(PEER_A, 100, 1), Some(info("A")));
    assert_eq!(g.cached_location(IpAddress::V4(PEER_A)).unwrap().country_code, "A");
    assert!(g.cached_location(IpAddress::V4(PEER_B)).is_none());
}

#[test]
fn local_entry_mirrors_bytes() {
    let mut g = Aggregator::new(vec![local_peer()], BOOT).unwrap();
    g.handle_resolved(&outbound(PEER_A, 70, 1), Some(info("A")));
    g.handle_resolved(&inbound(PEER_A, 30, 2), Some(info("A")));
    let me = find(&g, LOCAL).unwrap();
    assert_eq!(me.ingress_bytes, 70);
    assert_eq!(me.egress_bytes, 30);
    let a = find(&g, PEER_A).unwrap();
    assert_eq!(a.egress_bytes, 70);
    assert_eq!(a.ingress_bytes, 30);
}

#[test]
fn duplicate_initial_peers_are_refused() {
    assert!(Aggregator::new(vec![local_peer(), local_peer()], BOOT).is_none());
}

#[test]
fn snapshot_then_live_events() {
    let mut g = Aggregator::new(vec![], BOOT).unwrap();
    g.handle_resolved(&inbound(PEER_A, 10, 1), Some(info("A")));
    g.handle_resolved(&outbound(PEER_B, 20, 2), Some(info("B")));
    let snap = g.snapshot();
    let addrs: Vec<IpAddress> = snap.iter().map(|e| peer_of(e).addr).collect();
    assert_eq!(addrs, vec![IpAddress::V4(PEER_A), IpAddress::V4(PEER_B)]);
    let live = g.handle_resolved(&inbound(PEER_C, 30, 3), Some(info("C")));
    assert_eq!(live.len(), 2);
    assert_eq!(peer_of(&live[0]).addr, IpAddress::V4(PEER_C));
    assert!(matches!(live[1], Event::Packet(_)));
    let after: Vec<IpAddress> = g.snapshot().iter().map(|e| peer_of(e).addr).collect();
    assert_eq!(
        after,
        vec![IpAddress::V4(PEER_A), IpAddress::V4(PEER_B), IpAddress::V4(PEER_C)]
    );
}

fn empty_record() -> CityRecord {
    CityRecord {
        latitude: None,
        longitude: None,
        accuracy_radius: None,
        country_code: None,
        city_names: None,
        registered_country_code: None,
    }
}

#[test]
fn city_record_gives_city_location() {
    let rec = CityRecord {
        latitude: Some(52.52f64.to_bits()),
        longitude: Some(13.40f64.to_bits()),
        accuracy_radius: Some(20),
        country_code: Some("DE".to_string()),
        city_names: Some(vec![
            ("de".to_string(), "Berlin (de)".to_string()),
            ("en".to_string(), "Berlin".to_string()),
        ]),
        registered_country_code: Some("FR".to_string()),
    };
    let i = resolve_record(&rec).unwrap();
    assert_eq!(i.lat, Degrees { bits: 52.52f64.to_bits() });
    assert_eq!(i.lon, Degrees { bits: 13.40f64.to_bits() });
    assert_eq!(i.country_code, "DE");
    match i.details {
        LocationDetails::City { city_name, accuracy_radius } => {
            assert_eq!(city_name, "Berlin");
            assert_eq!(accuracy_radius, 20);
        }
        _ => panic!("expected city precision"),
    }
}

#[test]
fn city_without_english_name_gets_empty_name() {
    let mut rec = empty_record();
    rec.latitude = Some(1.0f64.to_bits());
    rec.longitude = Some(2.0f64.to_bits());
    rec.accuracy_radius = Some(100);
    rec.city_names = Some(vec![("fr".to_string(), "Paris".to_string())]);
    match resolve_record(&rec).unwrap().details {
        LocationDetails::City { city_name, .. } => assert_eq!(city_name, ""),
        _ => panic!("expected city precision"),
    }
}

#[test]
fn country_only_record_falls_back_to_registered_country() {
    let mut rec = empty_record();
    rec.latitude = Some(1.0f64.to_bits());
    rec.registered_country_code = Some("DE".to_string());
    let i = resolve_record(&rec).unwrap();
    assert!(matches!(i.details, LocationDetails::RegisteredCountry));
    assert_eq!(i.country_code, "DE");
    let geo = my_country::Country::from_str("DE").unwrap().geo();
    assert_eq!(i.lat.bits, geo.latitude.unwrap().to_bits());
    assert_eq!(i.lon.bits, geo.longitude.unwrap().to_bits());
    assert_ne!(i.lat.bits, 0);
}

#[test]
fn record_with_no_data_resolves_to_nothing() {
    assert!(resolve_record(&empty_record()).is_none());
    let mut rec = empty_record();
    rec.registered_country_code = Some("QQ".to_string());
    assert!(resolve_record(&rec).is_none());
    assert!(locate(&rec, Some((Some(1), None))).is_none());
    let placed = locate(&rec, Some((Some(1), Some(2)))).unwrap();
    assert_eq!((placed.lat.bits, placed.lon.bits), (1, 2));
}

fn city_record(lat: f64) -> CityRecord {
    CityRecord {
        latitude: Some(lat.to_bits()),
        longitude: Some(2.0f64.to_bits()),
        accuracy_radius: Some(50),
        country_code: Some("FR".to_string()),
        city_names: None,
        registered_country_code: None,
    }
}

#[test]
fn lookup_is_asked_once_per_address() {
    let mut g = Aggregator::new(vec![], BOOT).unwrap();
    let first = inbound(PEER_A, 10, 1);
    assert_eq!(g.needs_lookup(&first), Some(IpAddress::V4(PEER_A)));
    assert_eq!(g.needs_lookup(&inbound(0x0A00_0001, 10, 1)), None);
    let ev = g.handle(&first, Some(city_record(48.0)));
    assert_eq!(ev.len(), 2);
    let p = peer_of(&ev[0]);
    assert_eq!(p.info.lat.bits, 48.0f64.to_bits());
    assert!(matches!(p.info.details, LocationDetails::City { accuracy_radius: 50, .. }));
    assert_eq!(g.needs_lookup(&inbound(PEER_A, 10, 2)), None);
    // The memo wins over any later record.
    g.handle(&inbound(PEER_A, 10, 2), Some(city_record(1.0)));
    assert_eq!(g.cached_location(IpAddress::V4(PEER_A)).unwrap().lat.bits, 48.0f64.to_bits());
}

#[test]
fn handle_without_location_emits_nothing() {
    let mut g = Aggregator::new(vec![], BOOT).unwrap();
    assert!(g.handle(&inbound(PEER_A, 10, 1), None).is_empty());
    assert!(g.handle(&inbound(PEER_B, 10, 1), Some(empty_record())).is_empty());
    assert!(g.handle(&inbound(0x0A00_0001, 10, 1), Some(city_record(3.0))).is_empty());
    assert_eq!(g.peer_count(), 0);
}
