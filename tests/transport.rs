use palantir::addr::IpAddress;
use palantir::event::{tc_egress, tc_ingress, Direction, RawEvent, TC_ACT_OK};
use palantir::net::IpProto;
use palantir::transport::EventRing;

fn record(bytes: u16) -> RawEvent {
    RawEvent {
        pid: 9,
        src_addr: IpAddress::V4(0x0808_0808),
        dst_addr: IpAddress::V4(0x0A00_0001),
        src_port: 53,
        dst_port: 40000,
        ts_offset_ns: 1,
        proto: IpProto::Udp,
        fragment: false,
        last_fragment: true,
        direction: Direction::Ingress,
        bytes,
    }
}

fn udp_frame() -> Vec<u8> {
    let mut f = vec![0u8; 12];
    f.extend_from_slice(&[0x08, 0x00]);
    f.extend_from_slice(&[0x45, 0, 0, 36, 0, 0, 0, 0, 64, 17, 0, 0]);
    f.extend_from_slice(&[8, 8, 4, 4, 10, 0, 0, 9]);
    f.extend_from_slice(&[0, 53, 0x9c, 0x40, 0, 16, 0, 0]);
    f
}

#[test]
fn ring_keeps_order_and_drops_when_full() {
    let mut ring = EventRing::new(2);
    assert!(ring.submit(record(1)));
    assert!(ring.submit(record(2)));
    assert!(!ring.submit(record(3)));
    assert_eq!(ring.len(), 2);
    assert_eq!(ring.dropped(), 1);
    let got: Vec<u16> = ring.drain().iter().map(|r| r.bytes).collect();
    assert_eq!(got, vec![1, 2]);
    assert_eq!(ring.len(), 0);
    assert_eq!(ring.capacity(), 2);
    assert!(ring.submit(record(4)));
}

#[test]
fn probes_submit_decoded_frames_and_always_pass() {
    let mut ring = EventRing::new(4);
    assert_eq!(tc_ingress(&udp_frame(), 5, 1000, &mut ring), TC_ACT_OK);
    assert_eq!(tc_egress(&udp_frame(), 6, 2000, &mut ring), TC_ACT_OK);
    assert_eq!(tc_ingress(&[0u8; 10], 5, 1000, &mut ring), TC_ACT_OK);
    let got = ring.drain();
    assert_eq!(got.len(), 2);
    assert_eq!(got[0].direction, Direction::Ingress);
    assert_eq!(got[0].peer_addr(), IpAddress::V4(0x0808_0404));
    assert_eq!((got[0].src_port, got[0].dst_port), (53, 40000));
    assert_eq!(got[0].bytes, 36);
    assert_eq!(got[1].direction, Direction::Egress);
    assert_eq!(got[1].peer_addr(), IpAddress::V4(0x0A00_0009));
    assert_eq!(got[1].pid, 6);
}

#[test]
fn probe_on_full_ring_drops() {
    let mut ring = EventRing::new(1);
    assert_eq!(tc_ingress(&udp_frame(), 5, 1, &mut ring), TC_ACT_OK);
    assert_eq!(tc_ingress(&udp_frame(), 5, 2, &mut ring), TC_ACT_OK);
    assert_eq!(ring.len(), 1);
    assert_eq!(ring.dropped(), 1);
}

fn encoded(family: u8, src: &[u8], dst: &[u8], proto: u8, flags: [u8; 3]) -> Vec<u8> {
    let mut b = Vec::new();
    b.extend_from_slice(&7u32.to_be_bytes());
    b.push(family);
    let mut s = src.to_vec();
    s.resize(16, 0);
    let mut d = dst.to_vec();
    d.resize(16, 0);
    b.extend(s);
    b.extend(d);
    b.extend_from_slice(&443u16.to_be_bytes());
    b.extend_from_slice(&51000u16.to_be_bytes());
    b.extend_from_slice(&123_456_789u64.to_be_bytes());
    b.push(proto);
    b.extend_from_slice(&flags);
    b.extend_from_slice(&1500u16.to_be_bytes());
    b
}

#[test]
fn records_decode_from_the_transport_layout() {
    let b = encoded(4, &[8, 8, 8, 8], &[10, 0, 0, 1], 6, [1, 0, 1]);
    assert_eq!(b.len(), palantir::event::RECORD_LEN);
    let e = RawEvent::decode(&b).unwrap();
    assert_eq!(e.pid, 7);
    assert_eq!(e.src_addr, IpAddress::V4(0x0808_0808));
    assert_eq!(e.dst_addr, IpAddress::V4(0x0A00_0001));
    assert_eq!((e.src_port, e.dst_port), (443, 51000));
    assert_eq!(e.ts_offset_ns, 123_456_789);
    assert_eq!(e.proto, IpProto::Tcp);
    assert!(e.fragment && !e.last_fragment);
    assert_eq!(e.direction, Direction::Egress);
    assert_eq!(e.bytes, 1500);

    let v6 = 0x2606_4700_0000_0000_0000_0000_0000_1111u128.to_be_bytes();
    let e = RawEvent::decode(&encoded(6, &v6, &v6, 17, [0, 1, 0])).unwrap();
    assert_eq!(e.src_addr, IpAddress::V6(0x2606_4700_0000_0000_0000_0000_0000_1111));
    assert_eq!(e.direction, Direction::Ingress);
}

#[test]
fn malformed_records_are_refused() {
    let good = encoded(4, &[8, 8, 8, 8], &[10, 0, 0, 1], 6, [0, 1, 0]);
    assert!(RawEvent::decode(&good[..54]).is_none());
    assert!(RawEvent::decode(&encoded(5, &[8, 8, 8, 8], &[10, 0, 0, 1], 6, [0, 1, 0])).is_none());
    assert!(RawEvent::decode(&encoded(4, &[8, 8, 8, 8], &[10, 0, 0, 1], 1, [0, 1, 0])).is_none());
    assert!(RawEvent::decode(&encoded(4, &[8, 8, 8, 8], &[10, 0, 0, 1], 6, [1, 1, 0])).is_none());
    assert!(RawEvent::decode(&encoded(4, &[8, 8, 8, 8], &[10, 0, 0, 1], 6, [0, 0, 2])).is_none());
}
