//! The capture record that the probes produce, and the probes themselves:
//! classify a frame, build a record, hand it to the transport.
use vstd::prelude::*;

use crate::addr::IpAddress;
use crate::classify::{classify, spec_classify, Classified, DecodeError};
use crate::net::{be128, be16, be32, be64, read_be128, read_be16, read_be32, read_be64, IpProto};
use crate::transport::EventRing;

verus! {

/// The verdict a traffic-control probe returns: let the packet pass unchanged.
pub const TC_ACT_OK: i32 = 0;

/// Which way a packet crossed the observed interface.
#[derive(Debug, Clone, Copy, PartialEq, Eq, Structural)]
pub enum Direction {
    Ingress,
    Egress,
}

/// One observed packet, as the capture point records it.
#[derive(Debug, Clone, Copy, PartialEq, Eq, Structural)]
pub struct RawEvent {
    pub pid: u32,
    pub src_addr: IpAddress,
    pub dst_addr: IpAddress,
    pub src_port: u16,
    pub dst_port: u16,
    /// Nanoseconds since boot, from the monotonic clock.
    pub ts_offset_ns: u64,
    pub proto: IpProto,
    pub fragment: bool,
    pub last_fragment: bool,
    pub direction: Direction,
    pub bytes: u16,
}

impl RawEvent {
    /// Address families match, and a record is never both a first and a last fragment.
    pub open spec fn wf(self) -> bool {
        &&& (self.src_addr is V4 <==> self.dst_addr is V4)
        &&& !(self.fragment && self.last_fragment)
    }

    /// The remote endpoint: the source of what came in, the destination of what went out.
    pub open spec fn spec_peer_addr(self) -> IpAddress {
        match self.direction {
            Direction::Ingress => self.src_addr,
            Direction::Egress => self.dst_addr,
        }
    }

    /// The local endpoint: the other one.
    pub open spec fn spec_local_addr(self) -> IpAddress {
        match self.direction {
            Direction::Ingress => self.dst_addr,
            Direction::Egress => self.src_addr,
        }
    }

    pub open spec fn spec_timestamp(self, boot_time_ns: u64) -> u128 {
        (boot_time_ns + self.ts_offset_ns) as u128
    }

    pub fn peer_addr(&self) -> (r: IpAddress)
        ensures
            r == self.spec_peer_addr(),
    {
        match self.direction {
            Direction::Ingress => self.src_addr,
            Direction::Egress => self.dst_addr,
        }
    }

    pub fn local_addr(&self) -> (r: IpAddress)
        ensures
            r == self.spec_local_addr(),
    {
        match self.direction {
            Direction::Ingress => self.dst_addr,
            Direction::Egress => self.src_addr,
        }
    }

    /// Wall-clock time of the record, in nanoseconds since the Unix epoch,
    /// given the wall-clock time of boot in the same unit.
    pub fn timestamp(&self, boot_time_ns: u64) -> (r: u128)
        ensures
            r == self.spec_timestamp(boot_time_ns),
            r == boot_time_ns + self.ts_offset_ns,
    {
        boot_time_ns as u128 + self.ts_offset_ns as u128
    }
}

/// Length of a capture record as the transport carries it. All integers are
/// big-endian: pid at 0; address family (4 or 6) at 4; source address at 5 and
/// destination address at 21, each in a 16-byte slot (an IPv4 address takes the
/// first four bytes); source port at 37; destination port at 39; boot-relative
/// nanoseconds at 41; protocol number at 49; fragment and last-fragment flags
/// (0 or 1) at 50 and 51; direction (0 ingress, 1 egress) at 52; byte length at 53.
pub const RECORD_LEN: usize = 55;

pub open spec fn addr_at(p: Seq<u8>, family: u8, i: int) -> IpAddress {
    if family == 4 {
        IpAddress::V4(be32(p, i))
    } else {
        IpAddress::V6(be128(p, i))
    }
}

/// The record that the bytes `p` hold, if they hold one: the right length, a
/// known family and protocol, flags and direction in range, and not both a
/// first and a last fragment.
pub open spec fn spec_decode(p: Seq<u8>) -> Option<RawEvent> {
    let family = p[4];
    let proto = IpProto::spec_from_number(p[49]);
    if p.len() != RECORD_LEN {
        None
    } else if (family != 4 && family != 6) || proto is None || p[50] > 1 || p[51] > 1 || p[52] > 1
        || (p[50] == 1 && p[51] == 1) {
        None
    } else {
        Some(
            RawEvent {
                pid: be32(p, 0),
                src_addr: addr_at(p, family, 5),
                dst_addr: addr_at(p, family, 21),
                src_port: be16(p, 37),
                dst_port: be16(p, 39),
                ts_offset_ns: be64(p, 41),
                proto: proto.unwrap(),
                fragment: p[50] == 1,
                last_fragment: p[51] == 1,
                direction: if p[52] == 0 {
                    Direction::Ingress
                } else {
                    Direction::Egress
                },
                bytes: be16(p, 53),
            },
        )
    }
}

fn read_addr(p: &[u8], family: u8, i: usize) -> (r: IpAddress)
    requires
        i + 16 <= p@.len(),
    ensures
        r == addr_at(p@, family, i as int),
{
    if family == 4 {
        IpAddress::V4(read_be32(p, i).unwrap())
    } else {
        IpAddress::V6(read_be128(p, i).unwrap())
    }
}

impl RawEvent {
    /// Reads one capture record in the transport's layout (see `RECORD_LEN`).
    pub fn decode(record: &[u8]) -> (r: Option<RawEvent>)
        ensures
            r == spec_decode(record@),
            r matches Some(e) ==> e.wf(),
    {
        if record.len() != RECORD_LEN {
            return None;
        }
        let family = record[4];
        let proto = match IpProto::from_number(record[49]) {
            Some(q) => q,
            None => return None,
        };
        let (f, l, d) = (record[50], record[51], record[52]);
        if (family != 4 && family != 6) || f > 1 || l > 1 || d > 1 || (f == 1 && l == 1) {
            return None;
        }
        Some(
            RawEvent {
                pid: read_be32(record, 0).unwrap(),
                src_addr: read_addr(record, family, 5),
                dst_addr: read_addr(record, family, 21),
                src_port: read_be16(record, 37).unwrap(),
                dst_port: read_be16(record, 39).unwrap(),
                ts_offset_ns: read_be64(record, 41).unwrap(),
                proto,
                fragment: f == 1,
                last_fragment: l == 1,
                direction: if d == 0 {
                    Direction::Ingress
                } else {
                    Direction::Egress
                },
                bytes: read_be16(record, 53).unwrap(),
            },
        )
    }
}

/// The record for a frame that decoded to `c`.
pub open spec fn event_of(c: Classified, pid: u32, ts_offset_ns: u64, direction: Direction) -> RawEvent {
    RawEvent {
        pid,
        src_addr: c.src_addr,
        dst_addr: c.dst_addr,
        src_port: c.src_port,
        dst_port: c.dst_port,
        ts_offset_ns,
        proto: c.proto,
        fragment: c.fragment,
        last_fragment: c.last_fragment,
        direction,
        bytes: c.bytes,
    }
}

/// Classifies one frame and builds its record; `pid` and `ts_offset_ns` are
/// the current task and the boot-relative clock at capture.
pub fn try_handle_packet(packet: &[u8], pid: u32, ts_offset_ns: u64, direction: Direction) -> (r:
    Result<RawEvent, DecodeError>)
    ensures
        r == (match spec_classify(packet@) {
            Ok(c) => Ok(event_of(c, pid, ts_offset_ns, direction)),
            Err(e) => Err(e),
        }),
        r matches Ok(e) ==> e.wf(),
{
    match classify(packet) {
        Ok(c) => Ok(
            RawEvent {
                pid,
                src_addr: c.src_addr,
                dst_addr: c.dst_addr,
                src_port: c.src_port,
                dst_port: c.dst_port,
                ts_offset_ns,
                proto: c.proto,
                fragment: c.fragment,
                last_fragment: c.last_fragment,
                direction,
                bytes: c.bytes,
            },
        ),
        Err(e) => Err(e),
    }
}

/// What a probe leaves in the ring: the frame's record if it decoded and a
/// slot was free; otherwise the ring as it was, apart from the drop count.
pub open spec fn probe_post(
    packet: Seq<u8>,
    pid: u32,
    ts_offset_ns: u64,
    direction: Direction,
    before: EventRing,
    after: EventRing,
) -> bool {
    match spec_classify(packet) {
        Ok(c) => before.spec_submit_post(event_of(c, pid, ts_offset_ns, direction), after),
        Err(_) => after == before,
    }
}

/// Where a probe invocation goes when it cannot complete, in place of the
/// kernel program's panic handler: observation never fails the packet path,
/// so the packet passes unchanged and the error ends only this invocation.
pub fn panic(error: DecodeError) -> (r: i32)
    ensures
        r == TC_ACT_OK,
{
    TC_ACT_OK
}

fn probe(packet: &[u8], pid: u32, ts_offset_ns: u64, direction: Direction, ring: &mut EventRing) -> (r:
    i32)
    requires
        old(ring).wf(),
    ensures
        r == TC_ACT_OK,
        final(ring).wf(),
        probe_post(packet@, pid, ts_offset_ns, direction, *old(ring), *final(ring)),
{
    match try_handle_packet(packet, pid, ts_offset_ns, direction) {
        Ok(event) => {
            let _ = ring.submit(event);
            TC_ACT_OK
        },
        Err(e) => panic(e),
    }
}

/// The ingress probe. It only observes: the packet always passes.
pub fn tc_ingress(packet: &[u8], pid: u32, ts_offset_ns: u64, ring: &mut EventRing) -> (r: i32)
    requires
        old(ring).wf(),
    ensures
        r == TC_ACT_OK,
        final(ring).wf(),
        probe_post(packet@, pid, ts_offset_ns, Direction::Ingress, *old(ring), *final(ring)),
{
    probe(packet, pid, ts_offset_ns, Direction::Ingress, ring)
}

/// The egress probe. It only observes: the packet always passes.
pub fn tc_egress(packet: &[u8], pid: u32, ts_offset_ns: u64, ring: &mut EventRing) -> (r: i32)
    requires
        old(ring).wf(),
    ensures
        r == TC_ACT_OK,
        final(ring).wf(),
        probe_post(packet@, pid, ts_offset_ns, Direction::Egress, *old(ring), *final(ring)),
{
    probe(packet, pid, ts_offset_ns, Direction::Egress, ring)
}

} // verus!
