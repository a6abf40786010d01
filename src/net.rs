//! Wire formats of the link, network and transport headers that the
//! classifier reads, and bounds-checked big-endian reads over a byte window.
use vstd::prelude::*;

verus! {

pub const ETHER_TYPE_IPV4: u16 = 0x0800;

pub const ETHER_TYPE_IPV6: u16 = 0x86DD;

/// Length of an Ethernet II header.
pub const ETH_HDR_LEN: usize = 14;

/// Length of an IPv4 header without options.
pub const IPV4_HDR_LEN: usize = 20;

/// Length of the fixed IPv6 header.
pub const IPV6_HDR_LEN: usize = 40;

pub const TCP_HDR_LEN: usize = 20;

pub const UDP_HDR_LEN: usize = 8;

/// Length of an IPv6 fragment extension header.
pub const IPV6_FRAG_HDR_LEN: usize = 8;

/// The big-endian 16-bit value at `i`.
pub open spec fn be16(p: Seq<u8>, i: int) -> u16 {
    ((p[i] as int) * 0x100 + (p[i + 1] as int)) as u16
}

/// The big-endian 32-bit value at `i`.
pub open spec fn be32(p: Seq<u8>, i: int) -> u32 {
    ((p[i] as int) * 0x100_0000 + (p[i + 1] as int) * 0x1_0000 + (p[i + 2] as int) * 0x100 + (
    p[i + 3] as int)) as u32
}

/// The big-endian 64-bit value at `i`.
pub open spec fn be64(p: Seq<u8>, i: int) -> u64 {
    ((be32(p, i) as int) * 0x1_0000_0000 + (be32(p, i + 4) as int)) as u64
}

/// The big-endian 128-bit value at `i`.
pub open spec fn be128(p: Seq<u8>, i: int) -> u128 {
    ((be32(p, i) as int) * 0x1_0000_0000_0000_0000_0000_0000 + (be32(p, i + 4) as int)
        * 0x1_0000_0000_0000_0000 + (be32(p, i + 8) as int) * 0x1_0000_0000 + (be32(
        p,
        i + 12,
    ) as int)) as u128
}

pub fn read_be16(p: &[u8], i: usize) -> (r: Option<u16>)
    ensures
        r == (if i + 2 <= p@.len() {
            Some(be16(p@, i as int))
        } else {
            None::<u16>
        }),
{
    if i < p.len() && p.len() - i >= 2 {
        Some((p[i] as u16) * 0x100 + (p[i + 1] as u16))
    } else {
        None
    }
}

pub fn read_be32(p: &[u8], i: usize) -> (r: Option<u32>)
    ensures
        r == (if i + 4 <= p@.len() {
            Some(be32(p@, i as int))
        } else {
            None::<u32>
        }),
{
    if i < p.len() && p.len() - i >= 4 {
        Some((p[i] as u32) * 0x100_0000 + (p[i + 1] as u32) * 0x1_0000 + (p[i + 2] as u32) * 0x100
            + (p[i + 3] as u32))
    } else {
        None
    }
}

pub fn read_be64(p: &[u8], i: usize) -> (r: Option<u64>)
    ensures
        r == (if i + 8 <= p@.len() {
            Some(be64(p@, i as int))
        } else {
            None::<u64>
        }),
{
    if i < p.len() && p.len() - i >= 8 {
        let a = read_be32(p, i).unwrap() as u64;
        let b = read_be32(p, i + 4).unwrap() as u64;
        Some(a * 0x1_0000_0000 + b)
    } else {
        None
    }
}

pub fn read_be128(p: &[u8], i: usize) -> (r: Option<u128>)
    ensures
        r == (if i + 16 <= p@.len() {
            Some(be128(p@, i as int))
        } else {
            None::<u128>
        }),
{
    if i < p.len() && p.len() - i >= 16 {
        let a = read_be32(p, i).unwrap() as u128;
        let b = read_be32(p, i + 4).unwrap() as u128;
        let c = read_be32(p, i + 8).unwrap() as u128;
        let d = read_be32(p, i + 12).unwrap() as u128;
        Some(a * 0x1_0000_0000_0000_0000_0000_0000 + b * 0x1_0000_0000_0000_0000 + c * 0x1_0000_0000
            + d)
    } else {
        None
    }
}

/// IP protocol numbers, as carried by the IPv4 protocol field and by the
/// IPv6 next-header fields.
#[derive(Debug, Clone, Copy, PartialEq, Eq, Structural)]
pub enum IpProto {
    HopOpt,
    Ipv4,
    Tcp,
    Udp,
    Ipv6,
    Ipv6Route,
    Ipv6Frag,
    Ipv6Opts,
}

impl IpProto {
    pub open spec fn spec_from_number(n: u8) -> Option<IpProto> {
        if n == 0 {
            Some(IpProto::HopOpt)
        } else if n == 4 {
            Some(IpProto::Ipv4)
        } else if n == 6 {
            Some(IpProto::Tcp)
        } else if n == 17 {
            Some(IpProto::Udp)
        } else if n == 41 {
            Some(IpProto::Ipv6)
        } else if n == 43 {
            Some(IpProto::Ipv6Route)
        } else if n == 44 {
            Some(IpProto::Ipv6Frag)
        } else if n == 60 {
            Some(IpProto::Ipv6Opts)
        } else {
            None
        }
    }

    pub open spec fn spec_number(self) -> u8 {
        match self {
            IpProto::HopOpt => 0,
            IpProto::Ipv4 => 4,
            IpProto::Tcp => 6,
            IpProto::Udp => 17,
            IpProto::Ipv6 => 41,
            IpProto::Ipv6Route => 43,
            IpProto::Ipv6Frag => 44,
            IpProto::Ipv6Opts => 60,
        }
    }

    /// The protocol with number `n`, if it is one of the known ones.
    pub fn from_number(n: u8) -> (r: Option<IpProto>)
        ensures
            r == Self::spec_from_number(n),
            r matches Some(q) ==> q.spec_number() == n,
    {
        if n == 0 {
            Some(IpProto::HopOpt)
        } else if n == 4 {
            Some(IpProto::Ipv4)
        } else if n == 6 {
            Some(IpProto::Tcp)
        } else if n == 17 {
            Some(IpProto::Udp)
        } else if n == 41 {
            Some(IpProto::Ipv6)
        } else if n == 43 {
            Some(IpProto::Ipv6Route)
        } else if n == 44 {
            Some(IpProto::Ipv6Frag)
        } else if n == 60 {
            Some(IpProto::Ipv6Opts)
        } else {
            None
        }
    }

    /// The protocol's number on the wire.
    pub fn number(self) -> (r: u8)
        ensures
            r == self.spec_number(),
            Self::spec_from_number(r) == Some(self),
    {
        match self {
            IpProto::HopOpt => 0,
            IpProto::Ipv4 => 4,
            IpProto::Tcp => 6,
            IpProto::Udp => 17,
            IpProto::Ipv6 => 41,
            IpProto::Ipv6Route => 43,
            IpProto::Ipv6Frag => 44,
            IpProto::Ipv6Opts => 60,
        }
    }
}

/// An Ethernet II header; multi-byte fields hold their big-endian value.
#[derive(Debug, Clone, Copy)]
pub struct EthHdr {
    pub dst_addr: [u8; 6],
    pub src_addr: [u8; 6],
    pub ether_type: u16,
}

impl EthHdr {
    /// The header that starts at `off`, if it lies inside `p`.
    pub fn read(p: &[u8], off: usize) -> (r: Option<EthHdr>)
        ensures
            r is Some <==> off + ETH_HDR_LEN <= p@.len(),
            r matches Some(h) ==> {
                &&& h.dst_addr@ == p@.subrange(off as int, off + 6)
                &&& h.src_addr@ == p@.subrange(off + 6, off + 12)
                &&& h.ether_type == be16(p@, off + 12)
            },
    {
        if off >= p.len() || p.len() - off < ETH_HDR_LEN {
            return None;
        }
        let dst_addr = [p[off], p[off + 1], p[off + 2], p[off + 3], p[off + 4], p[off + 5]];
        let src_addr = [p[off + 6], p[off + 7], p[off + 8], p[off + 9], p[off + 10], p[off + 11]];
        let ether_type = read_be16(p, off + 12).unwrap();
        assert(dst_addr@ =~= p@.subrange(off as int, off + 6));
        assert(src_addr@ =~= p@.subrange(off + 6, off + 12));
        Some(EthHdr { dst_addr, src_addr, ether_type })
    }
}

/// An IPv4 header without options; multi-byte fields hold their big-endian value.
#[derive(Debug, Clone, Copy)]
pub struct Ipv4Hdr {
    pub vihl: u8,
    pub tos: u8,
    pub tot_len: u16,
    pub id: u16,
    pub frags: u16,
    pub ttl: u8,
    pub proto: u8,
    pub check: u16,
    pub src_addr: u32,
    pub dst_addr: u32,
}

impl Ipv4Hdr {
    /// The header that starts at `off`, if it lies inside `p`.
    pub fn read(p: &[u8], off: usize) -> (r: Option<Ipv4Hdr>)
        ensures
            r is Some <==> off + IPV4_HDR_LEN <= p@.len(),
            r matches Some(h) ==> {
                &&& h.vihl == p@[off as int]
                &&& h.tos == p@[off + 1]
                &&& h.tot_len == be16(p@, off + 2)
                &&& h.id == be16(p@, off + 4)
                &&& h.frags == be16(p@, off + 6)
                &&& h.ttl == p@[off + 8]
                &&& h.proto == p@[off + 9]
                &&& h.check == be16(p@, off + 10)
                &&& h.src_addr == be32(p@, off + 12)
                &&& h.dst_addr == be32(p@, off + 16)
            },
    {
        if off >= p.len() || p.len() - off < IPV4_HDR_LEN {
            return None;
        }
        Some(
            Ipv4Hdr {
                vihl: p[off],
                tos: p[off + 1],
                tot_len: read_be16(p, off + 2).unwrap(),
                id: read_be16(p, off + 4).unwrap(),
                frags: read_be16(p, off + 6).unwrap(),
                ttl: p[off + 8],
                proto: p[off + 9],
                check: read_be16(p, off + 10).unwrap(),
                src_addr: read_be32(p, off + 12).unwrap(),
                dst_addr: read_be32(p, off + 16).unwrap(),
            },
        )
    }
}

/// The fixed IPv6 header; multi-byte fields hold their big-endian value.
#[derive(Debug, Clone, Copy)]
pub struct Ipv6Hdr {
    pub vcf: u32,
    pub payload_len: u16,
    pub next_hdr: u8,
    pub hop_limit: u8,
    pub src_addr: u128,
    pub dst_addr: u128,
}

impl Ipv6Hdr {
    /// The header that starts at `off`, if it lies inside `p`.
    pub fn read(p: &[u8], off: usize) -> (r: Option<Ipv6Hdr>)
        ensures
            r is Some <==> off + IPV6_HDR_LEN <= p@.len(),
            r matches Some(h) ==> {
                &&& h.vcf == be32(p@, off as int)
                &&& h.payload_len == be16(p@, off + 4)
                &&& h.next_hdr == p@[off + 6]
                &&& h.hop_limit == p@[off + 7]
                &&& h.src_addr == be128(p@, off + 8)
                &&& h.dst_addr == be128(p@, off + 24)
            },
    {
        if off >= p.len() || p.len() - off < IPV6_HDR_LEN {
            return None;
        }
        Some(
            Ipv6Hdr {
                vcf: read_be32(p, off).unwrap(),
                payload_len: read_be16(p, off + 4).unwrap(),
                next_hdr: p[off + 6],
                hop_limit: p[off + 7],
                src_addr: read_be128(p, off + 8).unwrap(),
                dst_addr: read_be128(p, off + 24).unwrap(),
            },
        )
    }
}

/// A TCP header without options; multi-byte fields hold their big-endian value.
#[derive(Debug, Clone, Copy)]
pub struct TcpHdr {
    pub source: u16,
    pub dest: u16,
    pub seq: u32,
    pub ack_seq: u32,
    pub data_offset_flags: u16,
    pub window: u16,
    pub check: u16,
    pub urg_ptr: u16,
}

impl TcpHdr {
    /// The header that starts at `off`, if it lies inside `p`.
    pub fn read(p: &[u8], off: usize) -> (r: Option<TcpHdr>)
        ensures
            r is Some <==> off + TCP_HDR_LEN <= p@.len(),
            r matches Some(h) ==> {
                &&& h.source == be16(p@, off as int)
                &&& h.dest == be16(p@, off + 2)
                &&& h.seq == be32(p@, off + 4)
                &&& h.ack_seq == be32(p@, off + 8)
                &&& h.data_offset_flags == be16(p@, off + 12)
                &&& h.window == be16(p@, off + 14)
                &&& h.check == be16(p@, off + 16)
                &&& h.urg_ptr == be16(p@, off + 18)
            },
    {
        if off >= p.len() || p.len() - off < TCP_HDR_LEN {
            return None;
        }
        Some(
            TcpHdr {
                source: read_be16(p, off).unwrap(),
                dest: read_be16(p, off + 2).unwrap(),
                seq: read_be32(p, off + 4).unwrap(),
                ack_seq: read_be32(p, off + 8).unwrap(),
                data_offset_flags: read_be16(p, off + 12).unwrap(),
                window: read_be16(p, off + 14).unwrap(),
                check: read_be16(p, off + 16).unwrap(),
                urg_ptr: read_be16(p, off + 18).unwrap(),
            },
        )
    }
}

/// A UDP header; its fields hold their big-endian value.
#[derive(Debug, Clone, Copy)]
pub struct UdpHdr {
    pub src: u16,
    pub dst: u16,
    pub len: u16,
    pub check: u16,
}

impl UdpHdr {
    /// The header that starts at `off`, if it lies inside `p`.
    pub fn read(p: &[u8], off: usize) -> (r: Option<UdpHdr>)
        ensures
            r is Some <==> off + UDP_HDR_LEN <= p@.len(),
            r matches Some(h) ==> {
                &&& h.src == be16(p@, off as int)
                &&& h.dst == be16(p@, off + 2)
                &&& h.len == be16(p@, off + 4)
                &&& h.check == be16(p@, off + 6)
            },
    {
        if off >= p.len() || p.len() - off < UDP_HDR_LEN {
            return None;
        }
        Some(
            UdpHdr {
                src: read_be16(p, off).unwrap(),
                dst: read_be16(p, off + 2).unwrap(),
                len: read_be16(p, off + 4).unwrap(),
                check: read_be16(p, off + 6).unwrap(),
            },
        )
    }
}

} // verus!
