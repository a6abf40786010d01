//! The header classifier: decodes the link, network and transport headers of
//! a captured frame into the fields that a capture event carries.
use vstd::prelude::*;

use crate::addr::IpAddress;
use crate::net::{
    be128,
    be16,
    be32,
    read_be16,
    EthHdr,
    IpProto,
    Ipv4Hdr,
    Ipv6Hdr,
    TcpHdr,
    UdpHdr,
    ETHER_TYPE_IPV4,
    ETHER_TYPE_IPV6,
    ETH_HDR_LEN,
    IPV4_HDR_LEN,
    IPV6_FRAG_HDR_LEN,
    IPV6_HDR_LEN,
    TCP_HDR_LEN,
    UDP_HDR_LEN,
};

verus! {

/// The most IPv6 extension headers walked before the transport header.
pub const IPV6_MAX_EXTENSION_HEADER_COUNT: usize = 8;

/// Why a frame could not be decoded. Every one of them is an ordinary outcome
/// for traffic that is not of interest: the frame is passed on unobserved.
#[derive(Debug, Clone, Copy, PartialEq, Eq, Structural)]
pub enum DecodeError {
    /// A header, or a byte of one, lies past the end of the captured window.
    Truncated,
    /// The link layer carries neither IPv4 nor IPv6.
    UnsupportedLinkType,
    /// The network layer leads to neither TCP nor UDP.
    UnsupportedProtocol,
    /// An IPv4 fragment other than the first, which holds no transport header.
    NoTransportHeader,
    /// An IPv4 header-length field below the five words of the fixed header.
    InvalidHeaderLength,
    /// More IPv6 extension headers than the walk allows before TCP or UDP.
    ExtensionChainTooLong,
}

/// What the classifier reads from one frame.
#[derive(Debug, Clone, Copy, PartialEq, Eq, Structural)]
pub struct Classified {
    pub src_addr: IpAddress,
    pub dst_addr: IpAddress,
    pub proto: IpProto,
    pub src_port: u16,
    pub dst_port: u16,
    pub fragment: bool,
    pub last_fragment: bool,
    pub bytes: u16,
}

pub open spec fn is_transport(nh: u8) -> bool {
    nh == 6 || nh == 17
}

/// Hop-by-hop, routing and destination options: skipped by their length byte.
pub open spec fn is_skippable(nh: u8) -> bool {
    nh == 0 || nh == 43 || nh == 60
}

pub open spec fn is_extension(nh: u8) -> bool {
    is_skippable(nh) || nh == 44
}

/// Source and destination port of the TCP (6) or UDP header at `off`.
pub open spec fn spec_ports(p: Seq<u8>, off: int, nh: u8) -> Result<(u16, u16), DecodeError> {
    let need = if nh == 6 {
        TCP_HDR_LEN
    } else {
        UDP_HDR_LEN
    };
    if 0 <= off && off + need <= p.len() {
        Ok((be16(p, off), be16(p, off + 2)))
    } else {
        Err(DecodeError::Truncated)
    }
}

/// Whether an IPv6 fragment header whose offset/flags field is `f` marks the
/// last fragment: more-fragments (the low bit) clear, offset (the high 13 bits)
/// not zero. Any other fragment header marks a fragment.
pub open spec fn v6_last_fragment(f: u16) -> bool {
    f & 1 == 0 && f >> 3u16 != 0
}

/// The walk over IPv6 extension headers from the header at `off`, whose type
/// is `nh`, with `fuel` headers left to skip. An extension header names the
/// type of the header after it in its first byte. It ends at the offset and type of
/// the transport header, with the fragment flags gathered on the way.
pub open spec fn ext_walk(p: Seq<u8>, off: int, nh: u8, fuel: nat, frag: bool, last: bool) -> Result<
    (int, u8, bool, bool),
    DecodeError,
>
    decreases fuel,
{
    if fuel == 0 {
        if is_transport(nh) {
            Ok((off, nh, frag, last))
        } else if is_extension(nh) {
            Err(DecodeError::ExtensionChainTooLong)
        } else {
            Err(DecodeError::UnsupportedProtocol)
        }
    } else if off + 1 >= p.len() {
        Err(DecodeError::Truncated)
    } else if is_skippable(nh) {
        let next = off + (p[off + 1] as int + 1) * 8;
        ext_walk(p, next, p[off], (fuel - 1) as nat, frag, last)
    } else if nh == 44 {
        if off + 4 > p.len() {
            Err(DecodeError::Truncated)
        } else {
            let last = v6_last_fragment(be16(p, off + 2));
            ext_walk(p, off + IPV6_FRAG_HDR_LEN, p[off], (fuel - 1) as nat, !last, last)
        }
    } else if is_transport(nh) {
        Ok((off, nh, frag, last))
    } else {
        Err(DecodeError::UnsupportedProtocol)
    }
}

/// The protocol with a number that `is_transport` accepts.
pub open spec fn transport_proto(nh: u8) -> IpProto {
    if nh == 6 {
        IpProto::Tcp
    } else {
        IpProto::Udp
    }
}

/// Length in bytes of the IPv4 header whose first byte is `vihl`: the low
/// nibble counts 32-bit words, options included.
pub open spec fn v4_header_len(vihl: u8) -> int {
    4 * ((vihl & 0xf) as int)
}

pub open spec fn spec_classify_v4(p: Seq<u8>) -> Result<Classified, DecodeError> {
    let ip = ETH_HDR_LEN as int;
    let hlen = v4_header_len(p[ip]);
    let proto = p[ip + 9];
    let frags = be16(p, ip + 6);
    let more = (frags >> 13u16) & 1 == 1;
    let offset = frags & 0x1fff;
    if p.len() < ip + IPV4_HDR_LEN {
        Err(DecodeError::Truncated)
    } else if hlen < IPV4_HDR_LEN {
        Err(DecodeError::InvalidHeaderLength)
    } else if !is_transport(proto) {
        Err(DecodeError::UnsupportedProtocol)
    } else if offset != 0 {
        Err(DecodeError::NoTransportHeader)
    } else {
        match spec_ports(p, ip + hlen, proto) {
            Err(e) => Err(e),
            Ok((src_port, dst_port)) => Ok(
                Classified {
                    src_addr: IpAddress::V4(be32(p, ip + 12)),
                    dst_addr: IpAddress::V4(be32(p, ip + 16)),
                    proto: transport_proto(proto),
                    src_port,
                    dst_port,
                    fragment: more,
                    last_fragment: !more,
                    bytes: be16(p, ip + 2),
                },
            ),
        }
    }
}

pub open spec fn spec_classify_v6(p: Seq<u8>) -> Result<Classified, DecodeError> {
    let ip = ETH_HDR_LEN as int;
    if p.len() < ip + IPV6_HDR_LEN {
        Err(DecodeError::Truncated)
    } else {
        match ext_walk(
            p,
            ip + IPV6_HDR_LEN,
            p[ip + 6],
            IPV6_MAX_EXTENSION_HEADER_COUNT as nat,
            false,
            false,
        ) {
            Err(e) => Err(e),
            Ok((off, nh, fragment, last_fragment)) => match spec_ports(p, off, nh) {
                Err(e) => Err(e),
                Ok((src_port, dst_port)) => Ok(
                    Classified {
                        src_addr: IpAddress::V6(be128(p, ip + 8)),
                        dst_addr: IpAddress::V6(be128(p, ip + 24)),
                        proto: transport_proto(nh),
                        src_port,
                        dst_port,
                        fragment,
                        last_fragment,
                        bytes: be16(p, ip + 4),
                    },
                ),
            },
        }
    }
}

/// What a frame decodes to: the Ethernet type selects IPv4 or IPv6.
pub open spec fn spec_classify(p: Seq<u8>) -> Result<Classified, DecodeError> {
    if p.len() < ETH_HDR_LEN {
        Err(DecodeError::Truncated)
    } else if be16(p, 12) == ETHER_TYPE_IPV4 {
        spec_classify_v4(p)
    } else if be16(p, 12) == ETHER_TYPE_IPV6 {
        spec_classify_v6(p)
    } else {
        Err(DecodeError::UnsupportedLinkType)
    }
}

/// Ports of the TCP or UDP header at `off`.
fn read_ports(p: &[u8], off: usize, nh: u8) -> (r: Result<(u16, u16), DecodeError>)
    requires
        is_transport(nh),
    ensures
        r == spec_ports(p@, off as int, nh),
{
    if nh == 6 {
        match TcpHdr::read(p, off) {
            Some(h) => Ok((h.source, h.dest)),
            None => Err(DecodeError::Truncated),
        }
    } else {
        match UdpHdr::read(p, off) {
            Some(h) => Ok((h.src, h.dst)),
            None => Err(DecodeError::Truncated),
        }
    }
}

fn transport_proto_of(nh: u8) -> (r: IpProto)
    ensures
        r == transport_proto(nh),
{
    if nh == 6 {
        IpProto::Tcp
    } else {
        IpProto::Udp
    }
}

fn classify_v4(p: &[u8]) -> (r: Result<Classified, DecodeError>)
    requires
        p@.len() >= ETH_HDR_LEN,
    ensures
        r == spec_classify_v4(p@),
        r matches Ok(c) ==> !(c.fragment && c.last_fragment),
{
    let ip = match Ipv4Hdr::read(p, ETH_HDR_LEN) {
        Some(h) => h,
        None => return Err(DecodeError::Truncated),
    };
    let hlen: usize = 4 * ((ip.vihl & 0xf) as usize);
    if hlen < IPV4_HDR_LEN {
        return Err(DecodeError::InvalidHeaderLength);
    }
    if !(ip.proto == 6 || ip.proto == 17) {
        return Err(DecodeError::UnsupportedProtocol);
    }
    let more = (ip.frags >> 13u16) & 1 == 1;
    if ip.frags & 0x1fff != 0 {
        return Err(DecodeError::NoTransportHeader);
    }
    let (src_port, dst_port) = match read_ports(p, ETH_HDR_LEN + hlen, ip.proto) {
        Ok(ports) => ports,
        Err(e) => return Err(e),
    };
    Ok(
        Classified {
            src_addr: IpAddress::V4(ip.src_addr),
            dst_addr: IpAddress::V4(ip.dst_addr),
            proto: transport_proto_of(ip.proto),
            src_port,
            dst_port,
            fragment: more,
            last_fragment: !more,
            bytes: ip.tot_len,
        },
    )
}

fn classify_v6(p: &[u8]) -> (r: Result<Classified, DecodeError>)
    requires
        p@.len() >= ETH_HDR_LEN,
    ensures
        r == spec_classify_v6(p@),
        r matches Ok(c) ==> !(c.fragment && c.last_fragment),
{
    let ip = match Ipv6Hdr::read(p, ETH_HDR_LEN) {
        Some(h) => h,
        None => return Err(DecodeError::Truncated),
    };
    let ghost start = ext_walk(
        p@,
        (ETH_HDR_LEN + IPV6_HDR_LEN) as int,
        ip.next_hdr,
        IPV6_MAX_EXTENSION_HEADER_COUNT as nat,
        false,
        false,
    );
    let mut off: usize = ETH_HDR_LEN + IPV6_HDR_LEN;
    let mut nh: u8 = ip.next_hdr;
    let mut fragment = false;
    let mut last_fragment = false;
    let mut i: usize = 0;
    while i < IPV6_MAX_EXTENSION_HEADER_COUNT
        invariant
            p@.len() >= ETH_HDR_LEN + IPV6_HDR_LEN,
            start == ext_walk(
                p@,
                ETH_HDR_LEN + IPV6_HDR_LEN,
                p@[ETH_HDR_LEN + 6],
                IPV6_MAX_EXTENSION_HEADER_COUNT as nat,
                false,
                false,
            ),
            i <= IPV6_MAX_EXTENSION_HEADER_COUNT,
            off <= ETH_HDR_LEN + IPV6_HDR_LEN + i * 2048,
            !(fragment && last_fragment),
            ext_walk(
                p@,
                off as int,
                nh,
                (IPV6_MAX_EXTENSION_HEADER_COUNT - i) as nat,
                fragment,
                last_fragment,
            ) == start,
        ensures
            !(fragment && last_fragment),
            ext_walk(
                p@,
                off as int,
                nh,
                (IPV6_MAX_EXTENSION_HEADER_COUNT - i) as nat,
                fragment,
                last_fragment,
            ) == start,
            i == IPV6_MAX_EXTENSION_HEADER_COUNT || (is_transport(nh) && off + 1 < p@.len()),
        decreases IPV6_MAX_EXTENSION_HEADER_COUNT - i,
    {
        if off + 1 >= p.len() {
            return Err(DecodeError::Truncated);
        }
        let following = p[off];
        if nh == 0 || nh == 43 || nh == 60 {
            let len = p[off + 1];
            off = off + (len as usize + 1) * 8;
        } else if nh == 44 {
            let field = match read_be16(p, off + 2) {
                Some(f) => f,
                None => return Err(DecodeError::Truncated),
            };
            last_fragment = field & 1 == 0 && field >> 3u16 != 0;
            fragment = !last_fragment;
            off = off + IPV6_FRAG_HDR_LEN;
        } else if nh == 6 || nh == 17 {
            break;
        } else {
            return Err(DecodeError::UnsupportedProtocol);
        }
        nh = following;
        i = i + 1;
    }
    if !(nh == 6 || nh == 17) {
        if nh == 0 || nh == 43 || nh == 60 || nh == 44 {
            return Err(DecodeError::ExtensionChainTooLong);
        } else {
            return Err(DecodeError::UnsupportedProtocol);
        }
    }
    assert(start == Ok::<(int, u8, bool, bool), DecodeError>((off as int, nh, fragment, last_fragment)));
    let (src_port, dst_port) = match read_ports(p, off, nh) {
        Ok(ports) => ports,
        Err(e) => return Err(e),
    };
    Ok(
        Classified {
            src_addr: IpAddress::V6(ip.src_addr),
            dst_addr: IpAddress::V6(ip.dst_addr),
            proto: transport_proto_of(nh),
            src_port,
            dst_port,
            fragment,
            last_fragment,
            bytes: ip.payload_len,
        },
    )
}

/// Decodes one captured frame, starting at its Ethernet header.
pub fn classify(packet: &[u8]) -> (r: Result<Classified, DecodeError>)
    ensures
        r == spec_classify(packet@),
        r matches Ok(c) ==> c.proto == IpProto::Tcp || c.proto == IpProto::Udp,
        r matches Ok(c) ==> !(c.fragment && c.last_fragment),
        r matches Ok(c) ==> (c.src_addr is V4 <==> c.dst_addr is V4),
{
    let eth = match EthHdr::read(packet, 0) {
        Some(h) => h,
        None => return Err(DecodeError::Truncated),
    };
    if eth.ether_type == ETHER_TYPE_IPV4 {
        classify_v4(packet)
    } else if eth.ether_type == ETHER_TYPE_IPV6 {
        classify_v6(packet)
    } else {
        Err(DecodeError::UnsupportedLinkType)
    }
}

/// Offset of the header that follows the extension header of type `nh` at `off`.
pub open spec fn chain_next(p: Seq<u8>, off: int, nh: u8) -> int {
    if nh == 44 {
        off + IPV6_FRAG_HDR_LEN
    } else {
        off + (p[off + 1] as int + 1) * 8
    }
}

/// Offset and type of the `k`-th header after the fixed IPv6 header, following
/// the chain as if every header before it were an extension header.
pub open spec fn chain_at(p: Seq<u8>, k: nat) -> (int, u8)
    decreases k,
{
    if k == 0 {
        ((ETH_HDR_LEN + IPV6_HDR_LEN) as int, p[ETH_HDR_LEN + 6])
    } else {
        let (off, nh) = chain_at(p, (k - 1) as nat);
        (chain_next(p, off, nh), p[off])
    }
}

/// Every well-formed IPv4 TCP frame decodes to TCP with the source and
/// destination ports that its TCP header carries. Well-formed: Ethernet type
/// IPv4, a header length of at least five words, protocol TCP, fragment offset
/// zero, and long enough for the TCP header, which starts after the IPv4
/// header and its options.
pub proof fn lemma_ipv4_tcp_ports(p: Seq<u8>)
    requires
        p.len() >= ETH_HDR_LEN + IPV4_HDR_LEN,
        v4_header_len(p[ETH_HDR_LEN as int]) >= IPV4_HDR_LEN,
        p.len() >= ETH_HDR_LEN + v4_header_len(p[ETH_HDR_LEN as int]) + TCP_HDR_LEN,
        be16(p, 12) == ETHER_TYPE_IPV4,
        p[ETH_HDR_LEN + 9] == 6,
        be16(p, ETH_HDR_LEN + 6) & 0x1fff == 0,
    ensures
        ({
            let t = ETH_HDR_LEN + v4_header_len(p[ETH_HDR_LEN as int]);
            spec_classify(p) matches Ok(c) && c.proto == IpProto::Tcp && c.src_port == be16(p, t)
                && c.dst_port == be16(p, t + 2)
        }),
{
}

proof fn lemma_walk_rejects_long_chain(p: Seq<u8>, k: nat, frag: bool, last: bool)
    requires
        k <= IPV6_MAX_EXTENSION_HEADER_COUNT,
        forall|j: nat| k <= j <= IPV6_MAX_EXTENSION_HEADER_COUNT ==> is_extension(#[trigger] chain_at(p, j).1),
    ensures
        ext_walk(p, chain_at(p, k).0, chain_at(p, k).1, (IPV6_MAX_EXTENSION_HEADER_COUNT - k) as nat, frag, last) is Err,
    decreases IPV6_MAX_EXTENSION_HEADER_COUNT - k,
{
    assert(is_extension(chain_at(p, k).1));
    if k < IPV6_MAX_EXTENSION_HEADER_COUNT {
        let (off, nh) = chain_at(p, k);
        assert(chain_at(p, k + 1) == (chain_next(p, off, nh), p[off]));
        if nh == 44 {
            let l = v6_last_fragment(be16(p, off + 2));
            lemma_walk_rejects_long_chain(p, k + 1, !l, l);
        } else {
            lemma_walk_rejects_long_chain(p, k + 1, frag, last);
        }
    }
}

/// An IPv6 frame whose chain holds more extension headers than the walk allows
/// before TCP or UDP never decodes: the walk stops after a bounded number of
/// headers, reading nothing past the captured window.
pub proof fn lemma_long_chain_rejected(p: Seq<u8>)
    requires
        p.len() >= ETH_HDR_LEN + IPV6_HDR_LEN,
        be16(p, 12) == ETHER_TYPE_IPV6,
        forall|j: nat| j <= IPV6_MAX_EXTENSION_HEADER_COUNT ==> is_extension(#[trigger] chain_at(p, j).1),
    ensures
        spec_classify(p) is Err,
{
    lemma_walk_rejects_long_chain(p, 0, false, false);
}

/// An IPv4 frame with more-fragments set and offset zero is a first fragment
/// and not a last one; with more-fragments clear and offset zero, the reverse.
pub proof fn lemma_ipv4_fragment_flags(p: Seq<u8>)
    requires
        spec_classify(p) is Ok,
        be16(p, 12) == ETHER_TYPE_IPV4,
    ensures
        (be16(p, 20) >> 13u16) & 1 == 1 ==> (spec_classify(p) matches Ok(c) && c.fragment
            && !c.last_fragment),
        (be16(p, 20) >> 13u16) & 1 == 0 ==> (spec_classify(p) matches Ok(c) && !c.fragment
            && c.last_fragment),
{
}

proof fn lemma_walk_reaches(p: Seq<u8>, j: nat)
    requires
        j <= IPV6_MAX_EXTENSION_HEADER_COUNT,
        forall|m: nat| m < j ==> is_skippable(#[trigger] chain_at(p, m).1),
        ext_walk(
            p,
            (ETH_HDR_LEN + IPV6_HDR_LEN) as int,
            p[ETH_HDR_LEN + 6],
            IPV6_MAX_EXTENSION_HEADER_COUNT as nat,
            false,
            false,
        ) is Ok,
    ensures
        ext_walk(
            p,
            (ETH_HDR_LEN + IPV6_HDR_LEN) as int,
            p[ETH_HDR_LEN + 6],
            IPV6_MAX_EXTENSION_HEADER_COUNT as nat,
            false,
            false,
        ) == ext_walk(
            p,
            chain_at(p, j).0,
            chain_at(p, j).1,
            (IPV6_MAX_EXTENSION_HEADER_COUNT - j) as nat,
            false,
            false,
        ),
    decreases j,
{
    if j > 0 {
        let m = (j - 1) as nat;
        lemma_walk_reaches(p, m);
        assert(is_skippable(chain_at(p, m).1));
        let (off, nh) = chain_at(p, m);
        assert(chain_at(p, j) == (chain_next(p, off, nh), p[off]));
    }
}

/// Wherever a fragment header stands in an IPv6 chain of non-fragment
/// extension headers, and names TCP or UDP as the next header, the decoded
/// flags are its own: offset zero with more-fragments set gives a fragment
/// that is not the last; a nonzero offset with more-fragments clear gives the
/// last fragment, not flagged as a fragment.
pub proof fn lemma_ipv6_fragment_flags_in_chain(p: Seq<u8>, k: nat)
    requires
        spec_classify(p) is Ok,
        be16(p, 12) == ETHER_TYPE_IPV6,
        k < IPV6_MAX_EXTENSION_HEADER_COUNT,
        forall|m: nat| m < k ==> is_skippable(#[trigger] chain_at(p, m).1),
        chain_at(p, k).1 == 44,
        is_transport(p[chain_at(p, k).0]),
    ensures
        ({
            let f = be16(p, chain_at(p, k).0 + 2);
            &&& spec_classify(p) matches Ok(c) && c.last_fragment == v6_last_fragment(f)
                && c.fragment == !v6_last_fragment(f)
            &&& f >> 3u16 == 0 && f & 1 == 1 ==> (spec_classify(p) matches Ok(c) && c.fragment
                && !c.last_fragment)
            &&& f >> 3u16 != 0 && f & 1 == 0 ==> (spec_classify(p) matches Ok(c) && !c.fragment
                && c.last_fragment)
        }),
{
    lemma_walk_reaches(p, k);
    let (off, nh) = chain_at(p, k);
    let l = v6_last_fragment(be16(p, off + 2));
    let fuel = (IPV6_MAX_EXTENSION_HEADER_COUNT - k) as nat;
    let whole = ext_walk(p, off, nh, fuel, false, false);
    let rest = ext_walk(p, off + IPV6_FRAG_HDR_LEN, p[off], (fuel - 1) as nat, !l, l);
    assert(whole == rest);
    assert(rest matches Ok((_, _, a, b)) && a == !l && b == l);
}

} // verus!
