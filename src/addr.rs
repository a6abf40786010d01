//! IP addresses as plain integers, and the address classes that decide
//! which endpoints may become peers.
use vstd::prelude::*;

verus! {

/// An IPv4 or IPv6 address, held as its big-endian integer value.
#[derive(Debug, Clone, Copy, PartialEq, Eq, Structural)]
pub enum IpAddress {
    V4(u32),
    V6(u128),
}

/// Octet `i` (0 to 3) of an IPv4 address.
pub open spec fn octet(a: u32, i: u32) -> u32 {
    (a >> (24 - 8 * i) as u32) & 0xff
}

/// Segment `i` (0 to 7) of an IPv6 address.
pub open spec fn segment(a: u128, i: u128) -> u128 {
    (a >> (112 - 16 * i) as u128) & 0xffff
}

pub open spec fn v4_is_multicast(a: u32) -> bool {
    224 <= octet(a, 0) && octet(a, 0) <= 239
}

pub open spec fn v6_is_multicast(a: u128) -> bool {
    segment(a, 0) & 0xff00 == 0xff00
}

/// Blocks of the IPv4 special-purpose registry that are not globally reachable.
pub open spec fn v4_is_special(a: u32) -> bool {
    let (o0, o1, o2, o3) = (octet(a, 0), octet(a, 1), octet(a, 2), octet(a, 3));
    ||| o0 == 0  // this network
    ||| o0 == 10  // private
    ||| (o0 == 172 && o1 & 0xf0 == 16)  // private
    ||| (o0 == 192 && o1 == 168)  // private
    ||| (o0 == 100 && o1 & 0xc0 == 64)  // shared address space
    ||| o0 == 127  // loopback
    ||| (o0 == 169 && o1 == 254)  // link local
    ||| (o0 == 192 && o1 == 0 && o2 == 0 && o3 != 9 && o3 != 10)  // protocol assignments
    ||| (o0 == 192 && o1 == 0 && o2 == 2)  // documentation
    ||| (o0 == 198 && o1 == 51 && o2 == 100)  // documentation
    ||| (o0 == 203 && o1 == 0 && o2 == 113)  // documentation
    ||| (o0 == 198 && o1 & 0xfe == 18)  // benchmarking
    ||| o0 & 0xf0 == 0xf0  // reserved, and the limited broadcast address

}

/// The 2001::/23 protocol-assignment block, minus its globally reachable parts.
pub open spec fn v6_is_protocol_assignment(a: u128) -> bool {
    let (s0, s1, s2) = (segment(a, 0), segment(a, 1), segment(a, 2));
    &&& s0 == 0x2001 && s1 < 0x200
    &&& !(a == 0x2001_0001_0000_0000_0000_0000_0000_0001  // port control anycast
     || a == 0x2001_0001_0000_0000_0000_0000_0000_0002  // TURN anycast
     || s1 == 3  // AMT
     || (s1 == 4 && s2 == 0x112)  // AS112-v6
     || (0x20 <= s1 && s1 <= 0x3f))  // ORCHIDv2 and drone remote ID

}

/// Blocks of the IPv6 special-purpose registry that are not globally reachable.
pub open spec fn v6_is_special(a: u128) -> bool {
    let (s0, s1, s2, s3) = (segment(a, 0), segment(a, 1), segment(a, 2), segment(a, 3));
    ||| a == 0  // unspecified
    ||| a == 1  // loopback
    ||| a >> 32u128 == 0xffff  // IPv4-mapped
    ||| (s0 == 0x64 && s1 == 0xff9b && s2 == 1)  // IPv4/IPv6 translation
    ||| (s0 == 0x100 && s1 == 0 && s2 == 0 && s3 == 0)  // discard only
    ||| v6_is_protocol_assignment(a)
    ||| s0 == 0x2002  // 6to4
    ||| s0 == 0x5f00  // segment routing
    ||| (s0 == 0x2001 && s1 == 0xdb8)  // documentation
    ||| (s0 == 0x3fff && s1 < 0x1000)  // documentation
    ||| s0 & 0xfe00 == 0xfc00  // unique local
    ||| s0 & 0xffc0 == 0xfe80  // link local

}

impl IpAddress {
    pub open spec fn spec_is_multicast(self) -> bool {
        match self {
            IpAddress::V4(a) => v4_is_multicast(a),
            IpAddress::V6(a) => v6_is_multicast(a),
        }
    }

    /// Globally routable: in no block that the special-purpose registries
    /// mark as not globally reachable.
    pub open spec fn spec_is_global(self) -> bool {
        match self {
            IpAddress::V4(a) => !v4_is_special(a),
            IpAddress::V6(a) => !v6_is_special(a),
        }
    }

    pub fn is_multicast(&self) -> (r: bool)
        ensures
            r == self.spec_is_multicast(),
    {
        match *self {
            IpAddress::V4(a) => {
                let o0 = a >> 24u32 & 0xff;
                224 <= o0 && o0 <= 239
            },
            IpAddress::V6(a) => (a >> 112u128 & 0xffff) & 0xff00 == 0xff00,
        }
    }

    pub fn is_global(&self) -> (r: bool)
        ensures
            r == self.spec_is_global(),
    {
        match *self {
            IpAddress::V4(a) => {
                let o0 = a >> 24u32 & 0xff;
                let o1 = a >> 16u32 & 0xff;
                let o2 = a >> 8u32 & 0xff;
                let o3 = a & 0xff;
                assert(a >> 0u32 == a) by (bit_vector);
                !(o0 == 0 || o0 == 10 || (o0 == 172 && o1 & 0xf0 == 16) || (o0 == 192 && o1 == 168)
                    || (o0 == 100 && o1 & 0xc0 == 64) || o0 == 127 || (o0 == 169 && o1 == 254) || (
                o0 == 192 && o1 == 0 && o2 == 0 && o3 != 9 && o3 != 10) || (o0 == 192 && o1 == 0
                    && o2 == 2) || (o0 == 198 && o1 == 51 && o2 == 100) || (o0 == 203 && o1 == 0
                    && o2 == 113) || (o0 == 198 && o1 & 0xfe == 18) || o0 & 0xf0 == 0xf0)
            },
            IpAddress::V6(a) => {
                let s0 = a >> 112u128 & 0xffff;
                let s1 = a >> 96u128 & 0xffff;
                let s2 = a >> 80u128 & 0xffff;
                let s3 = a >> 64u128 & 0xffff;
                let assignment = s0 == 0x2001 && s1 < 0x200 && !(a
                    == 0x2001_0001_0000_0000_0000_0000_0000_0001 || a
                    == 0x2001_0001_0000_0000_0000_0000_0000_0002 || s1 == 3 || (s1 == 4 && s2
                    == 0x112) || (0x20 <= s1 && s1 <= 0x3f));
                !(a == 0 || a == 1 || a >> 32u128 == 0xffff || (s0 == 0x64 && s1 == 0xff9b && s2
                    == 1) || (s0 == 0x100 && s1 == 0 && s2 == 0 && s3 == 0) || assignment || s0
                    == 0x2002 || s0 == 0x5f00 || (s0 == 0x2001 && s1 == 0xdb8) || (s0 == 0x3fff
                    && s1 < 0x1000) || s0 & 0xfe00 == 0xfc00 || s0 & 0xffc0 == 0xfe80)
            },
        }
    }
}

} // verus!
