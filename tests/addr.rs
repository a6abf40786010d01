use palantir::addr::IpAddress;

fn v4(a: [u8; 4]) -> IpAddress {
    IpAddress::V4(u32::from_be_bytes(a))
}

fn v6(segments: [u16; 8]) -> IpAddress {
    IpAddress::V6(segments.iter().fold(0u128, |acc, s| (acc << 16) | *s as u128))
}

#[test]
fn public_ipv4_is_global() {
    assert!(v4([8, 8, 8, 8]).is_global());
    assert!(v4([93, 184, 216, 34]).is_global());
    assert!(v4([192, 0, 0, 9]).is_global());
    assert!(!v4([8, 8, 8, 8]).is_multicast());
}

#[test]
fn special_ipv4_is_not_global() {
    for a in [
        [0, 1, 2, 3],
        [10, 1, 2, 3],
        [172, 16, 0, 1],
        [172, 31, 255, 255],
        [192, 168, 1, 1],
        [100, 64, 0, 1],
        [127, 0, 0, 1],
        [169, 254, 10, 10],
        [192, 0, 0, 8],
        [192, 0, 2, 1],
        [198, 51, 100, 7],
        [203, 0, 113, 5],
        [198, 18, 0, 1],
        [240, 0, 0, 1],
        [255, 255, 255, 255],
    ] {
        assert!(!v4(a).is_global(), "{:?}", a);
    }
    assert!(v4([172, 32, 0, 1]).is_global());
}

#[test]
fn ipv4_multicast() {
    assert!(v4([224, 0, 0, 251]).is_multicast());
    assert!(v4([239, 255, 255, 250]).is_multicast());
    assert!(!v4([240, 0, 0, 1]).is_multicast());
}

#[test]
fn ipv6_classes() {
    assert!(v6([0x2606, 0x4700, 0, 0, 0, 0, 0, 0x1111]).is_global());
    assert!(v6([0x2001, 0x4860, 0x4860, 0, 0, 0, 0, 0x8888]).is_global());
    assert!(v6([0x2001, 1, 0, 0, 0, 0, 0, 1]).is_global());
    for s in [
        [0, 0, 0, 0, 0, 0, 0, 0],
        [0, 0, 0, 0, 0, 0, 0, 1],
        [0, 0, 0, 0, 0, 0xffff, 0x0808, 0x0808],
        [0x64, 0xff9b, 1, 0, 0, 0, 0, 1],
        [0x100, 0, 0, 0, 0, 0, 0, 1],
        [0x2001, 0, 0, 0, 0, 0, 0, 1],
        [0x2001, 0xdb8, 0, 0, 0, 0, 0, 1],
        [0x2002, 0, 0, 0, 0, 0, 0, 1],
        [0xfc00, 0, 0, 0, 0, 0, 0, 1],
        [0xfe80, 0, 0, 0, 0, 0, 0, 1],
    ] {
        assert!(!v6(s).is_global(), "{:?}", s);
    }
    assert!(v6([0xff02, 0, 0, 0, 0, 0, 0, 1]).is_multicast());
    assert!(!v6([0xfe80, 0, 0, 0, 0, 0, 0, 1]).is_multicast());
}
