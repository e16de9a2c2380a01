use vpn_mobile::ip::{in_any_block, parse_address, parse_block, IpAddress, IpBlock};

fn v4(a: u8, b: u8, c: u8, d: u8) -> IpAddress {
    IpAddress::from_octets(a, b, c, d)
}

#[test]
fn dotted_quads_are_read() {
    assert_eq!(parse_address("0.0.0.0"), Some(IpAddress::V4(0)));
    assert_eq!(parse_address("255.255.255.255"), Some(IpAddress::V4(u32::MAX)));
    assert_eq!(parse_address("192.168.1.10"), Some(IpAddress::V4(0xC0A8_010A)));
    assert_eq!(parse_address("1.2.3.4"), Some(v4(1, 2, 3, 4)));
    assert_eq!(parse_address("10.0.200.9"), Some(v4(10, 0, 200, 9)));
}

#[test]
fn other_texts_are_not_addresses() {
    for text in [
        "", ".", "1", "1.2.3", "1.2.3.", ".1.2.3", "1.2.3.4.", "1.2.3.4.5", "1..2.3", "256.1.1.1",
        "1.1.1.256", "1.1.1.999", "01.2.3.4", "1.2.3.04", "1.2.3.00", "1.2.3.4 ", " 1.2.3.4",
        "1.2.3.a", "a.b.c.d", "1,2,3,4", "1.2.3.-4", "1.2.3.+4", "1.2.3.4/8",
        "١.٢.٣.٤", "1.2.3.4294967297", "99999999999999999999.1.1.1",
    ] {
        assert_eq!(parse_address(text), None, "{:?}", text);
    }
}

#[test]
fn blocks_are_read() {
    assert_eq!(
        parse_block("10.0.0.0/8"),
        Some(IpBlock { base: v4(10, 0, 0, 0), prefix_len: 8 })
    );
    assert_eq!(
        parse_block("9.9.9.9"),
        Some(IpBlock { base: v4(9, 9, 9, 9), prefix_len: 32 })
    );
    assert_eq!(
        parse_block("0.0.0.0/0"),
        Some(IpBlock { base: v4(0, 0, 0, 0), prefix_len: 0 })
    );
    assert_eq!(
        parse_block("1.2.3.4/32"),
        Some(IpBlock { base: v4(1, 2, 3, 4), prefix_len: 32 })
    );
    for text in [
        "", "/8", "10.0.0.0/", "10.0.0.0/33", "10.0.0.0/08", "10.0.0.0/8/", "10.0.0.0/8 ",
        "10.0.0/8", "10.0.0.0//8", "10.0.0.0/-1", "10.0.0.0/a", "10.0.0.0 /8", "10.0.0.0/999999999999",
        "10.0.0.0.0/8", "fc00::/129", "fc00::/", "fc00::/07", "fc00:/7", "::/7/", "1.2.3.4/33",
    ] {
        assert_eq!(parse_block(text), None, "{:?}", text);
    }
}

#[test]
fn groups_of_hexadecimal_digits_are_read() {
    assert_eq!(parse_address("::"), Some(IpAddress::V6(0)));
    assert_eq!(parse_address("::1"), Some(IpAddress::V6(1)));
    assert_eq!(parse_address("1::"), Some(IpAddress::V6(1u128 << 112)));
    assert_eq!(parse_address("fc00::1"), Some(IpAddress::V6((0xfc00u128 << 112) | 1)));
    assert_eq!(parse_address("FD12:3456::"), Some(IpAddress::V6(0xfd12_3456u128 << 96)));
    assert_eq!(
        parse_address("1:2:3:4:5:6:7:8"),
        Some(IpAddress::V6(0x0001_0002_0003_0004_0005_0006_0007_0008))
    );
    assert_eq!(
        parse_address("ffff:ffff:ffff:ffff:ffff:ffff:ffff:ffff"),
        Some(IpAddress::V6(u128::MAX))
    );
    assert_eq!(
        parse_address("0001:0:00:000a:0:0:0:f"),
        Some(IpAddress::V6(0x0001_0000_0000_000a_0000_0000_0000_000f))
    );
    assert_eq!(
        parse_address("1:2:3:4:5:6:7::"),
        Some(IpAddress::V6(0x0001_0002_0003_0004_0005_0006_0007_0000))
    );
    assert_eq!(
        parse_address("::2:3:4:5:6:7:8"),
        Some(IpAddress::V6(0x0000_0002_0003_0004_0005_0006_0007_0008))
    );
    assert_eq!(
        parse_address("1:2::7:8"),
        Some(IpAddress::V6(0x0001_0002_0000_0000_0000_0000_0007_0008))
    );
    assert_eq!(
        parse_address("2001:db8::ff00:42:8329"),
        Some(IpAddress::V6(0x2001_0db8_0000_0000_0000_ff00_0042_8329))
    );
    assert_eq!(parse_address("aBcD::"), Some(IpAddress::V6(0xabcdu128 << 112)));
}

#[test]
fn other_texts_are_not_long_addresses() {
    for text in [
        ":", ":::", "1:", ":1", "1:2", "1:2:3:4:5:6:7", "1:2:3:4:5:6:7:8:9", "1:2:3:4:5:6:7:8::",
        "::1:2:3:4:5:6:7:8", "1::2::3", "1:2:3:4:5:6:7::8", "12345::", "::12345", "g::", "::g",
        "1:::2", "1:2:3:4:5:6:7:", ":1:2:3:4:5:6:7", "::1 ", " ::1", "::1%eth0", "::ffff:1.2.3.4",
        "1:2:3:4:5:6:7:8/", "[::1]", "0x1::", "-1::", "1 ::",
    ] {
        assert_eq!(parse_address(text), None, "{:?}", text);
    }
}

#[test]
fn blocks_of_long_addresses_are_read() {
    assert_eq!(
        parse_block("fc00::/7"),
        Some(IpBlock { base: IpAddress::V6(0xfc00u128 << 112), prefix_len: 7 })
    );
    assert_eq!(parse_block("::/0"), Some(IpBlock { base: IpAddress::V6(0), prefix_len: 0 }));
    assert_eq!(parse_block("::1"), Some(IpBlock { base: IpAddress::V6(1), prefix_len: 128 }));
    assert_eq!(parse_block("::1/128"), Some(IpBlock { base: IpAddress::V6(1), prefix_len: 128 }));
    let ula = parse_block("fc00::/7").unwrap();
    assert!(ula.contains(&parse_address("fd00::1").unwrap()));
    assert!(!ula.contains(&parse_address("fe80::1").unwrap()));
    assert!(parse_address("fd00::1").unwrap().is_private_lan());
    assert!(parse_address("::1").unwrap().is_loopback());
}

#[test]
fn block_membership() {
    let b = parse_block("172.16.0.0/12").unwrap();
    assert!(b.contains(&v4(172, 16, 0, 0)));
    assert!(b.contains(&v4(172, 31, 255, 255)));
    assert!(!b.contains(&v4(172, 32, 0, 0)));
    assert!(!b.contains(&v4(172, 15, 255, 255)));
    assert!(!b.contains(&IpAddress::V6(0xAC10_0000)));
    let all = parse_block("1.2.3.4/0").unwrap();
    assert!(all.contains(&v4(0, 0, 0, 0)));
    assert!(all.contains(&v4(255, 255, 255, 255)));
    assert!(!all.contains(&IpAddress::V6(0)));
    let one = parse_block("1.2.3.4").unwrap();
    assert!(one.contains(&v4(1, 2, 3, 4)));
    assert!(!one.contains(&v4(1, 2, 3, 5)));
    let unaligned = parse_block("10.1.2.3/8").unwrap();
    assert!(unaligned.contains(&v4(10, 200, 0, 1)));
    let half = parse_block("128.0.0.0/1").unwrap();
    assert!(half.contains(&v4(255, 0, 0, 0)));
    assert!(!half.contains(&v4(127, 255, 255, 255)));
    let malformed = IpBlock { base: v4(1, 1, 1, 1), prefix_len: 33 };
    assert!(!malformed.contains(&v4(1, 1, 1, 1)));
}

#[test]
fn blocks_of_the_long_family() {
    let ula = IpBlock { base: IpAddress::V6(0xfc00u128 << 112), prefix_len: 7 };
    assert!(ula.contains(&IpAddress::V6(0xfd12_3456u128 << 96)));
    assert!(!ula.contains(&IpAddress::V6(0xfe80u128 << 112)));
    assert!(!ula.contains(&v4(252, 0, 0, 0)));
    let one = IpBlock { base: IpAddress::V6(1), prefix_len: 128 };
    assert!(one.contains(&IpAddress::V6(1)));
    assert!(!one.contains(&IpAddress::V6(3)));
    let all = IpBlock { base: IpAddress::V6(1), prefix_len: 0 };
    assert!(all.contains(&IpAddress::V6(u128::MAX)));
    let malformed = IpBlock { base: IpAddress::V6(1), prefix_len: 129 };
    assert!(!malformed.contains(&IpAddress::V6(1)));
}

#[test]
fn special_ranges() {
    assert!(v4(127, 0, 0, 1).is_loopback());
    assert!(v4(127, 255, 255, 255).is_loopback());
    assert!(!v4(128, 0, 0, 1).is_loopback());
    assert!(!v4(126, 255, 255, 255).is_loopback());
    assert!(IpAddress::V6(1).is_loopback());
    assert!(!IpAddress::V6(0).is_loopback());
    assert!(!IpAddress::V6(0x7f00_0001).is_loopback());
    assert!(v4(10, 0, 0, 0).is_private_lan());
    assert!(v4(10, 255, 255, 255).is_private_lan());
    assert!(!v4(11, 0, 0, 0).is_private_lan());
    assert!(!v4(9, 255, 255, 255).is_private_lan());
    assert!(v4(172, 16, 0, 0).is_private_lan());
    assert!(v4(172, 31, 255, 255).is_private_lan());
    assert!(!v4(172, 32, 0, 0).is_private_lan());
    assert!(!v4(172, 15, 255, 255).is_private_lan());
    assert!(v4(192, 168, 0, 0).is_private_lan());
    assert!(v4(192, 168, 255, 255).is_private_lan());
    assert!(!v4(192, 169, 0, 0).is_private_lan());
    assert!(!v4(192, 167, 255, 255).is_private_lan());
    assert!(!v4(8, 8, 8, 8).is_private_lan());
    assert!(IpAddress::V6(0xfc00u128 << 112).is_private_lan());
    assert!(IpAddress::V6((0xfe00u128 << 112) - 1).is_private_lan());
    assert!(!IpAddress::V6(0xfe00u128 << 112).is_private_lan());
    assert!(!IpAddress::V6((0xfc00u128 << 112) - 1).is_private_lan());
}

#[test]
fn lists_of_blocks() {
    let list: Vec<String> =
        ["nonsense", "10.0.0.0/8", "192.0.2.1"].iter().map(|s| s.to_string()).collect();
    assert!(in_any_block(&list, &v4(10, 9, 8, 7)));
    assert!(in_any_block(&list, &v4(192, 0, 2, 1)));
    assert!(!in_any_block(&list, &v4(192, 0, 2, 2)));
    assert!(!in_any_block(&Vec::new(), &v4(10, 9, 8, 7)));
}
