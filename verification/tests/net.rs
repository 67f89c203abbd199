//! Addresses and address blocks.
use aws_net_hound::net::{cidr_contains, parse_address, IpAddr};

fn v4(octets: [u8; 4]) -> IpAddr {
    IpAddr::V4(u32::from_be_bytes(octets))
}

#[test]
fn v4_addresses_are_four_plain_octets() {
    assert_eq!(parse_address("10.1.2.3"), Some(v4([10, 1, 2, 3])));
    assert_eq!(parse_address("255.255.255.255"), Some(IpAddr::V4(u32::MAX)));
    for text in [
        "", "10.1.2", "10.1.2.3.4", "10.1.2.256", "10.01.2.3", "10.1.2.", "+1.2.3.4", "1.2.3.4 ",
    ] {
        assert_eq!(parse_address(text), None, "{text:?}");
    }
}

#[test]
fn v6_addresses_can_leave_out_one_run_of_zeros() {
    assert_eq!(parse_address("::"), Some(IpAddr::V6(0)));
    assert_eq!(parse_address("::1"), Some(IpAddr::V6(1)));
    assert_eq!(
        parse_address("2001:DB8::ff"),
        Some(IpAddr::V6(0x2001_0db8_0000_0000_0000_0000_0000_00ff))
    );
    assert_eq!(
        parse_address("1:2:3:4:5:6:7:8"),
        Some(IpAddr::V6(0x0001_0002_0003_0004_0005_0006_0007_0008))
    );
    assert_eq!(
        parse_address("::ffff:10.0.0.1"),
        Some(IpAddr::V6(0xffff_0a00_0001))
    );
    for text in ["1::2::3", "12345::", "1:2:3:4:5:6:7", "1:2:3:4:5:6:7:8:9", "g::", ":1", "::1%eth0"] {
        assert_eq!(parse_address(text), None, "{text:?}");
    }
}

#[test]
fn parsing_agrees_with_the_standard_library() {
    for text in [
        "0.0.0.0", "1.2.3.4", "1.2.3", "01.2.3.4", "256.1.1.1", "a.b.c.d", "::", "::1", "1::",
        "1::8", "1:2:3:4:5:6:7::", "::2:3:4:5:6:7:8", "1:2:3:4::5:6:7:8", "1:2:3:4:5:6:7:8::",
        "::ffff:1.2.3.4", "1:2:3:4:5:6:1.2.3.4", "1:2:3:4:5:6:7:1.2.3.4", "::1.2.3.4:5",
        "fe80::1:2", "fe80::g", "0001::", "00001::", ":::", "1:::2", "::ffff:01.2.3.4",
    ] {
        let expected = text.parse::<core::net::IpAddr>().ok().map(|address| match address {
            core::net::IpAddr::V4(address) => IpAddr::V4(u32::from(address)),
            core::net::IpAddr::V6(address) => IpAddr::V6(u128::from(address)),
        });
        assert_eq!(parse_address(text), expected, "{text:?}");
    }
}

#[test]
fn block_holds_the_addresses_that_share_its_prefix() {
    assert_eq!(cidr_contains("10.1.0.0/16", v4([10, 1, 255, 255])), Some(true));
    assert_eq!(cidr_contains("10.1.0.0/16", v4([10, 2, 0, 0])), Some(false));
    assert_eq!(cidr_contains("10.1.2.3/32", v4([10, 1, 2, 3])), Some(true));
    assert_eq!(cidr_contains("10.1.2.3/32", v4([10, 1, 2, 4])), Some(false));
    assert_eq!(cidr_contains("0.0.0.0/0", v4([203, 0, 113, 10])), Some(true));
    assert_eq!(cidr_contains("10.9.9.9/8", v4([10, 0, 0, 1])), Some(true));
    assert_eq!(cidr_contains("::/0", IpAddr::V6(7)), Some(true));
    assert_eq!(cidr_contains("2001:db8::/32", IpAddr::V6(0x2001_0db8 << 96)), Some(true));
    assert_eq!(cidr_contains("2001:db8::/32", IpAddr::V6(0x2001_0db9 << 96)), Some(false));
}

#[test]
fn block_of_the_other_family_holds_nothing() {
    assert_eq!(cidr_contains("0.0.0.0/0", IpAddr::V6(0)), Some(false));
    assert_eq!(cidr_contains("::/0", v4([10, 0, 0, 1])), Some(false));
}

#[test]
fn malformed_block_is_no_block() {
    for cidr in ["10.0.0.0", "10.0.0.0/", "10.0.0.0/33", "10.0.0/8", "/8", "10.0.0.0/8/8"] {
        assert_eq!(cidr_contains(cidr, v4([10, 0, 0, 1])), None, "{cidr:?}");
    }
    assert_eq!(cidr_contains("::/129", IpAddr::V6(0)), None);
    assert_eq!(cidr_contains("::/129", v4([10, 0, 0, 1])), None);
    assert_eq!(cidr_contains("10.0.0.0/33", IpAddr::V6(1)), None);
}
