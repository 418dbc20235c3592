use meridian::ipv6::Ipv6Address;
use meridian::net::{IpAddress, Ipv4Address, SocketAddress};

fn v6(s: [u16; 8]) -> IpAddress {
    IpAddress::V6(Ipv6Address { s0: s[0], s1: s[1], s2: s[2], s3: s[3], s4: s[4], s5: s[5], s6: s[6], s7: s[7] })
}

#[test]
fn ipv6_addresses_are_written_in_their_shortest_form() {
    let cases: [([u16; 8], &str); 9] = [
        ([0, 0, 0, 0, 0, 0, 0, 1], "::1"),
        ([0, 0, 0, 0, 0, 0, 0, 0], "::"),
        ([0x2001, 0xdb8, 0, 0, 0, 0xff00, 0x42, 0x8329], "2001:db8::ff00:42:8329"),
        ([1, 0, 0, 1, 0, 0, 0, 1], "1:0:0:1::1"),
        ([1, 0, 0, 2, 0, 0, 3, 4], "1::2:0:0:3:4"),
        ([1, 2, 3, 4, 5, 6, 7, 8], "1:2:3:4:5:6:7:8"),
        ([1, 2, 3, 4, 5, 6, 7, 0], "1:2:3:4:5:6:7:0"),
        ([0, 0, 0, 0, 0, 0xffff, 0xc000, 0x0280], "::ffff:192.0.2.128"),
        ([0, 0, 0, 0, 0, 0, 0x102, 0x304], "::102:304"),
    ];
    for (segments, text) in cases {
        assert_eq!(v6(segments).to_text(), text);
        assert_eq!(IpAddress::parse(text), Some(v6(segments)), "{text}");
    }
}

#[test]
fn ipv6_text_is_read_in_every_form() {
    let loopback = v6([0, 0, 0, 0, 0, 0, 0, 1]);
    for text in ["::1", "0:0:0:0:0:0:0:1", "0000:0000::0001", "0::0:1", "::0:1"] {
        assert_eq!(IpAddress::parse(text), Some(loopback), "{text}");
    }
    assert_eq!(
        IpAddress::parse("2001:0DB8:0000:0000:0000:FF00:0042:8329"),
        Some(v6([0x2001, 0xdb8, 0, 0, 0, 0xff00, 0x42, 0x8329]))
    );
    assert_eq!(IpAddress::parse("1:2:3:4:5:6:7::"), Some(v6([1, 2, 3, 4, 5, 6, 7, 0])));
    assert_eq!(IpAddress::parse("::1:2:3:4:5:6:7"), Some(v6([0, 1, 2, 3, 4, 5, 6, 7])));
    assert_eq!(IpAddress::parse("1:2:3:4:5:6:1.2.3.4"), Some(v6([1, 2, 3, 4, 5, 6, 0x102, 0x304])));
    assert_eq!(IpAddress::parse("::1.2.3.4"), Some(v6([0, 0, 0, 0, 0, 0, 0x102, 0x304])));
    for bad in [
        "", ":", ":::", "1::2::3", "12345::", "1:2:3:4:5:6:7", "1:2:3:4:5:6:7:8:9", "::1.2.3",
        "1.2.3.4::", "[::1]", "g::1", "1:2:3:4:5:6:7:8::", "::1:2:3:4:5:6:7:8", ":1::", "1:",
        "1.2.3.4:5:6:7:8:9:10", "::01.2.3.4", "1::2:3:4:5:6:7:8",
    ] {
        assert_eq!(IpAddress::parse(bad), None, "{bad}");
    }
}

#[test]
fn addresses_of_either_family_read_back_from_their_text() {
    let addresses = [
        IpAddress::V4(Ipv4Address { a: 0, b: 0, c: 0, d: 0 }),
        IpAddress::V4(Ipv4Address { a: 255, b: 10, c: 1, d: 99 }),
        v6([0xfe80, 0, 0, 0, 0x1ff, 0xfe23, 0x4567, 0x890a]),
        v6([0, 0, 1, 0, 0, 0, 1, 0]),
        v6([0, 0, 0, 0, 0, 0xffff, 0, 0]),
        v6([0xffff; 8]),
    ];
    for address in addresses {
        assert_eq!(IpAddress::parse(&address.to_text()), Some(address));
    }
}

#[test]
fn ipv6_socket_addresses_are_bracketed() {
    let address = SocketAddress { ip: v6([0, 0, 0, 0, 0, 0, 0, 1]), port: 8080 };
    assert_eq!(address.to_text(), "[::1]:8080");
    assert_eq!(SocketAddress::parse("[::1]:8080"), Some(address));
    assert_eq!(SocketAddress::parse("[0:0:0:0:0:0:0:1]:08080"), Some(address));
    for bad in ["[::1]8080", "[::1]:", "::1:8080", "[::1:8080", "[1.2.3.4]:80", "[::1]:65536", "[::1%1]:80"] {
        assert_eq!(SocketAddress::parse(bad), None, "{bad}");
    }
}
