use trubadur::address::{
    ip_to_string, parse_ip, parse_ipv4, parse_ipv6, IpAddress, SocketAddress, IPV6_UNSUPPORTED,
};

#[test]
fn ipv4_is_written_dotted() {
    assert_eq!(ip_to_string(IpAddress::V4([10, 0, 0, 1])), "10.0.0.1");
    assert_eq!(ip_to_string(IpAddress::V4([0, 0, 0, 0])), "0.0.0.0");
    assert_eq!(ip_to_string(IpAddress::V4([255, 255, 255, 255])), "255.255.255.255");
    assert_eq!(ip_to_string(IpAddress::V4([192, 168, 100, 9])), "192.168.100.9");
    assert_eq!(ip_to_string(IpAddress::V4([1, 20, 200, 99])), "1.20.200.99");
}

#[test]
fn ipv6_is_written_as_the_notice() {
    assert_eq!(ip_to_string(IpAddress::V6([0, 0, 0, 0, 0, 0, 0, 1])), "Ipv6 not supported");
    assert_eq!(ip_to_string(IpAddress::V6([0xfe80, 0, 0, 0, 1, 2, 3, 4])), IPV6_UNSUPPORTED);
}

#[test]
fn ipv4_text_is_read() {
    assert_eq!(parse_ipv4(b"10.0.0.1"), Some([10, 0, 0, 1]));
    assert_eq!(parse_ipv4(b"0.0.0.0"), Some([0, 0, 0, 0]));
    assert_eq!(parse_ipv4(b"255.255.255.255"), Some([255, 255, 255, 255]));
    assert_eq!(parse_ipv4(b"192.168.100.9"), Some([192, 168, 100, 9]));
}

#[test]
fn malformed_ipv4_text_is_refused() {
    for text in [
        "", ".", "...", "1.2.3", "1.2.3.4.5", "1.2.3.", ".1.2.3", "1..2.3", "256.0.0.1",
        "1.2.3.256", "01.2.3.4", "1.2.3.04", "1.2.3.00", "1.2.3.4 ", " 1.2.3.4", "1.2.3.a",
        "1.2.3.-4", "+1.2.3.4", "1.2.3.1234", "1,2,3,4", "0x1.2.3.4", "1.2.3.4\n",
    ] {
        assert_eq!(parse_ipv4(text.as_bytes()), None, "{}", text);
    }
}

#[test]
fn written_ipv4_is_read_back() {
    for a in [[0u8, 0, 0, 0], [1, 2, 3, 4], [9, 10, 99, 100], [127, 0, 0, 1], [255, 254, 253, 252]] {
        let text = ip_to_string(IpAddress::V4(a));
        assert_eq!(parse_ip(text.as_bytes()), Some(IpAddress::V4(a)));
    }
}

#[test]
fn full_ipv6_text_is_read() {
    assert_eq!(
        parse_ipv6(b"fe80:0000:0000:0000:0202:b3ff:fe1e:8329"),
        Some([0xfe80, 0, 0, 0, 0x0202, 0xb3ff, 0xfe1e, 0x8329])
    );
    assert_eq!(parse_ipv6(b"1:2:3:4:5:6:7:8"), Some([1, 2, 3, 4, 5, 6, 7, 8]));
    assert_eq!(
        parse_ipv6(b"FFFF:ffff:AbCd:0:00:000:0000:F"),
        Some([0xffff, 0xffff, 0xabcd, 0, 0, 0, 0, 0xf])
    );
}

#[test]
fn compressed_ipv6_text_is_read() {
    assert_eq!(parse_ipv6(b"::"), Some([0, 0, 0, 0, 0, 0, 0, 0]));
    assert_eq!(parse_ipv6(b"::1"), Some([0, 0, 0, 0, 0, 0, 0, 1]));
    assert_eq!(parse_ipv6(b"1::"), Some([1, 0, 0, 0, 0, 0, 0, 0]));
    assert_eq!(parse_ipv6(b"fe80::1:2"), Some([0xfe80, 0, 0, 0, 0, 0, 1, 2]));
    assert_eq!(parse_ipv6(b"2001:db8::ff00:42:8329"), Some([0x2001, 0xdb8, 0, 0, 0, 0xff00, 0x42, 0x8329]));
    assert_eq!(parse_ipv6(b"1:2:3:4:5:6:7::"), Some([1, 2, 3, 4, 5, 6, 7, 0]));
    assert_eq!(parse_ipv6(b"::2:3:4:5:6:7:8"), Some([0, 2, 3, 4, 5, 6, 7, 8]));
    assert_eq!(parse_ipv6(b"1:2:3::5:6:7:8"), Some([1, 2, 3, 0, 5, 6, 7, 8]));
}

#[test]
fn ipv6_text_may_end_in_ipv4() {
    assert_eq!(parse_ipv6(b"::ffff:10.0.0.1"), Some([0, 0, 0, 0, 0, 0xffff, 0x0a00, 0x0001]));
    assert_eq!(parse_ipv6(b"::1.2.3.4"), Some([0, 0, 0, 0, 0, 0, 0x0102, 0x0304]));
    assert_eq!(
        parse_ipv6(b"1:2:3:4:5:6:255.254.253.252"),
        Some([1, 2, 3, 4, 5, 6, 0xfffe, 0xfdfc])
    );
    assert_eq!(parse_ipv6(b"64:ff9b::192.0.2.33"), Some([0x64, 0xff9b, 0, 0, 0, 0, 0xc000, 0x0221]));
}

#[test]
fn malformed_ipv6_text_is_refused() {
    for text in [
        "", ":", ":::", "1", "1:2:3:4:5:6:7", "1:2:3:4:5:6:7:8:9", "1:2:3:4:5:6:7:8::",
        "::1:2:3:4:5:6:7:8", "1:2:3:4:5:6:7::8", "1::2::3", "12345::", "::g", "1:2:3:4:5:6:7:",
        ":1:2:3:4:5:6:7", "1:2:3:4:5:6:7:8 ", "fe80::1%eth0", "1.2.3.4::", "1.2.3.4::1",
        "1:2:3:4:5:6:7:1.2.3.4", "1:2:3:4:5:1.2.3.4", "::1.2.3", "::1.2.3.4:5", "::01.2.3.4",
        "1.2.3.4", "::-1", "::+1", ":: 1",
    ] {
        assert_eq!(parse_ipv6(text.as_bytes()), None, "{}", text);
    }
}

#[test]
fn ipv6_forms_at_the_limits() {
    assert_eq!(parse_ipv6(b"0:0:0:0:0:0:0:0"), Some([0, 0, 0, 0, 0, 0, 0, 0]));
    assert_eq!(parse_ipv6(b"a:b:c:d:e:f:0:1"), Some([10, 11, 12, 13, 14, 15, 0, 1]));
    assert_eq!(parse_ipv6(b"A:B:C:D:E:F:0:1"), Some([10, 11, 12, 13, 14, 15, 0, 1]));
    assert_eq!(parse_ipv6(b"1:2:3:4::5:6:7"), Some([1, 2, 3, 4, 0, 5, 6, 7]));
    assert_eq!(parse_ipv6(b"1:2:3:4::5:6:7:8"), None);
    assert_eq!(parse_ipv6(b"::00001"), None);
    assert_eq!(parse_ipv6(b"::0001"), Some([0, 0, 0, 0, 0, 0, 0, 1]));
    assert_eq!(parse_ipv6(b"::ffff"), Some([0, 0, 0, 0, 0, 0, 0, 0xffff]));
    assert_eq!(parse_ipv6(b"1:2:3:4:5::6.7.8.9"), Some([1, 2, 3, 4, 5, 0, 0x0607, 0x0809]));
    assert_eq!(parse_ipv6(b"1:2:3:4:5:6::7.8.9.10"), None);
}

#[test]
fn ipv4_forms_at_the_limits() {
    assert_eq!(parse_ipv4(b"1.2.3.0"), Some([1, 2, 3, 0]));
    assert_eq!(parse_ipv4(b"0.10.100.255"), Some([0, 10, 100, 255]));
    assert_eq!(parse_ipv4(b"1.2.3.000"), None);
    assert_eq!(parse_ipv4(b"1.2.3.0255"), None);
    assert_eq!(parse_ipv4(b"1.2.3.999"), None);
    assert_eq!(parse_ipv4("١.2.3.4".as_bytes()), None);
}

#[test]
fn either_family_is_read() {
    assert_eq!(parse_ip(b"10.0.0.1"), Some(IpAddress::V4([10, 0, 0, 1])));
    assert_eq!(parse_ip(b"::1"), Some(IpAddress::V6([0, 0, 0, 0, 0, 0, 0, 1])));
    assert_eq!(parse_ip(b"10.0.0"), None);
    assert_eq!(parse_ip(b"localhost"), None);
    assert_eq!(parse_ip(b""), None);
}

#[test]
fn families_are_told_apart() {
    let a = IpAddress::V4([1, 2, 3, 4]);
    let b = IpAddress::V4([4, 3, 2, 1]);
    let c = IpAddress::V6([0, 0, 0, 0, 0, 0, 0, 1]);
    assert!(a.is_same_family(&b));
    assert!(c.is_same_family(&c));
    assert!(!a.is_same_family(&c));
    assert!(!c.is_same_family(&a));
    let socket = SocketAddress { ip: a, port: 80 };
    assert_eq!(socket.ip, a);
    assert_eq!(socket.port, 80);
}
