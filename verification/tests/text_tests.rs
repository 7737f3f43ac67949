use net_combiner::addr::{parse_ip, IpAddr, Ipv4Addr, Ipv6Addr, SocketAddr, SocketAddrV6};
use net_combiner::text::{
    chars_of, decimal_text, is_text_before, is_whitespace, join, parse_digits, parse_u16,
    push_hexadecimal, push_padded, quote, same_text, split_chars, string_of, trim, u16_fault,
    NumberFault,
};

#[test]
fn white_space_is_the_unicode_property() {
    let mut code: u32 = 0;
    while code <= 0x10ffff {
        if let Some(ch) = char::from_u32(code) {
            assert_eq!(is_whitespace(ch), ch.is_whitespace(), "U+{:04X}", code);
        }
        code += 1;
    }
}

#[test]
fn numbers_are_read() {
    for text in [
        "0", "7", "+7", "007", "65535", "65536", "+65536", "99999x", "6553x", "", "+", "-", "-1",
        "x", " 1", "1 ", "++1", "12a", "000000000000065535", "\u{663}",
    ] {
        match text.parse::<u16>() {
            Ok(number) => {
                assert_eq!(parse_u16(text), Some(number), "{text}");
                assert_eq!(u16_fault(text), None, "{text}");
            }
            Err(error) => {
                assert_eq!(parse_u16(text), None, "{text}");
                let fault = u16_fault(text).expect("a fault");
                assert_eq!(fault.message(), error.to_string(), "{text}");
            }
        }
    }
    assert_eq!(u16_fault(""), Some(NumberFault::Empty));
    assert_eq!(u16_fault("x"), Some(NumberFault::InvalidDigit));
    assert_eq!(u16_fault("70000"), Some(NumberFault::TooLarge));
}

#[test]
fn numbers_are_written() {
    assert_eq!(decimal_text(0), "0");
    assert_eq!(decimal_text(u64::MAX), "18446744073709551615");
    let mut out = String::new();
    push_padded(&mut out, 7, 3);
    push_padded(&mut out, 12345, 2);
    push_hexadecimal(&mut out, 0xbeef);
    assert_eq!(out, "00712345beef");
    assert_eq!(parse_digits(&chars_of("ffFF"), 16), Some(0xffff));
    assert_eq!(parse_digits(&chars_of("12"), 10), Some(12));
    assert_eq!(parse_digits(&chars_of("1f"), 10), None);
}

#[test]
fn texts_are_cut_and_joined() {
    assert_eq!(trim("\t two words \u{3000}\n"), "two words");
    assert_eq!(trim(" \u{85} "), "");
    let parts: Vec<String> =
        split_chars(&chars_of(",a,,b"), ',').iter().map(|part| string_of(part)).collect();
    assert_eq!(parts, vec!["", "a", "", "b"]);
    assert_eq!(join(&parts, ","), ",a,,b");
    assert_eq!(join(&vec![], ", "), "");
    assert_eq!(quote("a\"b\\"), "\"a\\\"b\\\"");
    assert!(same_text("\u{ac00}x", "\u{ac00}x"));
    assert!(!same_text("a", "ab"));
}

#[test]
fn texts_are_in_order() {
    let texts = ["", "A", "Ab", "B", "a", "\u{e9}", "\u{ffff}", "\u{10000}"];
    for left in texts {
        for right in texts {
            assert_eq!(is_text_before(left, right), left < right, "{left} {right}");
        }
    }
}

fn v6(segments: [u16; 8]) -> IpAddr {
    let s = segments;
    IpAddr::V6(Ipv6Addr::new(s[0], s[1], s[2], s[3], s[4], s[5], s[6], s[7]))
}

#[test]
fn addresses_are_written() {
    assert_eq!(IpAddr::V4(Ipv4Addr::new(192, 0, 2, 255)).to_text(), "192.0.2.255");
    for (segments, text) in [
        ([0, 0, 0, 0, 0, 0, 0, 0], "::"),
        ([0, 0, 0, 0, 0, 0, 0, 1], "::1"),
        ([1, 0, 0, 0, 0, 0, 0, 0], "1::"),
        ([0x2001, 0xdb8, 0, 0, 1, 0, 0, 1], "2001:db8::1:0:0:1"),
        ([0x2001, 0xdb8, 0, 1, 0, 0, 0, 1], "2001:db8:0:1::1"),
        ([1, 0, 3, 4, 5, 6, 7, 8], "1:0:3:4:5:6:7:8"),
        ([0, 0, 0, 0, 0, 0xffff, 0xc000, 0x0201], "::ffff:192.0.2.1"),
        ([0, 0, 0, 0, 0, 0, 0xc000, 0x0201], "::c000:201"),
        ([0xfe80, 0, 0, 0, 0xabcd, 0, 0, 0], "fe80::abcd:0:0:0"),
    ] {
        assert_eq!(v6(segments).to_text(), text);
        assert_eq!(parse_ip(text), Some(v6(segments)), "{text}");
    }
}

#[test]
fn endpoints_are_written() {
    let four = SocketAddr::new(IpAddr::V4(Ipv4Addr::new(10, 0, 0, 1)), 80);
    assert_eq!(four.to_text(), "10.0.0.1:80");
    let six = SocketAddr::new(v6([0, 0, 0, 0, 0, 0, 0, 1]), 1080);
    assert_eq!(six.to_text(), "[::1]:1080");
    let scoped = SocketAddr::V6(SocketAddrV6 {
        ip: Ipv6Addr::new(0xfe80, 0, 0, 0, 0, 0, 0, 1),
        port: 9,
        flowinfo: 3,
        scope_id: 12,
    });
    assert_eq!(scoped.to_text(), "[fe80::1%12]:9");
    assert_eq!(scoped.ip(), v6([0xfe80, 0, 0, 0, 0, 0, 0, 1]));
    assert_eq!(scoped.port(), 9);
    assert!(!scoped.is_ipv4());
}

#[test]
fn addresses_are_read() {
    assert_eq!(parse_ip("1.2.3.4"), Some(IpAddr::V4(Ipv4Addr::new(1, 2, 3, 4))));
    assert_eq!(parse_ip("0:0:0:0:0:FFFF:1.2.3.4"), Some(v6([0, 0, 0, 0, 0, 0xffff, 0x102, 0x304])));
    assert_eq!(parse_ip("1:2:3:4:5:6:7::"), Some(v6([1, 2, 3, 4, 5, 6, 7, 0])));
    assert_eq!(parse_ip("::2:3:4:5:6:7:8"), Some(v6([0, 2, 3, 4, 5, 6, 7, 8])));
    for text in [
        "", "1.2.3", "1.2.3.4.5", "256.1.1.1", "01.2.3.4", "1.2.3.4 ", " 1.2.3.4", "1.2.3.+4", "1..2.3",
        "localhost", ":", ":::", "1:2:3:4:5:6:7", "1:2:3:4:5:6:7:8:9", "1::2::3", "12345::", "::g",
        "[::1]", "::1%lo", "1:2:3:4:5:6:7:1.2.3.4", "::1.2.3", "1:2:3:4:5:6:7:8::",
    ] {
        assert_eq!(parse_ip(text), None, "{text}");
    }
}

#[test]
fn addresses_have_classes() {
    assert!(IpAddr::V4(Ipv4Addr::new(0, 0, 0, 0)).is_unspecified());
    assert!(IpAddr::V4(Ipv4Addr::new(127, 9, 9, 9)).is_loopback());
    assert!(v6([0; 8]).is_unspecified());
    assert!(v6([0, 0, 0, 0, 0, 0, 0, 1]).is_loopback());
    assert!(!v6([0, 0, 0, 0, 0, 0xffff, 0x7f00, 1]).is_loopback());
    assert!(IpAddr::V4(Ipv4Addr::new(255, 0, 0, 0)).is_before(&v6([0; 8])));
    assert!(!v6([0; 8]).is_before(&IpAddr::V4(Ipv4Addr::new(1, 1, 1, 1))));
    assert!(IpAddr::V4(Ipv4Addr::new(9, 255, 0, 0)).is_before(&IpAddr::V4(Ipv4Addr::new(10, 0, 0, 0))));
    assert!(v6([1, 2, 3, 4, 5, 6, 7, 8]).is_before(&v6([1, 2, 3, 4, 5, 6, 7, 9])));
}

#[test]
fn octets_and_segments() {
    let ip = Ipv6Addr::new(0x0102, 0x0304, 0x0506, 0x0708, 0x090a, 0x0b0c, 0x0d0e, 0x0f10);
    let octets = ip.octets();
    assert_eq!(octets, [1, 2, 3, 4, 5, 6, 7, 8, 9, 10, 11, 12, 13, 14, 15, 16]);
    assert_eq!(Ipv6Addr::from_octets(&octets, 0), ip);
    assert_eq!(ip.segments()[7], 0x0f10);
    assert_eq!(Ipv4Addr::new(1, 2, 3, 4).octets(), [1, 2, 3, 4]);
}
