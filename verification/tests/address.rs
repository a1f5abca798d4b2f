use schmfy_server::address::Ipv4Address;

#[test]
fn parse_reads_dotted_decimal() {
    assert_eq!(Ipv4Address::parse("0.0.0.0"), Some(Ipv4Address(0, 0, 0, 0)));
    assert_eq!(Ipv4Address::parse("127.0.0.1"), Some(Ipv4Address(127, 0, 0, 1)));
    assert_eq!(Ipv4Address::parse("255.255.255.255"), Some(Ipv4Address(255, 255, 255, 255)));
    assert_eq!(Ipv4Address::parse("192.168.1.20"), Some(Ipv4Address(192, 168, 1, 20)));
    assert_eq!(Ipv4Address::parse("1.2.3.4"), Some(Ipv4Address(1, 2, 3, 4)));
    assert_eq!(Ipv4Address::parse("10.100.9.99"), Some(Ipv4Address(10, 100, 9, 99)));
}

#[test]
fn parse_refuses_what_is_no_address() {
    for s in [
        "", ".", "...", "1", "1.2", "1.2.3", "1.2.3.", ".1.2.3", "1.2.3.4.", "1.2.3.4.5",
        "1..2.3", "1.2..3", "256.1.1.1", "1.256.1.1", "1.1.256.1", "1.1.1.256", "1.1.1.1000",
        "01.2.3.4", "1.02.3.4", "1.2.003.4", "1.2.3.04", "00.0.0.0", "1.2.3.4 ", " 1.2.3.4",
        "1.2.3 .4", "1.2.3.4\n", "+1.2.3.4", "-1.2.3.4", "1.2.3.-4", "a.b.c.d", "1.2.3.x",
        "0x7f.0.0.1", "1,2,3,4", "1.2.3.4/24", "localhost", "::1", "1.2.3.4:80",
        "\u{ff11}.2.3.4", "1.2.3.\u{0664}", "999999999999999999999.1.1.1", "1.2.3.4294967297",
    ] {
        assert_eq!(Ipv4Address::parse(s), None, "{:?}", s);
    }
}

#[test]
fn parse_accepts_exactly_the_shortest_numerals() {
    let cases: [(&str, Option<[u8; 4]>); 12] = [
        ("9.9.9.9", Some([9, 9, 9, 9])),
        ("99.99.99.99", Some([99, 99, 99, 99])),
        ("100.100.100.100", Some([100, 100, 100, 100])),
        ("249.250.251.252", Some([249, 250, 251, 252])),
        ("0.10.200.0", Some([0, 10, 200, 0])),
        ("0.00.0.0", None),
        ("000.0.0.0", None),
        ("300.1.1.1", None),
        ("1.2.3.0255", None),
        ("1.2.3.2550", None),
        ("....", None),
        ("1.2.3.4.", None),
    ];
    for (text, expected) in cases {
        assert_eq!(Ipv4Address::parse(text).map(|ip| ip.octets()), expected, "{:?}", text);
    }
}

#[test]
fn text_is_dotted_decimal() {
    assert_eq!(Ipv4Address(0, 0, 0, 0).to_text(), "0.0.0.0");
    assert_eq!(Ipv4Address(127, 0, 0, 1).to_text(), "127.0.0.1");
    assert_eq!(Ipv4Address(255, 255, 255, 255).to_text(), "255.255.255.255");
    assert_eq!(Ipv4Address(10, 100, 9, 99).to_text(), "10.100.9.99");
}

#[test]
fn every_octet_is_read_back_from_its_text_in_every_place() {
    for n in 0u8..=255 {
        for ip in [
            Ipv4Address(n, 1, 22, 133),
            Ipv4Address(1, n, 22, 133),
            Ipv4Address(1, 22, n, 133),
            Ipv4Address(1, 22, 133, n),
            Ipv4Address(n, n, n, n),
        ] {
            let text = ip.to_text();
            assert_eq!(text, format!("{}.{}.{}.{}", ip.0, ip.1, ip.2, ip.3));
            assert_eq!(Ipv4Address::parse(&text), Some(ip));
        }
    }
}

#[test]
fn octets_are_in_order() {
    assert_eq!(Ipv4Address(1, 2, 3, 4).octets(), [1, 2, 3, 4]);
    assert_eq!(Ipv4Address(192, 168, 0, 255).octets(), [192, 168, 0, 255]);
}
