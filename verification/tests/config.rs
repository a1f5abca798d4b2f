use schmfy_server::address::Ipv4Address;
use schmfy_server::config::{
    parse_port, resolve, ConfigError, Configuration, Variable, DEFAULT_PORT, HOST_VARIABLE,
    PORT_VARIABLE,
};

#[test]
fn unset_settings_resolve_to_the_defaults() {
    let expected = Configuration { address: Ipv4Address(0, 0, 0, 0), port: 8000 };
    assert_eq!(resolve(None, None), Ok(expected));
    assert_eq!(Configuration::default(), expected);
    assert_eq!(DEFAULT_PORT, 8000);
}

#[test]
fn port_with_surrounding_whitespace_resolves() {
    let resolved = resolve(None, Some(" 9090 "));
    assert_eq!(resolved, Ok(Configuration { address: Ipv4Address(0, 0, 0, 0), port: 9090 }));
    assert_eq!(resolve(None, Some("\t9090\n")).map(|c| c.port), Ok(9090));
    assert_eq!(resolve(None, Some("9090")).map(|c| c.port), Ok(9090));
}

#[test]
fn port_that_is_no_number_fails() {
    assert_eq!(
        resolve(None, Some("notaport")),
        Err(ConfigError { variable: Variable::Port, value: String::from("notaport") })
    );
}

#[test]
fn both_settings_resolve() {
    assert_eq!(
        resolve(Some("127.0.0.1"), Some("3000")),
        Ok(Configuration { address: Ipv4Address(127, 0, 0, 1), port: 3000 })
    );
    assert_eq!(
        resolve(Some("10.1.2.3"), None),
        Ok(Configuration { address: Ipv4Address(10, 1, 2, 3), port: 8000 })
    );
    assert_eq!(
        resolve(Some("255.255.255.255"), Some("65535")),
        Ok(Configuration { address: Ipv4Address(255, 255, 255, 255), port: 65535 })
    );
    assert_eq!(
        resolve(Some("0.0.0.0"), Some("0")),
        Ok(Configuration { address: Ipv4Address(0, 0, 0, 0), port: 0 })
    );
}

#[test]
fn address_that_cannot_be_read_fails() {
    for host in ["", "localhost", "1.2.3", "256.0.0.1", "01.2.3.4", " 127.0.0.1", "127.0.0.1 ", "::1"] {
        assert_eq!(
            resolve(Some(host), Some("8000")),
            Err(ConfigError { variable: Variable::Host, value: String::from(host) }),
            "{:?}",
            host
        );
    }
}

#[test]
fn address_is_not_trimmed() {
    assert!(resolve(Some(" 0.0.0.0"), None).is_err());
    assert!(resolve(Some("0.0.0.0\n"), None).is_err());
}

#[test]
fn address_is_looked_at_before_the_port() {
    assert_eq!(
        resolve(Some("nowhere"), Some("notaport")),
        Err(ConfigError { variable: Variable::Host, value: String::from("nowhere") })
    );
}

#[test]
fn port_error_carries_the_value_as_it_was_set() {
    assert_eq!(
        resolve(Some("127.0.0.1"), Some("  80 80  ")),
        Err(ConfigError { variable: Variable::Port, value: String::from("  80 80  ") })
    );
    assert_eq!(
        resolve(None, Some("")),
        Err(ConfigError { variable: Variable::Port, value: String::new() })
    );
    assert_eq!(
        resolve(None, Some("   ")),
        Err(ConfigError { variable: Variable::Port, value: String::from("   ") })
    );
}

#[test]
fn no_default_stands_in_for_a_setting_that_cannot_be_read() {
    for port in ["65536", "-1", "80.0", "0x50", "eighty", "8000;", "+", "++80", "8 0"] {
        let resolved = resolve(None, Some(port));
        assert_eq!(resolved.map_err(|e| e.variable), Err(Variable::Port), "{:?}", port);
    }
}

#[test]
fn parse_port_reads_decimal_numbers() {
    assert_eq!(parse_port("0"), Some(0));
    assert_eq!(parse_port("80"), Some(80));
    assert_eq!(parse_port("8000"), Some(8000));
    assert_eq!(parse_port("65535"), Some(65535));
    assert_eq!(parse_port("+443"), Some(443));
    assert_eq!(parse_port("0080"), Some(80));
    assert_eq!(parse_port("+0"), Some(0));
    assert_eq!(parse_port("000000000000000000000000065535"), Some(65535));
}

#[test]
fn parse_port_refuses_everything_else() {
    for s in [
        "", "+", "-", "-0", "-1", "65536", "70000", "100000", "99999999999999999999", " 80",
        "80 ", "8 0", "80a", "a80", "0x50", "8e3", "80.0", "++80", "+-80", "80+", "\u{ff18}\u{ff10}",
        "\u{0668}", "notaport",
    ] {
        assert_eq!(parse_port(s), None, "{:?}", s);
    }
}

#[test]
fn parse_port_agrees_with_the_standard_library() {
    for s in [
        "", "+", "-", "-0", "0", "+0", "00", "1", "+1", "0001", "65535", "65536", "065535",
        "0000065536", " 1", "1 ", "1_000", "１", "4294967296", "18446744073709551616", "+65535",
        "+65536", "9090", "notaport",
    ] {
        assert_eq!(parse_port(s), s.parse::<u16>().ok(), "{:?}", s);
    }
}

#[test]
fn every_port_is_read_back_from_its_numeral() {
    let mut n = 0u16;
    loop {
        let text = n.to_string();
        assert_eq!(parse_port(&text), Some(n));
        if n % 257 == 0 {
            let padded = format!(" \t{}\r\n", text);
            assert_eq!(resolve(Some("1.2.3.4"), Some(&padded)).map(|c| c.port), Ok(n));
        }
        if n == u16::MAX {
            break;
        }
        n += 1;
    }
}

#[test]
fn variables_have_their_names() {
    assert_eq!(HOST_VARIABLE, "SCHMFY_HOST");
    assert_eq!(PORT_VARIABLE, "SCHMFY_PORT");
    assert_eq!(Variable::Host.name(), "SCHMFY_HOST");
    assert_eq!(Variable::Port.name(), "SCHMFY_PORT");
}

#[test]
fn errors_describe_themselves() {
    let host = ConfigError { variable: Variable::Host, value: String::from("x") };
    let port = ConfigError { variable: Variable::Port, value: String::from("y") };
    assert_eq!(host.description(), "could not parse HOST_ADDRESS as IPv4 address");
    assert_eq!(port.description(), "could not parse HOST_PORT as port number");
}

#[test]
fn endpoint_is_address_and_port() {
    let configuration = Configuration { address: Ipv4Address(127, 0, 0, 1), port: 9090 };
    assert_eq!(configuration.endpoint(), "127.0.0.1:9090");
    assert_eq!(Configuration::default().endpoint(), "0.0.0.0:8000");
    let widest = Configuration { address: Ipv4Address(255, 255, 255, 255), port: 65535 };
    assert_eq!(widest.endpoint(), "255.255.255.255:65535");
    let narrowest = Configuration { address: Ipv4Address(0, 0, 0, 0), port: 0 };
    assert_eq!(narrowest.endpoint(), "0.0.0.0:0");
}

#[test]
fn bind_failure_names_the_endpoint() {
    let configuration = Configuration { address: Ipv4Address(10, 0, 0, 7), port: 80 };
    assert_eq!(configuration.bind_failure(), "could not bind to port 10.0.0.7:80");
}
