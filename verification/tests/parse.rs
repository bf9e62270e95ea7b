use f429zi_logic::parse::{parse_ipv4, parse_port};

#[test]
fn ipv4_ok() {
    assert_eq!(parse_ipv4("192.168.1.20"), Some([192, 168, 1, 20]));
}

#[test]
fn ipv4_rejects_garbage() {
    assert_eq!(parse_ipv4("192.168.1"), None);
    assert_eq!(parse_ipv4("192.168.1.999"), None);
    assert_eq!(parse_ipv4(""), None);
}

#[test]
fn port_ok_and_rejects_zero() {
    assert_eq!(parse_port("80"), Some(80));
    assert_eq!(parse_port("0"), None);
    assert_eq!(parse_port("70000"), None);
}

#[test]
fn ipv4_edge_cases() {
    assert_eq!(parse_ipv4("0.0.0.0"), Some([0, 0, 0, 0]));
    assert_eq!(parse_ipv4("255.255.255.255"), Some([255, 255, 255, 255]));
    assert_eq!(parse_ipv4("256.0.0.1"), None);
    assert_eq!(parse_ipv4("1.2.3.4.5"), None);
    assert_eq!(parse_ipv4("1.2.3.4."), None);
    assert_eq!(parse_ipv4(".1.2.3"), None);
    assert_eq!(parse_ipv4("1..2.3"), None);
    assert_eq!(parse_ipv4("1.2.3.x"), None);
    assert_eq!(parse_ipv4("1.2.3.-4"), None);
    assert_eq!(parse_ipv4(" 1.2.3.4"), None);
    assert_eq!(parse_ipv4("...."), None);
    assert_eq!(parse_ipv4("1.2.3.é"), None);
}

#[test]
fn ipv4_accepts_what_str_parse_accepts() {
    // `str::parse::<u8>` takes one leading '+' and leading zeros.
    assert_eq!(parse_ipv4("+1.02.003.0004"), Some([1, 2, 3, 4]));
    assert_eq!(parse_ipv4("++1.2.3.4"), None);
    assert_eq!(parse_ipv4("+.2.3.4"), None);
    for p in ["+1", "02", "003", "0004"] {
        assert_eq!(p.parse::<u8>().ok().is_some(), true);
    }
}

#[test]
fn port_edge_cases() {
    assert_eq!(parse_port("1"), Some(1));
    assert_eq!(parse_port("65535"), Some(65535));
    assert_eq!(parse_port("65536"), None);
    assert_eq!(parse_port("+8080"), Some(8080));
    assert_eq!(parse_port("08080"), Some(8080));
    assert_eq!(parse_port(""), None);
    assert_eq!(parse_port("+"), None);
    assert_eq!(parse_port("-1"), None);
    assert_eq!(parse_port("80 "), None);
    assert_eq!(parse_port("00000000000000000000080"), Some(80));
    for s in ["1", "65535", "65536", "+8080", "08080", "", "+", "-1", "80 ", "0"] {
        let expected = s.parse::<u16>().ok().filter(|p| *p != 0);
        assert_eq!(parse_port(s), expected);
    }
}

#[test]
fn canonical_text_round_trips() {
    for a in [[0u8, 0, 0, 0], [255, 255, 255, 255], [10, 0, 0, 5], [192, 168, 100, 9], [1, 22, 133, 4]] {
        let text = format!("{}.{}.{}.{}", a[0], a[1], a[2], a[3]);
        assert_eq!(parse_ipv4(&text), Some(a));
    }
    for p in 1..=u16::MAX {
        assert_eq!(parse_port(&p.to_string()), Some(p));
    }
}
