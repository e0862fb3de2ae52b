use ip_gacha_roll::ipv4::{has_new_ip, Ipv4};

#[test]
fn waits_for_a_changed_ip() {
    let old = Ipv4::new(192, 0, 2, 1);
    assert!(!has_new_ip(Some(old), old));
    assert!(has_new_ip(Some(old), Ipv4::new(192, 0, 2, 2)));
    assert!(has_new_ip(None, old));
}

#[test]
fn parses_dotted_decimal() {
    assert_eq!(Ipv4::parse("192.0.2.1"), Some(Ipv4::new(192, 0, 2, 1)));
    assert_eq!(Ipv4::parse("0.0.0.0"), Some(Ipv4::new(0, 0, 0, 0)));
    assert_eq!(Ipv4::parse("255.255.255.255"), Some(Ipv4::new(255, 255, 255, 255)));
    assert_eq!(Ipv4::parse("10.100.0.9"), Some(Ipv4::new(10, 100, 0, 9)));
}

#[test]
fn rejects_what_ipv4addr_rejects() {
    for bad in [
        "", "1.2.3", "1.2.3.4.", "1.2.3.4.5", "01.2.3.4", "1.2.3.00", "256.1.1.1", "1.2.3.4\n", " 1.2.3.4",
        "1..2.3", "1.2.3.-4", "+1.2.3.4", "1.2.3.1000", "a.b.c.d", "1.2.3.٣",
    ] {
        assert_eq!(Ipv4::parse(bad), None, "{bad:?}");
    }
}

#[test]
fn prints_and_parses_back() {
    for ip in [Ipv4::new(198, 17, 255, 255), Ipv4::new(127, 0, 0, 1), Ipv4::new(0, 10, 100, 200)] {
        let text = ip.to_string();
        assert_eq!(Ipv4::parse(&text), Some(ip));
    }
    assert_eq!(Ipv4::new(198, 17, 255, 255).to_string(), "198.17.255.255");
}
