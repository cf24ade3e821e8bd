//! Startup validation: the listen address, the port and the size cap.

use file_sender::config::{validate, validate_ipv4, validate_ipv6, validate_uint, ConfigKind};

#[test]
fn port_numbers_validate() {
    assert!(validate(ConfigKind::Port, "44333").is_ok());
    assert!(validate(ConfigKind::Port, "0").is_ok());
    assert!(validate(ConfigKind::Port, "65535").is_ok());
    assert!(validate(ConfigKind::Port, "+80").is_ok());
}

#[test]
fn bad_ports_are_refused_with_a_message() {
    for bad in ["65536", "-1", "abc", "", "+", "8 0"] {
        let r = validate(ConfigKind::Port, bad);
        assert!(r.is_err());
        assert!(!r.unwrap_err().is_empty());
    }
}

#[test]
fn upload_sizes_validate() {
    assert!(validate(ConfigKind::UploadSize, "50000000").is_ok());
    assert!(validate(ConfigKind::UploadSize, "0").is_ok());
    assert!(validate(ConfigKind::UploadSize, "-5").is_err());
    assert!(validate(ConfigKind::UploadSize, "1e9").is_err());
    assert!(validate(ConfigKind::UploadSize, "99999999999999999999999999").is_err());
}

#[test]
fn addresses_validate_as_dotted_quads() {
    assert!(validate(ConfigKind::Address, "0.0.0.0").is_ok());
    assert!(validate(ConfigKind::Address, "127.0.0.1").is_ok());
    assert!(validate(ConfigKind::Address, "255.255.255.255").is_ok());
    assert!(validate(ConfigKind::Address, "10.20.30.40").is_ok());
}

#[test]
fn ipv6_addresses_validate() {
    for good in [
        "::",
        "::1",
        "fe80::1",
        "1:2:3:4:5:6:7:8",
        "2001:db8::8:800:200C:417A",
        "1:2:3:4:5:6:7::",
        "::ffff:192.168.1.1",
        "1:2:3:4:5:6:7.8.9.10",
        "1::2.3.4.5",
    ] {
        assert!(validate(ConfigKind::Address, good).is_ok(), "refused {:?}", good);
    }
}

#[test]
fn bad_addresses_are_refused() {
    for bad in [
        "256.0.0.1",
        "01.2.3.4",
        "1.2.3",
        "1.2.3.4.5",
        "1..2.3",
        "a.b.c.d",
        "1.2.3.4 ",
        ".1.2.3.4",
        "",
        ":",
        ":::",
        ":1::2",
        "1:2:3:4:5:6:7:8:9",
        "1:2:3:4:5:6:7:8::",
        "1::2::3",
        "12345::",
        "g::1",
        "1:",
        "1:2:3:4:5:6:7:8:",
        "1::2:",
        "::1:",
        "1.2.3.4::",
        "1:2.3.4.5",
        "::1.2.3.4x",
        "1::2:3:4:5:6:7:8",
    ] {
        assert!(validate(ConfigKind::Address, bad).is_err(), "accepted {:?}", bad);
    }
}

#[test]
fn address_parsers_split_the_work() {
    assert!(validate_ipv6("::1"));
    assert!(!validate_ipv6("0.0.0.0"));
    assert!(validate_ipv4("0.0.0.0"));
    assert!(!validate_ipv4("::1"));
}

#[test]
fn helpers_agree_with_validate() {
    assert!(validate_ipv4("192.168.1.9"));
    assert!(!validate_ipv4("192.168.1"));
    assert!(validate_uint("65535", 65535));
    assert!(!validate_uint("65536", 65535));
}
