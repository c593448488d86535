use sentinel_core::config::{parse_u16, port_setting, DEFAULT_PORT};
use sentinel_core::discovery::{discovery_port, discovery_reply, is_discovery_request, DEFAULT_DISCOVERY_PORT};

#[test]
fn port_numbers_parse_as_std_parses_them() {
    let cases = [
        "3000", "+80", "0", "00080", "65535", "65536", "", "+", "-1", "-0", " 80", "80 ", "8a", "++1",
        "99999999999999999999", "1_000",
    ];
    for text in cases {
        assert_eq!(parse_u16(text), text.parse::<u16>().ok(), "parsing {:?}", text);
    }
}

#[test]
fn port_number_values() {
    assert_eq!(parse_u16("3000"), Some(3000));
    assert_eq!(parse_u16("+80"), Some(80));
    assert_eq!(parse_u16("65535"), Some(65535));
    assert_eq!(parse_u16("65536"), None);
    assert_eq!(parse_u16(""), None);
    assert_eq!(parse_u16("-1"), None);
}

#[test]
fn unset_port_defaults_to_3000() {
    assert_eq!(DEFAULT_PORT, 3000);
    assert_eq!(port_setting(&None), Some(3000));
    assert_eq!(port_setting(&Some("8080".to_string())), Some(8080));
    assert_eq!(port_setting(&Some("http".to_string())), None);
}

#[test]
fn discovery_port_falls_back_to_9999() {
    assert_eq!(DEFAULT_DISCOVERY_PORT, 9999);
    assert_eq!(discovery_port(&None), 9999);
    assert_eq!(discovery_port(&Some("7777".to_string())), 7777);
    assert_eq!(discovery_port(&Some("70000".to_string())), 9999);
    assert_eq!(discovery_port(&Some("udp".to_string())), 9999);
}

#[test]
fn discovery_request_is_recognised_with_surrounding_space() {
    assert!(is_discovery_request("SENTINEL_DISCOVER"));
    assert!(is_discovery_request("  SENTINEL_DISCOVER\r\n"));
    assert!(!is_discovery_request("sentinel_discover"));
    assert!(!is_discovery_request("SENTINEL_DISCOVERY"));
    assert!(!is_discovery_request(""));
}

#[test]
fn discovery_reply_names_the_http_port() {
    assert_eq!(discovery_reply(3000), r#"{"service":"sentinel-cbdc","port":3000,"version":"5.0"}"#);
    assert_eq!(discovery_reply(0), r#"{"service":"sentinel-cbdc","port":0,"version":"5.0"}"#);
    assert_eq!(discovery_reply(65535), r#"{"service":"sentinel-cbdc","port":65535,"version":"5.0"}"#);
}

#[test]
fn advertised_port_reads_back() {
    for port in [0u16, 7, 10, 99, 100, 3000, 9999, 65535] {
        let reply = discovery_reply(port);
        let start = reply.find("\"port\":").unwrap() + "\"port\":".len();
        let end = reply[start..].find(',').unwrap() + start;
        assert_eq!(parse_u16(&reply[start..end]), Some(port));
    }
}
