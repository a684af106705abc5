use arp::netaddr::{is_ip_literal, normalize_endpoint_addr, normalize_relay_addr};

#[test]
fn relay_addr_on_unspecified_host_takes_server_addr() {
    assert_eq!(normalize_relay_addr("0.0.0.0:7001", "relay.example.com"), "relay.example.com:7001");
    assert_eq!(normalize_relay_addr("[::]:7001", "203.0.113.9"), "203.0.113.9:7001");
}

#[test]
fn relay_addr_on_loopback_host_takes_server_addr() {
    assert_eq!(normalize_relay_addr("127.0.0.1:9000", "srv"), "srv:9000");
    assert_eq!(normalize_relay_addr("127.10.20.30:9000", "srv"), "srv:9000");
    assert_eq!(normalize_relay_addr("[::1]:9000", "srv"), "srv:9000");
    assert_eq!(normalize_relay_addr("[0:0:0:0:0:0:0:1]:9000", "srv"), "srv:9000");
}

#[test]
fn relay_addr_port_is_written_without_leading_zeros() {
    assert_eq!(normalize_relay_addr("0.0.0.0:00080", "srv"), "srv:80");
}

#[test]
fn relay_addr_on_public_host_is_kept() {
    assert_eq!(normalize_relay_addr("198.51.100.7:9000", "srv"), "198.51.100.7:9000");
    assert_eq!(normalize_relay_addr("[2001:db8::1]:9000", "srv"), "[2001:db8::1]:9000");
    assert_eq!(normalize_relay_addr("[::10]:9000", "srv"), "[::10]:9000");
    assert_eq!(normalize_relay_addr("[::1:0]:9000", "srv"), "[::1:0]:9000");
}

#[test]
fn relay_addr_that_is_no_socket_address_is_kept() {
    assert_eq!(normalize_relay_addr("localhost:9000", "srv"), "localhost:9000");
    assert_eq!(normalize_relay_addr("0.0.0.0", "srv"), "0.0.0.0");
    assert_eq!(normalize_relay_addr("0.0.0.0:65536", "srv"), "0.0.0.0:65536");
    assert_eq!(normalize_relay_addr("::1:9000", "srv"), "::1:9000");
    assert_eq!(normalize_relay_addr("[::1]9000", "srv"), "[::1]9000");
    assert_eq!(normalize_relay_addr("", "srv"), "");
}

#[test]
fn relay_addr_with_scope_id() {
    assert_eq!(normalize_relay_addr("[::1%3]:9000", "srv"), "srv:9000");
    assert_eq!(normalize_relay_addr("[fe80::1%3]:9000", "srv"), "[fe80::1%3]:9000");
    assert_eq!(normalize_relay_addr("[::1%]:9000", "srv"), "[::1%]:9000");
}

#[test]
fn endpoint_addr_on_local_host_takes_owner_ip() {
    assert_eq!(normalize_endpoint_addr("0.0.0.0:40000", Some("198.51.100.7")), "198.51.100.7:40000");
    assert_eq!(normalize_endpoint_addr("127.0.0.1:40000", Some("198.51.100.7")), "198.51.100.7:40000");
    assert_eq!(normalize_endpoint_addr("[::]:40000", Some("2001:db8::5")), "[2001:db8::5]:40000");
    assert_eq!(normalize_endpoint_addr("0.0.0.0:40000", Some("2001:db8::5")), "[2001:db8::5]:40000");
}

#[test]
fn endpoint_addr_is_kept_otherwise() {
    assert_eq!(normalize_endpoint_addr("203.0.113.4:40000", Some("198.51.100.7")), "203.0.113.4:40000");
    assert_eq!(normalize_endpoint_addr("0.0.0.0:40000", None), "0.0.0.0:40000");
    assert_eq!(normalize_endpoint_addr("not an address", Some("198.51.100.7")), "not an address");
}

#[test]
fn ip_literals_match_std_grammar() {
    assert!(is_ip_literal("10.0.0.1"));
    assert!(is_ip_literal("::ffff:10.0.0.1"));
    assert!(!is_ip_literal("010.0.0.1"));
    assert!(!is_ip_literal("example.com"));
}
