use arp::vhost::{extract_http_host, normalize_host, parse_tls_sni};

fn build_test_client_hello(host: &str) -> Vec<u8> {
    let host_bytes = host.as_bytes();
    let mut ext = Vec::new();
    let sn_list_len = 1 + 2 + host_bytes.len();
    ext.extend_from_slice(&(sn_list_len as u16).to_be_bytes());
    ext.push(0);
    ext.extend_from_slice(&(host_bytes.len() as u16).to_be_bytes());
    ext.extend_from_slice(host_bytes);

    let mut extensions = Vec::new();
    extensions.extend_from_slice(&0u16.to_be_bytes());
    extensions.extend_from_slice(&(ext.len() as u16).to_be_bytes());
    extensions.extend_from_slice(&ext);

    let mut body = Vec::new();
    body.extend_from_slice(&[0x03, 0x03]);
    body.extend_from_slice(&[0u8; 32]);
    body.push(0);
    body.extend_from_slice(&2u16.to_be_bytes());
    body.extend_from_slice(&[0x00, 0x2f]);
    body.push(1);
    body.push(0);
    body.extend_from_slice(&(extensions.len() as u16).to_be_bytes());
    body.extend_from_slice(&extensions);

    let mut handshake = Vec::new();
    handshake.push(0x01);
    let len = body.len();
    handshake.extend_from_slice(&[
        ((len >> 16) & 0xff) as u8,
        ((len >> 8) & 0xff) as u8,
        (len & 0xff) as u8,
    ]);
    handshake.extend_from_slice(&body);

    let mut record = Vec::new();
    record.push(0x16);
    record.extend_from_slice(&[0x03, 0x01]);
    record.extend_from_slice(&(handshake.len() as u16).to_be_bytes());
    record.extend_from_slice(&handshake);
    record
}

#[test]
fn test_extract_http_host() {
    let req = b"GET / HTTP/1.1\r\nHost: Example.com:8080\r\nUser-Agent: test\r\n\r\n";
    let host = extract_http_host(req).unwrap();
    assert_eq!(normalize_host(&host), "example.com");
}

#[test]
fn test_parse_tls_sni() {
    let host = "api.example.com";
    let record = build_test_client_hello(host);
    let parsed = parse_tls_sni(&record).unwrap();
    assert_eq!(parsed, host);
}

#[test]
fn host_header_name_is_case_insensitive_and_value_trimmed() {
    let req = b"GET / HTTP/1.1\r\nhOsT:   a.example.org  \r\n\r\n";
    assert_eq!(extract_http_host(req).unwrap(), "a.example.org");
    assert_eq!(extract_http_host(b"GET / HTTP/1.1\r\nAccept: */*\r\n\r\n"), None);
    assert_eq!(extract_http_host(&[0xff, 0xfe, 0x0a]), None);
    assert_eq!(extract_http_host(b"Host: last-line"), Some("last-line".to_string()));
}

#[test]
fn normalize_host_forms() {
    assert_eq!(normalize_host("  Example.COM.  "), "example.com");
    assert_eq!(normalize_host("[::1]:8443"), "::1]:8443");
    assert_eq!(normalize_host("[::1]"), "::1");
    assert_eq!(normalize_host("::1"), "::1");
    assert_eq!(normalize_host("host:80"), "host");
    assert_eq!(normalize_host(""), "");
}

#[test]
fn sni_absent_or_malformed_gives_none() {
    let good = build_test_client_hello("x.test");
    assert_eq!(parse_tls_sni(&good).as_deref(), Some("x.test"));
    let mut not_tls = good.clone();
    not_tls[0] = 0x17;
    assert_eq!(parse_tls_sni(&not_tls), None);
    assert_eq!(parse_tls_sni(&good[..good.len() - 1]), None);
    assert_eq!(parse_tls_sni(&good[..4]), None);
    let mut not_hello = good.clone();
    not_hello[5] = 0x02;
    assert_eq!(parse_tls_sni(&not_hello), None);
}
