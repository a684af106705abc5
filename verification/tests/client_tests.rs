use arp::base64::{base64_decode, base64_encode};
use arp::client_admin::{basic_auth_header, check_basic_auth, effective_admin_addr};
use arp::config::{AuthConfig, ClientConfig, TransportConfig};

fn client(admin_addr: &str, admin_port: u16) -> ClientConfig {
    ClientConfig {
        server_addr: "example.com".to_string(),
        server_port: 7000,
        client_id: String::new(),
        log_level: String::new(),
        auth: AuthConfig::default(),
        transport: TransportConfig::default(),
        admin_addr: admin_addr.to_string(),
        admin_port,
        admin_user: String::new(),
        admin_pwd: String::new(),
        proxies: Vec::new(),
        visitors: Vec::new(),
    }
}

#[test]
fn base64_known_values() {
    assert_eq!(base64_encode(b""), "");
    assert_eq!(base64_encode(b"f"), "Zg==");
    assert_eq!(base64_encode(b"fo"), "Zm8=");
    assert_eq!(base64_encode(b"foo"), "Zm9v");
    assert_eq!(base64_encode(b"foobar"), "Zm9vYmFy");
    assert_eq!(base64_encode(b"admin:secret"), "YWRtaW46c2VjcmV0");
    assert_eq!(base64_decode("Zm9vYmFy"), b"foobar".to_vec());
    assert_eq!(base64_decode("Zg=="), b"f".to_vec());
    assert_eq!(base64_decode("Zm 9v\n"), b"foo".to_vec());
    assert_eq!(base64_decode("Zg==Zm9v"), b"f".to_vec());
}

#[test]
fn base64_round_trip_on_all_lengths() {
    let data: Vec<u8> = (0..=255u8).collect();
    for n in 0..data.len() {
        assert_eq!(base64_decode(&base64_encode(&data[..n])), data[..n].to_vec());
    }
}

#[test]
fn basic_auth_check() {
    let header = basic_auth_header("admin", "secret");
    assert_eq!(header, "Basic YWRtaW46c2VjcmV0");
    assert!(check_basic_auth(Some(&header), "admin", "secret"));
    assert!(!check_basic_auth(Some(&header), "admin", "other"));
    assert!(!check_basic_auth(None, "admin", "secret"));
    assert!(!check_basic_auth(Some("Bearer YWRtaW46c2VjcmV0"), "admin", "secret"));
    assert!(!check_basic_auth(Some("Basic YWRtaW4="), "admin", ""));
    let with_colon = basic_auth_header("admin", "a:b");
    assert!(check_basic_auth(Some(&with_colon), "admin", "a:b"));
}

#[test]
fn admin_address_defaults_to_loopback() {
    assert_eq!(effective_admin_addr(&client("", 7400)), "127.0.0.1:7400");
    assert_eq!(effective_admin_addr(&client("0.0.0.0", 80)), "0.0.0.0:80");
}
