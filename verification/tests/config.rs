use image_admission::config::{get_cert, get_key, get_port, port_or_default, DEFAULT_PORT};

#[test]
fn defaults_where_nothing_is_configured() {
    assert_eq!(get_cert(None), "/tls/tls.crt");
    assert_eq!(get_key(None), "/tls/tls.key");
    assert_eq!(get_port(None), 8443);
    assert_eq!(DEFAULT_PORT, 8443);
}

#[test]
fn configured_paths_are_taken_as_they_are() {
    assert_eq!(get_cert(Some("/etc/certs/server.pem".to_string())), "/etc/certs/server.pem");
    assert_eq!(get_key(Some("/etc/certs/server.key".to_string())), "/etc/certs/server.key");
    assert_eq!(get_cert(Some(String::new())), "");
    assert_eq!(get_key(Some(String::new())), "");
}

#[test]
fn configured_port_is_read_as_a_number() {
    assert_eq!(get_port(Some("443".to_string())), 443);
    assert_eq!(get_port(Some("0".to_string())), 0);
    assert_eq!(get_port(Some("65535".to_string())), 65535);
    assert_eq!(get_port(Some("+9443".to_string())), 9443);
    assert_eq!(get_port(Some("0080".to_string())), 80);
}

#[test]
fn port_that_is_no_number_falls_back_to_the_default() {
    for text in ["", "https", "65536", "-1", " 443", "443 ", "4_43", "0x1bb", "44.3", "+"] {
        assert_eq!(get_port(Some(text.to_string())), 8443, "{:?}", text);
    }
}

#[test]
fn port_or_default_keeps_a_number_that_was_read() {
    assert_eq!(port_or_default(Some(1)), 1);
    assert_eq!(port_or_default(Some(8443)), 8443);
    assert_eq!(port_or_default(Some(0)), 0);
    assert_eq!(port_or_default(None), 8443);
}
