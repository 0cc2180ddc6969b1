use rust_servicemesh::protocol::{connection_protocol, ClientTlsConfig, HttpProtocol, TlsConfig};

#[test]
fn test_http_protocol_alpn() {
    assert_eq!(HttpProtocol::Http1.alpn_protocols(), vec![b"http/1.1".to_vec()]);
    assert_eq!(HttpProtocol::Http2.alpn_protocols(), vec![b"h2".to_vec()]);
    assert_eq!(HttpProtocol::Auto.alpn_protocols(), vec![b"h2".to_vec(), b"http/1.1".to_vec()]);
}

#[test]
fn test_protocol_from_alpn() {
    assert_eq!(HttpProtocol::from_alpn(Some(b"h2")), HttpProtocol::Http2);
    assert_eq!(HttpProtocol::from_alpn(Some(b"http/1.1")), HttpProtocol::Http1);
    assert_eq!(HttpProtocol::from_alpn(None), HttpProtocol::Http1);
}

#[test]
fn test_tls_config_builder() {
    let config = TlsConfig::new("cert.pem", "key.pem").with_protocol(HttpProtocol::Http2);

    assert_eq!(config.cert_path, "cert.pem");
    assert_eq!(config.key_path, "key.pem");
    assert_eq!(config.protocol, HttpProtocol::Http2);
}

#[test]
fn test_client_tls_config() {
    let config = ClientTlsConfig::new()
        .danger_accept_invalid_certs()
        .with_client_cert("client.pem".to_string(), "client-key.pem".to_string());

    assert!(!config.verify_server);
    assert_eq!(config.client_cert, Some("client.pem".to_string()));
    assert_eq!(config.client_key, Some("client-key.pem".to_string()));
}

#[test]
fn protocol_defaults() {
    assert_eq!(HttpProtocol::default(), HttpProtocol::Http2);
    assert_eq!(TlsConfig::new("a", "b").protocol, HttpProtocol::Auto);
    let c = ClientTlsConfig::default();
    assert!(c.verify_server);
    assert!(!c.presents_client_cert());
    let c = c.with_client_cert("c".to_string(), "k".to_string());
    assert!(c.presents_client_cert());
}

#[test]
fn protocol_unknown_alpn_is_http1() {
    assert_eq!(HttpProtocol::from_alpn(Some(b"h3")), HttpProtocol::Http1);
    assert_eq!(HttpProtocol::from_alpn(Some(b"")), HttpProtocol::Http1);
    assert_eq!(HttpProtocol::from_alpn(Some(b"h2c")), HttpProtocol::Http1);
}

#[test]
fn protocol_served_on_connection() {
    assert_eq!(connection_protocol(HttpProtocol::Http2, None), HttpProtocol::Http2);
    assert_eq!(connection_protocol(HttpProtocol::Http1, None), HttpProtocol::Http1);
    assert_eq!(connection_protocol(HttpProtocol::Auto, None), HttpProtocol::Http1);
    assert_eq!(connection_protocol(HttpProtocol::Http1, Some(Some(b"h2"))), HttpProtocol::Http2);
    assert_eq!(connection_protocol(HttpProtocol::Http2, Some(None)), HttpProtocol::Http1);
}
