use ferrbench::target::{
    alpn_protocols, select_address, BenchType, Endpoint, IpAddress, ResolveError, Scheme,
    SocketAddress, UserInput,
};

fn v4(ip: u32, port: u16) -> SocketAddress {
    SocketAddress { ip: IpAddress::V4(ip), port }
}

fn v6(ip: u128, port: u16) -> SocketAddress {
    SocketAddress { ip: IpAddress::V6(ip), port }
}

#[test]
fn https_defaults_to_443_with_tls() {
    let ep = Endpoint::parse(BenchType::HTTP1, "https://example.com").ok().unwrap();
    assert_eq!(ep.scheme, Scheme::Https);
    assert_eq!(ep.port, 443);
    assert_eq!(ep.host, "example.com");
    assert_eq!(ep.host_header.to_str().unwrap(), "example.com");
    assert_eq!(ep.host_header_bytes, b"example.com".to_vec());
    assert_eq!(ep.alpn, vec![b"http/1.1".to_vec(), b"http/1.0".to_vec()]);
}

#[test]
fn http_with_explicit_port() {
    let ep = Endpoint::parse(BenchType::HTTP1, "http://127.0.0.1:8080").ok().unwrap();
    assert_eq!(ep.scheme, Scheme::Http);
    assert_eq!(ep.port, 8080);
    assert_eq!(ep.host, "127.0.0.1");
    assert_eq!(ep.host_header_bytes, b"127.0.0.1".to_vec());
    assert!(ep.alpn.is_empty());
}

#[test]
fn http_defaults_to_80() {
    let ep = Endpoint::parse(BenchType::HTTP2, "http://localhost/path").ok().unwrap();
    assert_eq!(ep.port, 80);
    assert_eq!(Scheme::Http.default_port(), 80);
    assert_eq!(Scheme::Https.default_port(), 443);
}

#[test]
fn http2_offers_h2() {
    let ep = Endpoint::parse(BenchType::HTTP2, "https://example.com:8443").ok().unwrap();
    assert_eq!(ep.port, 8443);
    assert_eq!(ep.alpn, vec![b"h2".to_vec()]);
    assert_eq!(alpn_protocols(BenchType::HTTP2), vec![b"h2".to_vec()]);
}

#[test]
fn unsupported_scheme() {
    assert_eq!(
        Endpoint::parse(BenchType::HTTP1, "ftp://example.com").err(),
        Some(ResolveError::UnsupportedScheme)
    );
}

#[test]
fn missing_scheme() {
    assert_eq!(
        Endpoint::parse(BenchType::HTTP1, "/only/a/path").err(),
        Some(ResolveError::MissingScheme)
    );
}

#[test]
fn invalid_uri() {
    assert_eq!(
        Endpoint::parse(BenchType::HTTP1, "http://exa mple.com").err(),
        Some(ResolveError::InvalidUri)
    );
}

#[test]
fn last_ipv4_is_chosen() {
    let answers = vec![v6(1, 80), v4(10, 80), v6(2, 80), v4(20, 80), v6(3, 80)];
    assert_eq!(select_address(&answers), Some(v4(20, 80)));
}

#[test]
fn without_ipv4_last_is_chosen() {
    let answers = vec![v6(1, 80), v6(2, 80)];
    assert_eq!(select_address(&answers), Some(v6(2, 80)));
    assert_eq!(select_address(&vec![]), None);
}

#[test]
fn no_answers_fail_the_lookup() {
    let ep = Endpoint::parse(BenchType::HTTP1, "http://127.0.0.1:8080").ok().unwrap();
    assert_eq!(UserInput::new(ep, &vec![]).err(), Some(ResolveError::DnsLookupFailed));
}

#[test]
fn user_input_keeps_endpoint() {
    let ep = Endpoint::parse(BenchType::HTTP1, "http://127.0.0.1:8080").ok().unwrap();
    let u = UserInput::new(ep, &vec![v4(0x7f000001, 8080)]).ok().unwrap();
    assert_eq!(u.addr, v4(0x7f000001, 8080));
    assert_eq!(u.scheme, Scheme::Http);
    assert_eq!(u.port, 8080);
    assert_eq!(u.host, "127.0.0.1");
    assert_eq!(u.host_header_bytes, b"127.0.0.1".to_vec());
}
