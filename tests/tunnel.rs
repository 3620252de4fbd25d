use gandalf::api_key::{ApiKey, ApiKeyBase64};
use gandalf::error::ErrorKind;
use gandalf::tunnel::{header_names_equal, CertificateMaterial, Forwarding, Header, PeerAddress, Tunnel, TunnelRequest};
use gandalf::tunnel_config::Config;

fn tunnel(with_certificate: bool) -> Tunnel {
    let certificate = if with_certificate {
        Some(CertificateMaterial { certificate_chain: vec![vec![1, 2, 3]], private_key: vec![9, 9] })
    } else {
        None
    };
    Tunnel::new(
        ApiKey(b"K".to_vec()).to_base64(),
        PeerAddress { host: "10.0.0.1".to_string(), port: 8443 },
        "fellowship".to_string(),
        true,
        "upstream.example".to_string(),
        certificate,
    )
}

fn header(name: &str, value: &[u8]) -> Header {
    Header { name: name.to_string(), value: value.to_vec() }
}

#[test]
fn liveness_is_answered_locally() {
    let t = tunnel(true);
    let request = TunnelRequest { path: "/".to_string(), headers: vec![] };
    match t.decorate(request) {
        Forwarding::RespondLocally { status, body } => {
            assert_eq!(status, 200);
            assert_eq!(body, b"OK".to_vec());
        }
        other => panic!("expected a local answer, got {:?}", other),
    }
}

#[test]
fn key_is_injected_once() {
    let t = tunnel(true);
    let request = TunnelRequest { path: "/x".to_string(), headers: vec![header("accept", b"*/*")] };
    match t.decorate(request) {
        Forwarding::Forward { headers, peer } => {
            assert_eq!(headers.len(), 2);
            assert_eq!(headers[0], header("accept", b"*/*"));
            let injected: Vec<&Header> = headers.iter().filter(|h| h.name == "fellowship").collect();
            assert_eq!(injected.len(), 1);
            assert_eq!(injected[0].value, b"Sw==".to_vec());
            assert_eq!(ApiKey::try_from_base64(&ApiKeyBase64(injected[0].value.clone())), Ok(ApiKey(b"K".to_vec())));
            assert_eq!(peer.address, &PeerAddress { host: "10.0.0.1".to_string(), port: 8443 });
            assert!(peer.tls);
            assert_eq!(peer.server_name, "upstream.example");
            assert_eq!(peer.client_certificate.unwrap().private_key, vec![9, 9]);
        }
        other => panic!("expected forwarding, got {:?}", other),
    }
}

#[test]
fn no_certificate_without_mutual_tls() {
    let t = tunnel(false);
    let request = TunnelRequest { path: "/x".to_string(), headers: vec![] };
    match t.decorate(request) {
        Forwarding::Forward { headers, peer } => {
            assert_eq!(headers, vec![header("fellowship", b"Sw==")]);
            assert!(peer.client_certificate.is_none());
        }
        other => panic!("expected forwarding, got {:?}", other),
    }
}

#[test]
fn existing_key_header_is_rejected() {
    let t = tunnel(true);
    let request = TunnelRequest {
        path: "/x".to_string(),
        headers: vec![header("accept", b"*/*"), header("fellowship", b"Sw==")],
    };
    assert!(matches!(t.decorate(request), Forwarding::Reject(ErrorKind::ExistingCredentialHeader)));
    let request = TunnelRequest { path: "/x".to_string(), headers: vec![header("fellowship", b"")] };
    assert!(matches!(t.decorate(request), Forwarding::Reject(ErrorKind::ExistingCredentialHeader)));
    let request = TunnelRequest { path: "/x".to_string(), headers: vec![header("FellowShip", b"Sw==")] };
    assert!(matches!(t.decorate(request), Forwarding::Reject(ErrorKind::ExistingCredentialHeader)));
    let request = TunnelRequest { path: "/x".to_string(), headers: vec![header("fellowshi", b"Sw==")] };
    assert!(matches!(t.decorate(request), Forwarding::Forward { .. }));
}

#[test]
fn liveness_wins_over_existing_header() {
    let t = tunnel(true);
    let request = TunnelRequest { path: "/".to_string(), headers: vec![header("fellowship", b"x")] };
    assert!(matches!(t.decorate(request), Forwarding::RespondLocally { status: 200, .. }));
}

#[test]
fn load_test_config() {
    let contents = "proxy_address = \"localhost:6188\"\nport = 6190\nlog_level = \"info\"\n";
    let _config = Config::load(contents).expect("should be able to load test config");
    assert_eq!(_config.proxy_address, "localhost:6188");
    assert_eq!(_config.port, 6190);
    assert_eq!(_config.log_level, "info");
}

#[test]
fn config_errors() {
    assert_eq!(Config::load("port = 70000\nproxy_address = \"a\"\nlog_level = \"info\""), Err(ErrorKind::ConfigReadFailure));
    assert_eq!(Config::load("port = 1\nlog_level = \"info\""), Err(ErrorKind::ConfigReadFailure));
    assert_eq!(Config::load("port = \"1\"\nproxy_address = \"a\"\nlog_level = \"info\""), Err(ErrorKind::ConfigReadFailure));
    assert_eq!(Config::load("not toml ="), Err(ErrorKind::ConfigReadFailure));
    assert_eq!(Config::from_fields(Some("a"), Some(-1), Some("x")), Err(ErrorKind::ConfigReadFailure));
    assert_eq!(Config::from_fields(Some("a"), Some(65535), Some("x")).unwrap().port, 65535);
}

#[test]
fn certificate_material_must_be_usable() {
    let ok = CertificateMaterial::new(vec![vec![1], vec![2, 3]], vec![4]).unwrap();
    assert_eq!(ok.certificate_chain, vec![vec![1], vec![2, 3]]);
    assert_eq!(ok.private_key, vec![4]);
    assert_eq!(CertificateMaterial::new(vec![], vec![4]), Err(ErrorKind::CertificateLoadFailure));
    assert_eq!(CertificateMaterial::new(vec![vec![]], vec![4]), Err(ErrorKind::CertificateLoadFailure));
    assert_eq!(CertificateMaterial::new(vec![vec![1]], vec![]), Err(ErrorKind::CertificateLoadFailure));
}

#[test]
fn header_names_ignore_ascii_case() {
    assert!(header_names_equal("Fellowship", "fellowSHIP"));
    assert!(header_names_equal("x-key-1", "X-KEY-1"));
    assert!(!header_names_equal("fellowship", "fellowshi"));
    assert!(!header_names_equal("a-b", "a_b"));
    assert!(!header_names_equal("\u{e9}", "\u{c9}"));
}

#[test]
fn load_config_fields() {
    let config = Config::load("log_level = \"debug\"\n[other]\nport = 1\nproxy_address = \"a\"").err();
    assert_eq!(config, Some(ErrorKind::ConfigReadFailure));
    let config = Config::load("proxy_address = \"10.0.0.1:443\"\nport = 0\nlog_level = \"\"").unwrap();
    assert_eq!(config.proxy_address, "10.0.0.1:443");
    assert_eq!(config.port, 0);
    assert_eq!(config.log_level, "");
}
