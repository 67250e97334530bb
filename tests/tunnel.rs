use layer8_interceptor::address::{get_base_url, handshake_url, origin, proxy_authority, AddressError};
use layer8_interceptor::crypto::{generate_key_pair, CryptoError, Jwk, KeyUse};
use layer8_interceptor::envelope::{decode, Envelope};
use layer8_interceptor::retry::{Action, Outcome, RetryPolicy};
use layer8_interceptor::store::{InitStep, NetworkStateHandler, SessionStore};
use layer8_interceptor::tunnel::{start_handshake, HandshakeReply, NetworkState, PendingHandshake, TunnelError};

struct MockRequest {
    headers: Vec<(String, String)>,
    method: String,
}

fn header<'a>(headers: &'a [(String, String)], name: &str) -> Option<&'a str> {
    headers.iter().find(|(k, _)| k == name).map(|(_, v)| v.as_str())
}

fn established(token: &str) -> (NetworkState, Jwk) {
    let (server_priv, server_pub) = generate_key_pair(KeyUse::Ecdh).unwrap();
    let pending = start_handshake("https://backend.example:8443/app/index.html", "http://proxy.example:9000/x").unwrap();
    let server_shared = server_priv.get_ecdh_shared_secret(&pending.public_key).unwrap();
    let reply = HandshakeReply { up_jwt: Some(token.to_string()), server_key: Some(server_pub) };
    (NetworkState::new(pending, 200, Some(reply)).unwrap(), server_shared)
}

fn mock_init_tunnel(req: &MockRequest, client_public: &Jwk, server_priv: &Jwk, server_pub: &Jwk) -> (u16, Option<HandshakeReply>, Jwk) {
    assert_eq!(req.method, "POST");
    assert!(header(&req.headers, "x-ecdh-init").is_some());
    assert!(header(&req.headers, "x-client-uuid").is_some());
    let shared = server_priv.get_ecdh_shared_secret(client_public).unwrap();
    let reply = HandshakeReply { up_jwt: Some("token123".to_string()), server_key: Some(server_pub.clone()) };
    (200, Some(reply), shared)
}

#[test]
fn roundtrip_test() {
    let (priv_key_server, pub_key_server) = generate_key_pair(KeyUse::Ecdh).unwrap();
    let pending = start_handshake("http://localhost:8080/api", "http://localhost:9999").unwrap();
    let req = MockRequest { headers: pending.headers("exported-public-key"), method: "POST".to_string() };
    assert_eq!(header(&req.headers, "x-ecdh-init"), Some("exported-public-key"));
    assert_eq!(header(&req.headers, "x-client-uuid"), Some(pending.client_uuid.as_str()));
    let public_key = pending.public_key.clone();
    let (status, reply, _) = mock_init_tunnel(&req, &public_key, &priv_key_server, &pub_key_server);
    let state = NetworkState::new(pending, status, reply).unwrap();
    assert_eq!(state.provider_session, "token123");
}

#[test]
fn handshake_scenario_hello() {
    let (server_priv, server_pub) = generate_key_pair(KeyUse::Ecdh).unwrap();
    let pending: PendingHandshake = start_handshake("https://backend.example/path?q=1", "https://proxy.example").unwrap();
    assert_eq!(pending.client_uuid.len(), 36);
    assert_eq!(pending.backend_url, "https://backend.example");
    assert_eq!(pending.init_url, "https://proxy.example/init-tunnel?backend=https://backend.example");
    assert_eq!(pending.proxy_authority, "https://proxy.example:443");
    let req = MockRequest { headers: pending.headers("pk"), method: "POST".to_string() };
    let client_public = pending.public_key.clone();
    let (status, reply, server_shared) = mock_init_tunnel(&req, &client_public, &server_priv, &server_pub);
    let state = NetworkState::new(pending, status, reply).unwrap();
    assert_eq!(state.provider_session, "token123");
    let envelope = state.seal_request(b"hello").unwrap();
    let sealed = decode(&envelope).unwrap();
    assert_eq!(server_shared.symmetric_decrypt(&sealed).unwrap(), b"hello".to_vec());
    let answer = server_shared.symmetric_encrypt(b"world").unwrap();
    let answer = layer8_interceptor::envelope::encode(&answer);
    assert_eq!(state.open_response(&answer).unwrap(), b"world".to_vec());
}

#[test]
fn handshake_unauthorized_is_terminal() {
    let (_, server_pub) = generate_key_pair(KeyUse::Ecdh).unwrap();
    let pending = start_handshake("https://backend.example", "https://proxy.example").unwrap();
    let reply = HandshakeReply { up_jwt: Some("t".to_string()), server_key: Some(server_pub) };
    assert_eq!(NetworkState::new(pending, 401, Some(reply)).err(), Some(TunnelError::Unauthorized));
    let mut policy = RetryPolicy::new();
    assert_eq!(policy.step(Outcome::Failed { status: 403 }), Action::Rehandshake);
    assert_eq!(policy.step(Outcome::HandshakeFailed), Action::Surface);
    assert_eq!(policy.attempts(), 1);
}

#[test]
fn handshake_reply_errors() {
    let (_, server_pub) = generate_key_pair(KeyUse::Ecdh).unwrap();
    let pending = start_handshake("https://backend.example", "https://proxy.example").unwrap();
    assert_eq!(NetworkState::new(pending, 200, None).err(), Some(TunnelError::MalformedResponse));
    let pending = start_handshake("https://backend.example", "https://proxy.example").unwrap();
    let reply = HandshakeReply { up_jwt: None, server_key: Some(server_pub.clone()) };
    assert_eq!(NetworkState::new(pending, 200, Some(reply)).err(), Some(TunnelError::MissingToken));
    let pending = start_handshake("https://backend.example", "https://proxy.example").unwrap();
    let reply = HandshakeReply { up_jwt: Some("t".to_string()), server_key: None };
    assert_eq!(NetworkState::new(pending, 200, Some(reply)).err(), Some(TunnelError::MissingServerKey));
    let pending = start_handshake("https://backend.example", "https://proxy.example").unwrap();
    let (server_priv, _) = generate_key_pair(KeyUse::Ecdh).unwrap();
    let reply = HandshakeReply { up_jwt: Some("t".to_string()), server_key: Some(server_priv) };
    assert_eq!(NetworkState::new(pending, 200, Some(reply)).err(), Some(TunnelError::Crypto(CryptoError::PeerIsPrivate)));
    assert_eq!(start_handshake("no url", "https://proxy.example").err(), Some(TunnelError::Address(AddressError::InvalidUrl)));
    assert_eq!(start_handshake("https://backend.example", "proxy").err(), Some(TunnelError::Address(AddressError::InvalidUrl)));
}

#[test]
fn retry_boundary() {
    let mut policy = RetryPolicy::new();
    assert_eq!(policy.step(Outcome::Failed { status: 503 }), Action::Surface);
    let mut policy = RetryPolicy::new();
    assert_eq!(policy.step(Outcome::Failed { status: 500 }), Action::Surface);
    let mut policy = RetryPolicy::new();
    assert_eq!(policy.step(Outcome::Failed { status: -1 }), Action::Surface);
    let mut policy = RetryPolicy::new();
    assert_eq!(policy.step(Outcome::Failed { status: 401 }), Action::Rehandshake);
    assert_eq!(policy.step(Outcome::Reestablished), Action::Retry);
    assert_eq!(policy.attempts(), 2);
    assert_eq!(policy.step(Outcome::Failed { status: 429 }), Action::Rehandshake);
    assert_eq!(policy.step(Outcome::Reestablished), Action::Retry);
    assert_eq!(policy.attempts(), 3);
    assert_eq!(policy.step(Outcome::Failed { status: 429 }), Action::Surface);
    assert_eq!(policy.step(Outcome::Reestablished), Action::Surface);
    assert_eq!(policy.attempts(), 3);
    assert_eq!(policy.step(Outcome::Delivered), Action::Deliver);
}

#[test]
fn base_urls() {
    assert_eq!(get_base_url("https://example.com:8443/a/b?q=1#f").unwrap(), "https://example.com:8443");
    assert_eq!(get_base_url("http://localhost/x").unwrap(), "http://localhost");
    assert_eq!(get_base_url("https://example.com:443/").unwrap(), "https://example.com");
    assert_eq!(get_base_url("http://10.0.0.1:80"), Ok("http://10.0.0.1".to_string()));
    assert_eq!(get_base_url("http://127.0.0.1:1/"), Ok("http://127.0.0.1:1".to_string()));
    assert_eq!(get_base_url("http://h:65535"), Ok("http://h:65535".to_string()));
    assert_eq!(get_base_url("not a url"), Err(AddressError::InvalidUrl));
    assert_eq!(get_base_url("mailto:someone@example.com"), Err(AddressError::MissingHost));
    assert_eq!(proxy_authority("https://proxy.io/p").unwrap(), "https://proxy.io:443");
    assert_eq!(proxy_authority("http://proxy.io:5001/p").unwrap(), "http://proxy.io:5001");
    assert_eq!(handshake_url("http://proxy.io:5001/p?x", "https://b.io/z").unwrap(), "http://proxy.io:5001/init-tunnel?backend=https://b.io");
    assert_eq!(origin("https://b.io:9/z").unwrap(), ("b.io".to_string(), "https".to_string()));
}

#[test]
fn transport_headers_of_session() {
    let (state, _) = established("tok");
    let headers = state.transport_headers("https://backend.example:8443/api/items", false).unwrap();
    let expected = vec![
        ("X-Forwarded-Host".to_string(), "backend.example".to_string()),
        ("X-Forwarded-Proto".to_string(), "https".to_string()),
        ("Content-Type".to_string(), "application/json".to_string()),
        ("up-JWT".to_string(), "tok".to_string()),
        ("x-client-uuid".to_string(), state.client_uuid.clone()),
    ];
    assert_eq!(headers, expected);
    let with_static = state.transport_headers("https://backend.example/static/a.png", true).unwrap();
    assert_eq!(with_static.last().unwrap(), &("X-Static".to_string(), "true".to_string()));
    assert_eq!(with_static.len(), 6);
    assert_eq!(state.transport_headers("::", false).err(), Some(TunnelError::Address(AddressError::InvalidUrl)));
}

#[test]
fn open_response_errors() {
    let (state, server_shared) = established("tok");
    let bad = Envelope::RequestResponse { data: "???".to_string() };
    assert!(matches!(state.open_response(&bad), Err(TunnelError::Envelope(_))));
    let forged = layer8_interceptor::envelope::encode(&[0u8; 40]);
    assert_eq!(state.open_response(&forged), Err(TunnelError::Crypto(CryptoError::DecryptionFailed)));
    let sealed = server_shared.symmetric_encrypt(b"").unwrap();
    assert_eq!(state.open_response(&layer8_interceptor::envelope::encode(&sealed)).unwrap(), Vec::<u8>::new());
}

#[test]
fn session_store() {
    let mut store = SessionStore::new();
    assert!(store.get("https://backend.example:8443").is_none());
    assert!(!store.check_encrypted_tunnel(Some("https://backend.example:8443/page")));
    let (first, _) = established("first");
    store.insert(first);
    assert_eq!(store.get("https://backend.example:8443").unwrap().provider_session, "first");
    assert!(store.check_encrypted_tunnel(Some("https://backend.example:8443/page")));
    assert!(!store.check_encrypted_tunnel(Some("https://other.example")));
    assert!(!store.check_encrypted_tunnel(None));
    assert!(!store.check_encrypted_tunnel(Some("garbage")));
    let (second, _) = established("second");
    store.insert(second);
    assert_eq!(store.get("https://backend.example:8443").unwrap().provider_session, "second");
}

#[test]
fn handler_checks_backend() {
    let handler = NetworkStateHandler("https://backend.example:8443".to_string());
    assert_eq!(handler.check_url("https://backend.example:8443/a").unwrap(), "https://backend.example:8443");
    assert_eq!(handler.check_url("https://backend.example/a").err(), Some(TunnelError::WrongProvider));
    assert_eq!(handler.check_url("%%").err(), Some(TunnelError::Address(AddressError::InvalidUrl)));
}

#[test]
fn stream_message_round_trip() {
    let (state, server_shared) = established("tok");
    let envelope = state.seal_stream_message(b"frame").unwrap();
    match &envelope {
        Envelope::StreamMessage { backend_url, .. } => assert_eq!(backend_url, "https://backend.example:8443"),
        _ => panic!("expected a stream envelope"),
    }
    let sealed = decode(&envelope).unwrap();
    assert_eq!(server_shared.symmetric_decrypt(&sealed).unwrap(), b"frame".to_vec());
    assert_eq!(state.open_response(&envelope).unwrap(), b"frame".to_vec());
}

#[test]
fn empty_body_marker() {
    let given = vec![("Accept".to_string(), "*/*".to_string())];
    let marked = layer8_interceptor::tunnel::with_empty_body_marker(given.clone(), b"");
    assert_eq!(marked, vec![("Accept".to_string(), "*/*".to_string()), ("layer8-empty-body".to_string(), "true".to_string())]);
    assert_eq!(layer8_interceptor::tunnel::with_empty_body_marker(given.clone(), b"x"), given);
}

#[test]
fn static_asset_helpers() {
    let headers = layer8_interceptor::tunnel::static_request_headers();
    assert_eq!(headers, vec![("content-type".to_string(), "application/json".to_string()), ("layer8-empty-body".to_string(), "true".to_string())]);
    let response = vec![
        ("X-Other".to_string(), "1".to_string()),
        ("CONTENT-Type".to_string(), "image/png".to_string()),
        ("content-type".to_string(), "text/plain".to_string()),
    ];
    assert_eq!(layer8_interceptor::tunnel::content_type_of(&response), Some("image/png".to_string()));
    let none = vec![("Content-Length".to_string(), "3".to_string()), ("content-typ".to_string(), "x".to_string())];
    assert_eq!(layer8_interceptor::tunnel::content_type_of(&none), None);
}

#[test]
fn content_type_names_are_trimmed() {
    let response = vec![(" \tContent-TYPE\u{a0} ".to_string(), "text/css".to_string())];
    assert_eq!(layer8_interceptor::tunnel::content_type_of(&response), Some("text/css".to_string()));
    let inner_space = vec![("content -type".to_string(), "x".to_string()), ("   ".to_string(), "y".to_string())];
    assert_eq!(layer8_interceptor::tunnel::content_type_of(&inner_space), None);
}

#[test]
fn init_reuses_or_handshakes() {
    let mut store = SessionStore::new();
    match store.init_step("https://backend.example:8443/start").unwrap() {
        InitStep::Handshake { backend_url } => assert_eq!(backend_url, "https://backend.example:8443"),
        InitStep::Reuse => panic!("nothing is stored yet"),
    }
    let (state, _) = established("first");
    let uuid = state.client_uuid.clone();
    store.complete_init(state, vec!["/static".to_string()]);
    let stored = store.get("https://backend.example:8443").unwrap();
    assert_eq!(stored.static_paths, vec!["/static".to_string()]);
    assert_eq!(stored.provider_session, "first");
    assert_eq!(stored.client_uuid, uuid);
    assert!(matches!(store.init_step("https://backend.example:8443/other"), Ok(InitStep::Reuse)));
    assert!(matches!(store.init_step("https://elsewhere.example"), Ok(InitStep::Handshake { .. })));
    assert!(matches!(store.init_step("nope"), Err(TunnelError::Address(AddressError::InvalidUrl))));
}
