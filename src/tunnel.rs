//! The tunnel handshake and the encrypted transport of an established
//! session. The exchange with the proxy itself (posting, reading bodies,
//! JSON) is left to the caller, which hands the outcomes back here.
use crate::address::{base_url_spec, get_base_url, handshake_url, handshake_url_spec, origin, origin_spec, proxy_authority, proxy_authority_spec, AddressError};
use crate::crypto::{decryption_spec, derivation_error, derives, encryption_error, encryption_spec, generate_key_pair, is_fresh_pair, CryptoError, Jwk, KeyUse};
use crate::aead::{NONCE_SIZE, TAG_SIZE};
use crate::envelope::{decode, encode, encode_stream_message, Envelope, EnvelopeError};
use vstd::prelude::*;
use vstd::string::*;

verus! {

/// Why establishing or using a tunnel failed.
#[derive(Clone, Copy, Debug, PartialEq, Eq, Structural)]
pub enum TunnelError {
    /// A URL could not be read.
    Address(AddressError),
    /// The proxy answered the handshake with 401: the client is not
    /// authorized. Terminal.
    Unauthorized,
    /// The handshake response was not the expected JSON object.
    MalformedResponse,
    /// The handshake response carried no session token.
    MissingToken,
    /// The handshake response carried no server key.
    MissingServerKey,
    /// Key material or a ciphertext was rejected.
    Crypto(CryptoError),
    /// An envelope did not carry base64 data.
    Envelope(EnvelopeError),
    /// A payload too large to be wrapped.
    PayloadTooLarge,
    /// A handler was asked for a URL of another backend.
    WrongProvider,
}

/// Relies on `uuid::Uuid::new_v4` and its hyphenated `to_string`: a fresh
/// random id of 36 characters.
#[verifier::external_body]
fn new_client_uuid() -> (r: String)
    ensures
        r@.len() == 36,
{
    uuid::Uuid::new_v4().to_string()
}

/// A handshake that has been prepared and not yet answered: the fresh key
/// pair, the correlation id and the addresses.
pub struct PendingHandshake {
    pub private_key: Jwk,
    pub public_key: Jwk,
    pub client_uuid: String,
    /// The base URL of the backend.
    pub backend_url: String,
    /// The proxy URL as given.
    pub proxy_url: String,
    /// The authority that the transport client is bound to.
    pub proxy_authority: String,
    /// Where the handshake is posted.
    pub init_url: String,
}

/// What the proxy's handshake answer holds, as the caller read it from the
/// JSON body: the session token (`up-JWT`) and the backend's public key
/// (`server_pubKeyECDH`), each `None` where it is absent.
pub struct HandshakeReply {
    pub up_jwt: Option<String>,
    pub server_key: Option<Jwk>,
}

/// An established session with a backend through a proxy.
pub struct NetworkState {
    pub client_uuid: String,
    pub symmetric_key: Jwk,
    /// The session token that the proxy issued.
    pub provider_session: String,
    pub static_paths: Vec<String>,
    pub proxy_url: String,
    pub proxy_authority: String,
    pub backend_url: String,
    pub public_key_jwk: Jwk,
    pub private_key_jwk: Jwk,
}

/// A list of headers as text pairs.
pub open spec fn headers_view(h: Seq<(String, String)>) -> Seq<(Seq<char>, Seq<char>)> {
    h.map_values(|p: (String, String)| (p.0@, p.1@))
}

/// A byte result of the transport as its sequence of bytes.
pub open spec fn payload_view(r: Result<Vec<u8>, TunnelError>) -> Result<Seq<u8>, TunnelError> {
    match r {
        Ok(v) => Ok(v@),
        Err(e) => Err(e),
    }
}

/// A crypto result lifted to the transport's errors.
pub open spec fn lift_crypto(r: Result<Seq<u8>, CryptoError>) -> Result<Seq<u8>, TunnelError> {
    match r {
        Ok(v) => Ok(v),
        Err(e) => Err(TunnelError::Crypto(e)),
    }
}

/// Why a handshake answered with HTTP `status` and `reply` fails, in the
/// order checked, or `None` where it succeeds.
pub open spec fn handshake_error(pending: PendingHandshake, status: u16, reply: Option<HandshakeReply>) -> Option<TunnelError> {
    if status == 401 {
        Some(TunnelError::Unauthorized)
    } else {
        match reply {
            None => Some(TunnelError::MalformedResponse),
            Some(rep) => match (rep.up_jwt, rep.server_key) {
                (None, _) => Some(TunnelError::MissingToken),
                (Some(_), None) => Some(TunnelError::MissingServerKey),
                (Some(_), Some(k)) => match derivation_error(pending.private_key, k) {
                    Some(e) => Some(TunnelError::Crypto(e)),
                    None => None,
                },
            },
        }
    }
}

/// Prepares the handshake with the backend of `provider_url` through the
/// proxy at `proxy_url`: a fresh ECDH key pair, a fresh correlation id, the
/// backend's base URL, the proxy's authority and the handshake endpoint.
pub fn start_handshake(provider_url: &str, proxy_url: &str) -> (r: Result<PendingHandshake, TunnelError>)
    ensures
        match r {
            Ok(p) => {
                &&& is_fresh_pair((p.private_key, p.public_key), KeyUse::Ecdh)
                &&& p.client_uuid@.len() == 36
                &&& base_url_spec(provider_url@) == Ok::<Seq<char>, AddressError>(p.backend_url@)
                &&& proxy_authority_spec(proxy_url@) == Ok::<Seq<char>, AddressError>(p.proxy_authority@)
                &&& handshake_url_spec(proxy_url@, provider_url@) == Ok::<Seq<char>, AddressError>(p.init_url@)
                &&& p.proxy_url@ == proxy_url@
            },
            Err(e) => {
                ||| proxy_authority_spec(proxy_url@) == Err::<Seq<char>, AddressError>(e->Address_0)
                ||| handshake_url_spec(proxy_url@, provider_url@) == Err::<Seq<char>, AddressError>(e->Address_0)
            },
        },
        r is Err <==> (proxy_authority_spec(proxy_url@) is Err || handshake_url_spec(proxy_url@, provider_url@) is Err),
{
    let authority = match proxy_authority(proxy_url) {
        Ok(a) => a,
        Err(e) => return Err(TunnelError::Address(e)),
    };
    let init_url = match handshake_url(proxy_url, provider_url) {
        Ok(u) => u,
        Err(e) => return Err(TunnelError::Address(e)),
    };
    let backend_url = match get_base_url(provider_url) {
        Ok(b) => b,
        Err(e) => return Err(TunnelError::Address(e)),
    };
    let (private_key, public_key) = match generate_key_pair(KeyUse::Ecdh) {
        Ok(pair) => pair,
        Err(e) => return Err(TunnelError::Crypto(e)),
    };
    Ok(PendingHandshake {
        private_key,
        public_key,
        client_uuid: new_client_uuid(),
        backend_url,
        proxy_url: String::from_str(proxy_url),
        proxy_authority: authority,
        init_url,
    })
}

impl PendingHandshake {
    /// The headers of the handshake request: the exported public key under
    /// `x-ecdh-init` and the correlation id under `x-client-uuid`.
    pub fn headers(&self, exported_public_key: &str) -> (r: Vec<(String, String)>)
        ensures
            headers_view(r@) == seq![("x-ecdh-init"@, exported_public_key@), ("x-client-uuid"@, self.client_uuid@)],
    {
        let mut r: Vec<(String, String)> = Vec::new();
        r.push((String::from_str("x-ecdh-init"), String::from_str(exported_public_key)));
        r.push((String::from_str("x-client-uuid"), self.client_uuid.clone()));
        assert(headers_view(r@) =~= seq![("x-ecdh-init"@, exported_public_key@), ("x-client-uuid"@, self.client_uuid@)]);
        r
    }
}

/// The headers of an encrypted call to `request_url` in session `s`: the
/// true destination, the JSON content type, the session token and the
/// correlation id, and in static-asset mode the static marker.
pub open spec fn transport_headers_spec(s: NetworkState, host: Seq<char>, scheme: Seq<char>, static_asset: bool) -> Seq<(Seq<char>, Seq<char>)> {
    seq![
        ("X-Forwarded-Host"@, host),
        ("X-Forwarded-Proto"@, scheme),
        ("Content-Type"@, "application/json"@),
        ("up-JWT"@, s.provider_session@),
        ("x-client-uuid"@, s.client_uuid@),
    ] + if static_asset { seq![("X-Static"@, "true"@)] } else { Seq::empty() }
}

/// The headers of a logical request as it is encrypted: those given, and
/// the empty-body marker `layer8-empty-body: true` where the body is empty.
pub fn with_empty_body_marker(headers: Vec<(String, String)>, body: &[u8]) -> (r: Vec<(String, String)>)
    ensures
        headers_view(r@) == if body@.len() == 0 {
            headers_view(headers@).push(("layer8-empty-body"@, "true"@))
        } else {
            headers_view(headers@)
        },
{
    let mut r = headers;
    if body.len() == 0 {
        let ghost before = r@;
        r.push((String::from_str("layer8-empty-body"), String::from_str("true")));
        assert(headers_view(r@) =~= headers_view(before).push(("layer8-empty-body"@, "true"@)));
    }
    r
}

/// The metadata headers of a static-asset request, a GET without a body:
/// the JSON content type and the empty-body marker.
pub fn static_request_headers() -> (r: Vec<(String, String)>)
    ensures
        headers_view(r@) == seq![("content-type"@, "application/json"@), ("layer8-empty-body"@, "true"@)],
{
    let mut r: Vec<(String, String)> = Vec::new();
    r.push((String::from_str("content-type"), String::from_str("application/json")));
    r.push((String::from_str("layer8-empty-body"), String::from_str("true")));
    assert(headers_view(r@) =~= seq![("content-type"@, "application/json"@), ("layer8-empty-body"@, "true"@)]);
    r
}

/// Whether characters `a` and `b` are equal up to ASCII case.
pub open spec fn same_ignoring_case(a: char, b: char) -> bool {
    ||| a == b
    ||| ('A' <= a <= 'Z' && b as u32 == a as u32 + 32)
    ||| ('A' <= b <= 'Z' && a as u32 == b as u32 + 32)
}

/// Whether texts `a` and `b` are equal up to ASCII case.
pub open spec fn equal_ignoring_case(a: Seq<char>, b: Seq<char>) -> bool {
    a.len() == b.len() && forall|i: int| 0 <= i < a.len() ==> same_ignoring_case(#[trigger] a[i], b[i])
}

/// Whether `a` and `b` are equal up to ASCII case.
fn eq_ignoring_case(a: &str, b: &str) -> (r: bool)
    ensures
        r == equal_ignoring_case(a@, b@),
{
    let n = a.unicode_len();
    if n != b.unicode_len() {
        return false;
    }
    let mut i: usize = 0;
    while i < n
        invariant
            i <= n,
            n == a@.len(),
            n == b@.len(),
            forall|j: int| 0 <= j < i ==> same_ignoring_case(#[trigger] a@[j], b@[j]),
        decreases n - i,
    {
        let x = a.get_char(i);
        let y = b.get_char(i);
        let same = x == y || ('A' <= x && x <= 'Z' && y as u32 == x as u32 + 32) || ('A' <= y && y <= 'Z' && x as u32 == y as u32 + 32);
        if !same {
            return false;
        }
        i = i + 1;
    }
    true
}

/// Whether `c` is white space in the sense of Unicode's `White_Space`
/// property, as Rust's `char::is_whitespace` has it.
pub open spec fn is_white(c: char) -> bool {
    let u = c as u32;
    ||| 0x09 <= u <= 0x0d
    ||| u == 0x20 || u == 0x85 || u == 0xa0 || u == 0x1680
    ||| 0x2000 <= u <= 0x200a
    ||| u == 0x2028 || u == 0x2029 || u == 0x202f || u == 0x205f || u == 0x3000
}

/// Whether `s` without its first `a` and its last `s.len() - b` characters
/// is `s` trimmed: all that is cut is white space, and what remains neither
/// starts nor ends with it.
pub open spec fn trims_to(s: Seq<char>, a: int, b: int) -> bool {
    &&& 0 <= a <= b <= s.len()
    &&& forall|i: int| 0 <= i < a ==> is_white(#[trigger] s[i])
    &&& forall|i: int| b <= i < s.len() ==> is_white(#[trigger] s[i])
    &&& a < b ==> !is_white(s[a]) && !is_white(s[b - 1])
}

/// Whether header name `name`, trimmed, is `target` up to ASCII case.
pub open spec fn names_header(name: Seq<char>, target: Seq<char>) -> bool {
    exists|a: int, b: int| trims_to(name, a, b) && equal_ignoring_case(#[trigger] name.subrange(a, b), target)
}

/// Any two trimmings of `s` leave the same text.
proof fn lemma_trim_unique(s: Seq<char>, a: int, b: int, c: int, d: int)
    requires
        trims_to(s, a, b),
        trims_to(s, c, d),
    ensures
        s.subrange(a, b) == s.subrange(c, d),
{
    if a < b && c < d {
        if a < c {
            assert(is_white(s[a]));
        }
        if c < a {
            assert(is_white(s[c]));
        }
        if b < d {
            assert(is_white(s[d - 1]));
        }
        if d < b {
            assert(is_white(s[b - 1]));
        }
    } else if a < b {
        if c <= a {
            assert(d <= a || is_white(s[a]));
            assert(is_white(s[a]));
        } else {
            assert(is_white(s[a]));
        }
    } else if c < d {
        if a <= c {
            assert(is_white(s[c]));
        } else {
            assert(is_white(s[c]));
        }
    }
    assert(s.subrange(a, b) =~= s.subrange(c, d));
}

/// Whether `c` is white space.
fn white(c: char) -> (r: bool)
    ensures
        r == is_white(c),
{
    let u = c as u32;
    (0x09 <= u && u <= 0x0d) || u == 0x20 || u == 0x85 || u == 0xa0 || u == 0x1680 || (0x2000 <= u && u <= 0x200a) || u == 0x2028 || u == 0x2029 || u == 0x202f || u == 0x205f || u == 0x3000
}

/// `s` without leading and trailing white space.
fn trim(s: &str) -> (r: &str)
    ensures
        exists|a: int, b: int| trims_to(s@, a, b) && r@ == s@.subrange(a, b),
{
    let n = s.unicode_len();
    let mut a: usize = 0;
    while a < n
        invariant_except_break
            a <= n,
            n == s@.len(),
            forall|i: int| 0 <= i < a ==> is_white(#[trigger] s@[i]),
        ensures
            a <= n,
            n == s@.len(),
            forall|i: int| 0 <= i < a ==> is_white(#[trigger] s@[i]),
            a < n ==> !is_white(s@[a as int]),
        decreases n - a,
    {
        if !white(s.get_char(a)) {
            break;
        }
        a = a + 1;
    }
    let mut b: usize = n;
    while b > a
        invariant_except_break
            a <= b <= n,
            n == s@.len(),
            forall|i: int| b <= i < n ==> is_white(#[trigger] s@[i]),
        ensures
            a <= b <= n,
            forall|i: int| b <= i < n ==> is_white(#[trigger] s@[i]),
            a < b ==> !is_white(s@[b - 1]),
        decreases b,
    {
        if !white(s.get_char(b - 1)) {
            break;
        }
        b = b - 1;
    }
    proof {
        if a == b && a < n {
            assert(is_white(s@[a as int]));
        }
    }
    let r = s.substring_char(a, b);
    assert(trims_to(s@, a as int, b as int));
    r
}

/// The value of the first header whose name, trimmed, is `content-type` in
/// any ASCII case.
pub fn content_type_of(headers: &Vec<(String, String)>) -> (r: Option<String>)
    ensures
        match r {
            Some(v) => exists|i: int| 0 <= i < headers@.len() && names_header(#[trigger] headers@[i].0@, "content-type"@) && headers@[i].1@ == v@ && forall|j: int| 0 <= j < i ==> !names_header(#[trigger] headers@[j].0@, "content-type"@),
            None => forall|i: int| 0 <= i < headers@.len() ==> !names_header(#[trigger] headers@[i].0@, "content-type"@),
        },
{
    let mut i: usize = 0;
    while i < headers.len()
        invariant
            i <= headers@.len(),
            forall|j: int| 0 <= j < i ==> !names_header(#[trigger] headers@[j].0@, "content-type"@),
        decreases headers.len() - i,
    {
        let name = headers[i].0.as_str();
        let core = trim(name);
        let found = eq_ignoring_case(core, "content-type");
        proof {
            let (a, b) = choose|a: int, b: int| trims_to(name@, a, b) && core@ == name@.subrange(a, b);
            if names_header(name@, "content-type"@) {
                let (c, d) = choose|c: int, d: int| trims_to(name@, c, d) && equal_ignoring_case(#[trigger] name@.subrange(c, d), "content-type"@);
                lemma_trim_unique(name@, a, b, c, d);
            }
        }
        if found {
            return Some(headers[i].1.clone());
        }
        i = i + 1;
    }
    None
}

impl NetworkState {
    /// The session that a prepared handshake establishes from the proxy's
    /// answer: its HTTP `status`
    /// and what its body held (`None` where it was not a JSON object). A
    /// 401 is terminal. Otherwise the token and the backend's public key
    /// must be present, and the shared key is derived from the local private
    /// key and that public key. Nothing is retried here.
    pub fn new(pending: PendingHandshake, status: u16, reply: Option<HandshakeReply>) -> (r: Result<NetworkState, TunnelError>)
        ensures
            match r {
                Err(e) => handshake_error(pending, status, reply) == Some(e),
                Ok(s) => {
                    &&& handshake_error(pending, status, reply) is None
                    &&& reply matches Some(rep) && rep.up_jwt matches Some(token) && rep.server_key matches Some(k) && s.provider_session@ == token@ && derives(pending.private_key, k, s.symmetric_key)
                    &&& s.client_uuid == pending.client_uuid
                    &&& s.backend_url == pending.backend_url
                    &&& s.proxy_url == pending.proxy_url
                    &&& s.proxy_authority == pending.proxy_authority
                    &&& s.private_key_jwk == pending.private_key
                    &&& s.public_key_jwk == pending.public_key
                    &&& s.static_paths@.len() == 0
                },
            },
    {
        if status == 401 {
            return Err(TunnelError::Unauthorized);
        }
        let reply = match reply {
            Some(rep) => rep,
            None => return Err(TunnelError::MalformedResponse),
        };
        let HandshakeReply { up_jwt, server_key } = reply;
        let token = match up_jwt {
            Some(t) => t,
            None => return Err(TunnelError::MissingToken),
        };
        let server_key = match server_key {
            Some(k) => k,
            None => return Err(TunnelError::MissingServerKey),
        };
        let symmetric_key = match pending.private_key.get_ecdh_shared_secret(&server_key) {
            Ok(k) => k,
            Err(e) => return Err(TunnelError::Crypto(e)),
        };
        Ok(NetworkState {
            client_uuid: pending.client_uuid,
            symmetric_key,
            provider_session: token,
            static_paths: Vec::new(),
            proxy_url: pending.proxy_url,
            proxy_authority: pending.proxy_authority,
            backend_url: pending.backend_url,
            public_key_jwk: pending.public_key,
            private_key_jwk: pending.private_key,
        })
    }

    /// The headers of an encrypted call to `request_url`, which tell the
    /// proxy where to route it and which session it belongs to.
    pub fn transport_headers(&self, request_url: &str, static_asset: bool) -> (r: Result<Vec<(String, String)>, TunnelError>)
        ensures
            match r {
                Ok(h) => origin_spec(request_url@) matches Ok((host, scheme)) && headers_view(h@) == transport_headers_spec(*self, host, scheme, static_asset),
                Err(e) => origin_spec(request_url@) == Err::<(Seq<char>, Seq<char>), AddressError>(e->Address_0) && e is Address,
            },
    {
        let (host, scheme) = match origin(request_url) {
            Ok(o) => o,
            Err(e) => return Err(TunnelError::Address(e)),
        };
        let ghost host_view = host@;
        let ghost scheme_view = scheme@;
        let mut r: Vec<(String, String)> = Vec::new();
        r.push((String::from_str("X-Forwarded-Host"), host));
        r.push((String::from_str("X-Forwarded-Proto"), scheme));
        r.push((String::from_str("Content-Type"), String::from_str("application/json")));
        r.push((String::from_str("up-JWT"), self.provider_session.clone()));
        r.push((String::from_str("x-client-uuid"), self.client_uuid.clone()));
        if static_asset {
            r.push((String::from_str("X-Static"), String::from_str("true")));
        }
        assert(headers_view(r@) =~= transport_headers_spec(*self, host_view, scheme_view, static_asset));
        Ok(r)
    }

    /// Encrypts a serialized request (or any payload) under the session key
    /// and wraps it in an envelope. Opening the envelope and decrypting it
    /// with a key that allows decryption gives `payload` back.
    pub fn seal_request(&self, payload: &[u8]) -> (r: Result<Envelope, TunnelError>)
        ensures
            match r {
                Ok(env) => encryption_error(self.symmetric_key, payload@) is None && env.payload_spec() is Some && exists|n: Seq<u8>| n.len() == NONCE_SIZE && #[trigger] encryption_spec(self.symmetric_key, n, payload@) == Ok::<Seq<u8>, CryptoError>(env.payload_spec()->0),
                Err(TunnelError::Crypto(e)) => encryption_error(self.symmetric_key, payload@) == Some(e),
                Err(TunnelError::PayloadTooLarge) => encryption_error(self.symmetric_key, payload@) is None && NONCE_SIZE + payload@.len() + TAG_SIZE > isize::MAX / 2,
                Err(_) => false,
            },
            r matches Ok(env) ==> (self.symmetric_key.allows("decrypt"@) ==> decryption_spec(self.symmetric_key, env.payload_spec()->0) == Ok::<Seq<u8>, CryptoError>(payload@)),
    {
        let sealed = match self.symmetric_key.symmetric_encrypt(payload) {
            Ok(c) => c,
            Err(e) => return Err(TunnelError::Crypto(e)),
        };
        if sealed.len() > (isize::MAX / 2) as usize {
            return Err(TunnelError::PayloadTooLarge);
        }
        Ok(encode(sealed.as_slice()))
    }

    /// Encrypts a message of a persistent stream under the session key and
    /// wraps it in a stream envelope naming the session's backend.
    pub fn seal_stream_message(&self, payload: &[u8]) -> (r: Result<Envelope, TunnelError>)
        ensures
            match r {
                Ok(env) => encryption_error(self.symmetric_key, payload@) is None && env.payload_spec() is Some && exists|n: Seq<u8>| n.len() == NONCE_SIZE && #[trigger] encryption_spec(self.symmetric_key, n, payload@) == Ok::<Seq<u8>, CryptoError>(env.payload_spec()->0),
                Err(TunnelError::Crypto(e)) => encryption_error(self.symmetric_key, payload@) == Some(e),
                Err(TunnelError::PayloadTooLarge) => encryption_error(self.symmetric_key, payload@) is None && NONCE_SIZE + payload@.len() + TAG_SIZE > isize::MAX / 2,
                Err(_) => false,
            },
            r matches Ok(env) ==> env matches Envelope::StreamMessage { backend_url, .. } && backend_url@ == self.backend_url@,
            r matches Ok(env) ==> (self.symmetric_key.allows("decrypt"@) ==> decryption_spec(self.symmetric_key, env.payload_spec()->0) == Ok::<Seq<u8>, CryptoError>(payload@)),
    {
        let sealed = match self.symmetric_key.symmetric_encrypt(payload) {
            Ok(c) => c,
            Err(e) => return Err(TunnelError::Crypto(e)),
        };
        if sealed.len() > (isize::MAX / 2) as usize {
            return Err(TunnelError::PayloadTooLarge);
        }
        Ok(encode_stream_message(sealed.as_slice(), self.backend_url.clone()))
    }

    /// Unwraps and decrypts a response envelope under the session key.
    pub fn open_response(&self, envelope: &Envelope) -> (r: Result<Vec<u8>, TunnelError>)
        ensures
            payload_view(r) == match envelope.payload_spec() {
                None => Err(TunnelError::Envelope(EnvelopeError::MalformedData)),
                Some(b) => lift_crypto(decryption_spec(self.symmetric_key, b)),
            },
    {
        let sealed = match decode(envelope) {
            Ok(b) => b,
            Err(e) => return Err(TunnelError::Envelope(e)),
        };
        match self.symmetric_key.symmetric_decrypt(sealed.as_slice()) {
            Ok(p) => Ok(p),
            Err(e) => Err(TunnelError::Crypto(e)),
        }
    }
}

} // verus!
