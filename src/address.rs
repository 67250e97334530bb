//! Addresses of the tunnel: the base URL (scheme, host and port) that keys a
//! backend, the proxy's authority, and the handshake endpoint.
use vstd::prelude::*;

verus! {

/// What `url::Url::parse` reads from `text`: scheme, host and explicit port
/// (`None` where the port is absent or the scheme's default), or `None`
/// where `text` is not an absolute URL.
pub uninterp spec fn parsed_url(text: Seq<char>) -> Option<(Seq<char>, Option<Seq<char>>, Option<u16>)>;

/// The parts of a parsed URL that the tunnel reads.
pub struct UrlParts {
    pub scheme: String,
    pub host: Option<String>,
    pub port: Option<u16>,
}

/// An optional text as its characters.
pub open spec fn text_option(t: Option<String>) -> Option<Seq<char>> {
    match t {
        Some(s) => Some(s@),
        None => None,
    }
}

/// Relies on `url::Url::parse`, with `Url::scheme`, `Url::host_str` and
/// `Url::port` read off its result.
#[verifier::external_body]
fn parse_url(text: &str) -> (r: Option<UrlParts>)
    ensures
        match r {
            Some(p) => parsed_url(text@) == Some((p.scheme@, text_option(p.host), p.port)),
            None => parsed_url(text@) is None,
        },
{
    match url::Url::parse(text) {
        Ok(u) => Some(UrlParts { scheme: u.scheme().to_string(), host: u.host_str().map(str::to_string), port: u.port() }),
        Err(_) => None,
    }
}

/// Why an address could not be built.
#[derive(Clone, Copy, Debug, PartialEq, Eq, Structural)]
pub enum AddressError {
    /// The text is not an absolute URL.
    InvalidUrl,
    /// The URL has no host.
    MissingHost,
}

/// The decimal digit `d`.
pub open spec fn digit_char(d: nat) -> char {
    if d == 0 { '0' } else if d == 1 { '1' } else if d == 2 { '2' } else if d == 3 { '3' } else if d == 4 { '4' } else if d == 5 { '5' } else if d == 6 { '6' } else if d == 7 { '7' } else if d == 8 { '8' } else { '9' }
}

/// `n` in decimal, without leading zeros.
pub open spec fn decimal_text(n: nat) -> Seq<char>
    decreases n,
{
    if n < 10 {
        seq![digit_char(n)]
    } else {
        decimal_text(n / 10) + seq![digit_char(n % 10)]
    }
}

/// The text of digit `d`.
fn digit_str(d: u16) -> (r: &'static str)
    requires
        d < 10,
    ensures
        r@ == seq![digit_char(d as nat)],
{
    proof {
        reveal_strlit("0");
        reveal_strlit("1");
        reveal_strlit("2");
        reveal_strlit("3");
        reveal_strlit("4");
        reveal_strlit("5");
        reveal_strlit("6");
        reveal_strlit("7");
        reveal_strlit("8");
        reveal_strlit("9");
    }
    let r = if d == 0 { "0" } else if d == 1 { "1" } else if d == 2 { "2" } else if d == 3 { "3" } else if d == 4 { "4" } else if d == 5 { "5" } else if d == 6 { "6" } else if d == 7 { "7" } else if d == 8 { "8" } else { "9" };
    assert(r@ =~= seq![digit_char(d as nat)]);
    r
}

/// `n` in decimal.
fn decimal(n: u16) -> (r: String)
    ensures
        r@ == decimal_text(n as nat),
    decreases n,
{
    if n < 10 {
        String::from_str(digit_str(n))
    } else {
        let mut r = decimal(n / 10);
        r.append(digit_str(n % 10));
        r
    }
}

/// `scheme://host`, then `:port` where a port is given.
pub open spec fn authority_text(scheme: Seq<char>, host: Seq<char>, port: Option<u16>) -> Seq<char> {
    scheme + "://"@ + host + match port {
        Some(p) => ":"@ + decimal_text(p as nat),
        None => Seq::empty(),
    }
}

/// The base URL of `url`: scheme, host and explicit port, with path, query
/// and fragment dropped.
pub open spec fn base_url_spec(url: Seq<char>) -> Result<Seq<char>, AddressError> {
    match parsed_url(url) {
        None => Err(AddressError::InvalidUrl),
        Some((scheme, host, port)) => match host {
            None => Err(AddressError::MissingHost),
            Some(h) => Ok(authority_text(scheme, h, port)),
        },
    }
}

/// The proxy authority of `url`: scheme, host and port, the port 443 where
/// the URL gives none.
pub open spec fn proxy_authority_spec(url: Seq<char>) -> Result<Seq<char>, AddressError> {
    match parsed_url(url) {
        None => Err(AddressError::InvalidUrl),
        Some((scheme, host, port)) => match host {
            None => Err(AddressError::MissingHost),
            Some(h) => Ok(authority_text(scheme, h, Some(match port { Some(p) => p, None => 443u16 }))),
        },
    }
}

/// A text result as its characters.
pub open spec fn text_result(r: Result<String, AddressError>) -> Result<Seq<char>, AddressError> {
    match r {
        Ok(s) => Ok(s@),
        Err(e) => Err(e),
    }
}

/// `scheme://host` followed by `:port` where `port` is given.
fn authority(scheme: &str, host: &str, port: Option<u16>) -> (r: String)
    ensures
        r@ == authority_text(scheme@, host@, port),
{
    let mut r = String::from_str(scheme);
    r.append("://");
    r.append(host);
    match port {
        Some(p) => {
            r.append(":");
            let digits = decimal(p);
            r.append(digits.as_str());
        },
        None => {},
    }
    assert(r@ =~= authority_text(scheme@, host@, port));
    r
}

/// The base URL of `url` (scheme, host and explicit port), which keys the
/// session of a backend.
pub fn get_base_url(url: &str) -> (r: Result<String, AddressError>)
    ensures
        text_result(r) == base_url_spec(url@),
{
    match parse_url(url) {
        None => Err(AddressError::InvalidUrl),
        Some(parts) => match parts.host {
            None => Err(AddressError::MissingHost),
            Some(host) => Ok(authority(parts.scheme.as_str(), host.as_str(), parts.port)),
        },
    }
}

/// The authority that the transport client of a proxy is bound to: scheme,
/// host and port, 443 where `url` gives no port.
pub fn proxy_authority(url: &str) -> (r: Result<String, AddressError>)
    ensures
        text_result(r) == proxy_authority_spec(url@),
{
    match parse_url(url) {
        None => Err(AddressError::InvalidUrl),
        Some(parts) => match parts.host {
            None => Err(AddressError::MissingHost),
            Some(host) => {
                let port: u16 = match parts.port {
                    Some(p) => p,
                    None => 443,
                };
                Ok(authority(parts.scheme.as_str(), host.as_str(), Some(port)))
            },
        },
    }
}

/// The handshake endpoint of a proxy for a backend:
/// `{proxy base}/init-tunnel?backend={backend base}`.
pub open spec fn handshake_url_spec(proxy_url: Seq<char>, backend_url: Seq<char>) -> Result<Seq<char>, AddressError> {
    match (base_url_spec(proxy_url), base_url_spec(backend_url)) {
        (Err(e), _) => Err(e),
        (Ok(_), Err(e)) => Err(e),
        (Ok(p), Ok(b)) => Ok(p + "/init-tunnel?backend="@ + b),
    }
}

/// The URL that a handshake for the backend of `backend_url` is posted to.
pub fn handshake_url(proxy_url: &str, backend_url: &str) -> (r: Result<String, AddressError>)
    ensures
        text_result(r) == handshake_url_spec(proxy_url@, backend_url@),
{
    let proxy = match get_base_url(proxy_url) {
        Ok(p) => p,
        Err(e) => return Err(e),
    };
    let backend = match get_base_url(backend_url) {
        Ok(b) => b,
        Err(e) => return Err(e),
    };
    let mut r = proxy;
    r.append("/init-tunnel?backend=");
    r.append(backend.as_str());
    Ok(r)
}

/// The host and the scheme of `url`, as a proxy is told the true destination.
pub open spec fn origin_spec(url: Seq<char>) -> Result<(Seq<char>, Seq<char>), AddressError> {
    match parsed_url(url) {
        None => Err(AddressError::InvalidUrl),
        Some((scheme, host, _)) => match host {
            None => Err(AddressError::MissingHost),
            Some(h) => Ok((h, scheme)),
        },
    }
}

/// The host and the scheme of `url`.
pub fn origin(url: &str) -> (r: Result<(String, String), AddressError>)
    ensures
        match r {
            Ok((h, s)) => origin_spec(url@) == Ok::<(Seq<char>, Seq<char>), AddressError>((h@, s@)),
            Err(e) => origin_spec(url@) == Err::<(Seq<char>, Seq<char>), AddressError>(e),
        },
{
    match parse_url(url) {
        None => Err(AddressError::InvalidUrl),
        Some(parts) => match parts.host {
            None => Err(AddressError::MissingHost),
            Some(host) => Ok((host, parts.scheme)),
        },
    }
}

} // verus!
