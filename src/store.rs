//! The registry of established sessions, keyed by the backend's base URL. A
//! session is stored only once its handshake has completed, and a fresh one
//! replaces the old one of its backend wholesale.
use crate::address::{base_url_spec, get_base_url, AddressError};
use crate::tunnel::{NetworkState, TunnelError};
use vstd::prelude::*;

verus! {

/// The session that `sessions` hold for backend `key`: the last one stored
/// under it.
pub open spec fn lookup(sessions: Seq<NetworkState>, key: Seq<char>) -> Option<NetworkState>
    decreases sessions.len(),
{
    if sessions.len() == 0 {
        None
    } else if sessions.last().backend_url@ == key {
        Some(sessions.last())
    } else {
        lookup(sessions.drop_last(), key)
    }
}

/// Replacing the last session of backend `key` by another of the same
/// backend changes what `key` looks up and nothing else.
proof fn lemma_lookup_update(sessions: Seq<NetworkState>, i: int, s: NetworkState, other: Seq<char>)
    requires
        0 <= i < sessions.len(),
        sessions[i].backend_url@ == s.backend_url@,
        forall|j: int| i < j < sessions.len() ==> sessions[j].backend_url@ != s.backend_url@,
    ensures
        lookup(sessions.update(i, s), other) == if other == s.backend_url@ { Some(s) } else { lookup(sessions, other) },
    decreases sessions.len(),
{
    let u = sessions.update(i, s);
    if i < sessions.len() - 1 {
        assert(u.drop_last() =~= sessions.drop_last().update(i, s));
        lemma_lookup_update(sessions.drop_last(), i, s, other);
    } else {
        assert(u.drop_last() =~= sessions.drop_last());
    }
}

/// Sessions by backend base URL.
pub struct SessionStore {
    sessions: Vec<NetworkState>,
}

impl SessionStore {
    /// The session stored for backend `key`, if any.
    pub closed spec fn session_for(&self, key: Seq<char>) -> Option<NetworkState> {
        lookup(self.sessions@, key)
    }

    /// An empty registry.
    pub fn new() -> (r: SessionStore)
        ensures
            forall|k: Seq<char>| r.session_for(k) is None,
    {
        SessionStore { sessions: Vec::new() }
    }

    /// The index of the last session stored for `key`.
    fn position(&self, key: &str) -> (r: Option<usize>)
        ensures
            match r {
                Some(i) => i < self.sessions@.len() && self.sessions@[i as int].backend_url@ == key@ && (forall|j: int| i < j < self.sessions@.len() ==> self.sessions@[j].backend_url@ != key@) && lookup(self.sessions@, key@) == Some(self.sessions@[i as int]),
                None => lookup(self.sessions@, key@) is None,
            },
    {
        let target = String::from_str(key);
        let mut i = self.sessions.len();
        assert(self.sessions@.subrange(0, i as int) =~= self.sessions@);
        while i > 0
            invariant
                i <= self.sessions@.len(),
                target@ == key@,
                forall|j: int| i <= j < self.sessions@.len() ==> self.sessions@[j].backend_url@ != key@,
                lookup(self.sessions@, key@) == lookup(self.sessions@.subrange(0, i as int), key@),
            decreases i,
        {
            let k = i - 1;
            assert(self.sessions@.subrange(0, i as int).drop_last() =~= self.sessions@.subrange(0, k as int));
            if self.sessions[k].backend_url == target {
                return Some(k);
            }
            i = k;
        }
        None
    }

    /// The session stored for the backend whose base URL is `key`.
    pub fn get(&self, key: &str) -> (r: Option<&NetworkState>)
        ensures
            match r {
                Some(s) => self.session_for(key@) == Some(*s),
                None => self.session_for(key@) is None,
            },
    {
        match self.position(key) {
            Some(i) => Some(&self.sessions[i]),
            None => None,
        }
    }

    /// Stores an established session under its backend's base URL,
    /// replacing the one stored there before.
    pub fn insert(&mut self, session: NetworkState)
        ensures
            forall|k: Seq<char>| #[trigger] final(self).session_for(k) == if k == session.backend_url@ { Some(session) } else { old(self).session_for(k) },
    {
        let ghost key = session.backend_url@;
        match self.position(session.backend_url.as_str()) {
            Some(i) => {
                proof {
                    assert forall|k: Seq<char>| lookup(self.sessions@.update(i as int, session), k) == if k == key { Some(session) } else { lookup(self.sessions@, k) } by {
                        lemma_lookup_update(self.sessions@, i as int, session, k);
                    }
                }
                self.sessions.set(i, session);
            },
            None => {
                proof {
                    assert forall|k: Seq<char>| lookup(self.sessions@.push(session), k) == if k == key { Some(session) } else { lookup(self.sessions@, k) } by {
                        assert(self.sessions@.push(session).drop_last() =~= self.sessions@);
                    }
                }
                self.sessions.push(session);
            },
        }
    }

    /// Whether a session is established with the backend of `provider`;
    /// `false` where no provider is named or its URL cannot be read.
    pub fn check_encrypted_tunnel(&self, provider: Option<&str>) -> (r: bool)
        ensures
            r <==> (provider matches Some(p) && base_url_spec(p@) matches Ok(b) && self.session_for(b) is Some),
    {
        let provider = match provider {
            Some(p) => p,
            None => return false,
        };
        match get_base_url(provider) {
            Ok(base) => self.get(base.as_str()).is_some(),
            Err(_) => false,
        }
    }
}

/// What initialising the tunnel with a provider takes.
pub enum InitStep {
    /// A session with the provider's backend is stored: reuse it, with no
    /// handshake.
    Reuse,
    /// No session is stored: run the handshake for the backend with base URL
    /// `backend_url`, then store the session with `complete_init`.
    Handshake { backend_url: String },
}

impl SessionStore {
    /// Decides how initialising the tunnel with `provider_url` proceeds: a
    /// stored session of its backend is reused as it is; otherwise a
    /// handshake is needed.
    pub fn init_step(&self, provider_url: &str) -> (r: Result<InitStep, TunnelError>)
        ensures
            match r {
                Ok(InitStep::Reuse) => base_url_spec(provider_url@) matches Ok(b) && self.session_for(b) is Some,
                Ok(InitStep::Handshake { backend_url }) => base_url_spec(provider_url@) == Ok::<Seq<char>, AddressError>(backend_url@) && self.session_for(backend_url@) is None,
                Err(e) => e is Address && base_url_spec(provider_url@) == Err::<Seq<char>, AddressError>(e->Address_0),
            },
    {
        let base = match get_base_url(provider_url) {
            Ok(b) => b,
            Err(e) => return Err(TunnelError::Address(e)),
        };
        if self.get(base.as_str()).is_some() {
            Ok(InitStep::Reuse)
        } else {
            Ok(InitStep::Handshake { backend_url: base })
        }
    }

    /// Stores the session that the handshake of an initialisation
    /// established, under its backend's base URL, with the config's static
    /// asset paths; the sessions of other backends stay as they were.
    pub fn complete_init(&mut self, state: NetworkState, static_paths: Vec<String>)
        ensures
            final(self).session_for(state.backend_url@) matches Some(s) && s.static_paths@ == static_paths@ && s.symmetric_key == state.symmetric_key && s.provider_session == state.provider_session && s.client_uuid == state.client_uuid && s.backend_url == state.backend_url && s.proxy_url == state.proxy_url && s.proxy_authority == state.proxy_authority && s.private_key_jwk == state.private_key_jwk && s.public_key_jwk == state.public_key_jwk,
            forall|k: Seq<char>| k != state.backend_url@ ==> #[trigger] final(self).session_for(k) == old(self).session_for(k),
    {
        let mut state = state;
        state.static_paths = static_paths;
        self.insert(state);
    }
}

/// Marks which established session a caller's requests go to: the base URL
/// of its backend.
pub struct NetworkStateHandler(pub String);

impl NetworkStateHandler {
    /// The base URL of `url`, where it belongs to this handler's backend.
    pub fn check_url(&self, url: &str) -> (r: Result<String, TunnelError>)
        ensures
            match r {
                Ok(b) => base_url_spec(url@) == Ok::<Seq<char>, AddressError>(b@) && b@ == self.0@,
                Err(TunnelError::WrongProvider) => base_url_spec(url@) matches Ok(b) && b != self.0@,
                Err(e) => base_url_spec(url@) == Err::<Seq<char>, AddressError>(e->Address_0) && e is Address,
            },
    {
        match get_base_url(url) {
            Ok(base) => {
                if base == self.0 {
                    Ok(base)
                } else {
                    Err(TunnelError::WrongProvider)
                }
            },
            Err(e) => Err(TunnelError::Address(e)),
        }
    }
}

} // verus!
