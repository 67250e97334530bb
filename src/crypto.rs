//! Key material in a JWK-like record, key-pair generation, ECDH derivation of
//! a shared symmetric key, and authenticated encryption under that key.
use crate::aead::{aead_sealed, open, random_nonce, seal, KEY_SIZE, MAX_PLAINTEXT, NONCE_SIZE, TAG_SIZE};
use crate::curve::{agree, ecdh_point, fresh_key_pair, is_curve_point, is_curve_scalar, parses_as_point, parses_as_scalar, public_point};
use crate::encoding::{base64_bytes, base64_text, decode_base64, encodable, encode_base64};
use rand::{rngs::StdRng, Rng, SeedableRng};
use vstd::prelude::*;
use vstd::string::*;

verus! {

/// What a key pair is generated for; it decides the capability tags of its
/// two halves.
#[derive(Clone, Copy, Debug, PartialEq, Eq, Structural)]
pub enum KeyUse {
    Ecdsa,
    Ecdh,
}

/// Why an operation on key material failed.
#[derive(Clone, Copy, Debug, PartialEq, Eq, Structural)]
pub enum CryptoError {
    /// The key's `key_ops` lack the capability that the operation needs.
    MissingCapability,
    /// The peer key handed in for a derivation lacks `deriveKey`.
    PeerMissingCapability,
    /// The peer key handed in for a derivation carries a private scalar.
    PeerIsPrivate,
    /// A private key was needed and the key has no `d` coordinate.
    NotPrivate,
    /// A coordinate is not standard base64.
    InvalidEncoding,
    /// The `x` and `y` coordinates are not a point of the curve.
    InvalidPublicKey,
    /// The `d` coordinate is not a valid secret scalar.
    InvalidSecretKey,
    /// A symmetric key that is not 32 bytes long.
    InvalidKeyLength,
    /// A plaintext longer than AES-GCM encrypts.
    PlaintextTooLong,
    /// An empty ciphertext.
    EmptyCiphertext,
    /// A ciphertext too short to hold its nonce and tag.
    TruncatedCiphertext,
    /// A ciphertext longer than any that AES-GCM produces.
    CiphertextTooLong,
    /// Authentication of the ciphertext failed.
    DecryptionFailed,
}

/// An elliptic-curve key: public (`d` empty), private (`d` set), or, after
/// a derivation, a shared symmetric key whose raw bytes sit in `x`.
/// Coordinates are standard base64.
#[derive(Clone, Debug)]
pub struct Jwk {
    /// Capability tags: sign, verify, encrypt, decrypt, wrapKey, unwrapKey,
    /// deriveKey, deriveBits.
    pub key_ops: Vec<String>,
    pub key_type: String,
    pub key_id: String,
    pub crv: String,
    pub coordinate_x: String,
    pub coordinate_y: String,
    pub coordinate_d: String,
}

/// The curve that all keys here live on, as their `crv` names it.
pub open spec fn curve_name() -> Seq<char> {
    "secp256k1"@
}

/// Whether `op` is among the tags `ops`.
pub open spec fn has_op(ops: Seq<String>, op: Seq<char>) -> bool {
    exists|i: int| 0 <= i < ops.len() && ops[i]@ == op
}

/// The tags of a key as text.
pub open spec fn ops_view(ops: Seq<String>) -> Seq<Seq<char>> {
    ops.map_values(|s: String| s@)
}

/// The key id with its `priv_` or `pub_` prefix taken off.
pub open spec fn id_suffix(id: Seq<char>) -> Seq<char> {
    if id.len() >= 5 && id.subrange(0, 5) == "priv_"@ {
        id.subrange(5, id.len() as int)
    } else if id.len() >= 4 && id.subrange(0, 4) == "pub_"@ {
        id.subrange(4, id.len() as int)
    } else {
        id
    }
}

/// A byte result as its sequence of bytes.
pub open spec fn bytes_view(r: Result<Vec<u8>, CryptoError>) -> Result<Seq<u8>, CryptoError> {
    match r {
        Ok(v) => Ok(v@),
        Err(e) => Err(e),
    }
}

/// The uncompressed SEC1 encoding that coordinates `x` and `y` make.
pub open spec fn point_from_coordinates(x: Seq<u8>, y: Seq<u8>) -> Seq<u8> {
    seq![4u8] + x + y
}

impl Jwk {
    /// Whether the key lists capability `op`.
    pub open spec fn allows(&self, op: Seq<char>) -> bool {
        has_op(self.key_ops@, op)
    }

    /// Whether the key is private: it carries a `d` coordinate.
    pub open spec fn is_private(&self) -> bool {
        self.coordinate_d@.len() > 0
    }

    /// The public point that the `x` and `y` coordinates describe.
    pub open spec fn point_spec(&self) -> Result<Seq<u8>, CryptoError> {
        match (base64_bytes(self.coordinate_x@), base64_bytes(self.coordinate_y@)) {
            (Some(x), Some(y)) => {
                if x.len() == 32 && y.len() == 32 && is_curve_point(point_from_coordinates(x, y)) {
                    Ok(point_from_coordinates(x, y))
                } else {
                    Err(CryptoError::InvalidPublicKey)
                }
            },
            _ => Err(CryptoError::InvalidEncoding),
        }
    }

    /// The secret scalar that the `d` coordinate holds.
    pub open spec fn scalar_spec(&self) -> Result<Seq<u8>, CryptoError> {
        if !self.is_private() {
            Err(CryptoError::NotPrivate)
        } else {
            match base64_bytes(self.coordinate_d@) {
                Some(d) => if is_curve_scalar(d) {
                    Ok(d)
                } else {
                    Err(CryptoError::InvalidSecretKey)
                },
                None => Err(CryptoError::InvalidEncoding),
            }
        }
    }
}

/// Whether `op` is among `ops`.
fn contains_op(ops: &Vec<String>, op: &str) -> (r: bool)
    ensures
        r == has_op(ops@, op@),
{
    let target = String::from_str(op);
    let mut i: usize = 0;
    while i < ops.len()
        invariant
            i <= ops@.len(),
            target@ == op@,
            forall|j: int| 0 <= j < i ==> ops@[j]@ != op@,
        decreases ops.len() - i,
    {
        if ops[i] == target {
            return true;
        }
        i = i + 1;
    }
    false
}

/// The bytes `a` followed by the bytes `b`.
fn concat_bytes(a: &[u8], b: &[u8]) -> (r: Vec<u8>)
    ensures
        r@ == a@ + b@,
{
    let mut r = vstd::slice::slice_to_vec(a);
    let mut i: usize = 0;
    while i < b.len()
        invariant
            i <= b@.len(),
            r@ == a@ + b@.subrange(0, i as int),
        decreases b.len() - i,
    {
        r.push(b[i]);
        i = i + 1;
        assert(b@.subrange(0, i as int) == b@.subrange(0, i - 1) + seq![b@[i - 1]]);
    }
    assert(b@.subrange(0, b@.len() as int) == b@);
    r
}

impl Jwk {
    /// The public point of the key: `x` and `y` decoded, each 32 bytes, as
    /// an uncompressed SEC1 encoding that the curve accepts.
    pub fn public_key(&self) -> (r: Result<Vec<u8>, CryptoError>)
        ensures
            bytes_view(r) == self.point_spec(),
    {
        let x = match decode_base64(self.coordinate_x.as_str()) {
            Some(x) => x,
            None => return Err(CryptoError::InvalidEncoding),
        };
        let y = match decode_base64(self.coordinate_y.as_str()) {
            Some(y) => y,
            None => return Err(CryptoError::InvalidEncoding),
        };
        if x.len() != 32 || y.len() != 32 {
            return Err(CryptoError::InvalidPublicKey);
        }
        let tag: Vec<u8> = vec![4u8];
        let head = concat_bytes(tag.as_slice(), x.as_slice());
        let point = concat_bytes(head.as_slice(), y.as_slice());
        assert(tag@ == seq![4u8]);
        if !parses_as_point(point.as_slice()) {
            return Err(CryptoError::InvalidPublicKey);
        }
        Ok(point)
    }

    /// The secret scalar of the key, decoded from `d`; an error for a public key.
    pub fn secret_key(&self) -> (r: Result<Vec<u8>, CryptoError>)
        ensures
            bytes_view(r) == self.scalar_spec(),
    {
        if self.coordinate_d.as_str().unicode_len() == 0 {
            return Err(CryptoError::NotPrivate);
        }
        let d = match decode_base64(self.coordinate_d.as_str()) {
            Some(d) => d,
            None => return Err(CryptoError::InvalidEncoding),
        };
        if !parses_as_scalar(d.as_slice()) {
            return Err(CryptoError::InvalidSecretKey);
        }
        Ok(d)
    }

    /// Checks that the record converts into curve keys: its point always,
    /// and its secret scalar too where it is private.
    pub fn convert_to_key_pairs(&self) -> (r: Result<(), CryptoError>)
        ensures
            r is Ok <==> self.point_spec() is Ok && (self.is_private() ==> self.scalar_spec() is Ok),
            r matches Err(e) ==> (self.point_spec() == Err::<Seq<u8>, CryptoError>(e) || (self.point_spec() is Ok && self.scalar_spec() == Err::<Seq<u8>, CryptoError>(e))),
    {
        match self.public_key() {
            Err(e) => return Err(e),
            Ok(_) => {},
        }
        if self.coordinate_d.as_str().unicode_len() == 0 {
            return Ok(());
        }
        match self.secret_key() {
            Err(e) => Err(e),
            Ok(_) => Ok(()),
        }
    }
}

/// The tags of the private half of a pair generated for `key_use`.
pub open spec fn private_ops(key_use: KeyUse) -> Seq<Seq<char>> {
    match key_use {
        KeyUse::Ecdh => seq!["deriveKey"@],
        KeyUse::Ecdsa => seq!["sign"@],
    }
}

/// The tags of the public half of a pair generated for `key_use`.
pub open spec fn public_ops(key_use: KeyUse) -> Seq<Seq<char>> {
    match key_use {
        KeyUse::Ecdh => seq!["deriveKey"@],
        KeyUse::Ecdsa => seq!["verify"@],
    }
}

/// Whether `pair` is the private and public record made for `key_use` from
/// the random key id `id`, the secret scalar `scalar` and the uncompressed
/// encoding `point` of its public point.
pub open spec fn is_pair_from(pair: (Jwk, Jwk), key_use: KeyUse, id: Seq<u8>, scalar: Seq<u8>, point: Seq<u8>) -> bool {
    let (private, public) = pair;
    &&& ops_view(private.key_ops@) == private_ops(key_use)
    &&& ops_view(public.key_ops@) == public_ops(key_use)
    &&& private.key_type@ == "EC"@ && public.key_type@ == "EC"@
    &&& private.crv@ == curve_name() && public.crv@ == curve_name()
    &&& private.key_id@ == "priv_"@ + base64_text(id)
    &&& public.key_id@ == "pub_"@ + base64_text(id)
    &&& private.coordinate_x@ == base64_text(point.subrange(1, 33))
    &&& public.coordinate_x@ == base64_text(point.subrange(1, 33))
    &&& private.coordinate_y@ == base64_text(point.subrange(33, 65))
    &&& public.coordinate_y@ == base64_text(point.subrange(33, 65))
    &&& private.coordinate_d@ == base64_text(scalar)
    &&& public.coordinate_d@.len() == 0
}

/// Whether `pair` came from the 16-byte key id `id` and the valid scalar
/// `s`, so that both halves describe the public point of `s`.
pub open spec fn generated_from(pair: (Jwk, Jwk), id: Seq<u8>, s: Seq<u8>) -> bool {
    &&& id.len() == 16
    &&& is_curve_scalar(s)
    &&& pair.0.scalar_spec() == Ok::<Seq<u8>, CryptoError>(s)
    &&& pair.0.point_spec() == Ok::<Seq<u8>, CryptoError>(public_point(s))
    &&& pair.1.point_spec() == Ok::<Seq<u8>, CryptoError>(public_point(s))
}

/// Whether `pair` is a key pair for `key_use` made from some 16-byte key id
/// and some valid scalar.
pub open spec fn is_fresh_pair(pair: (Jwk, Jwk), key_use: KeyUse) -> bool {
    exists|i: Seq<u8>, s: Seq<u8>| #[trigger] is_pair_from(pair, key_use, i, s, public_point(s)) && generated_from(pair, i, s)
}

/// `prefix` followed by `rest`.
pub(crate) fn joined(prefix: &str, rest: &str) -> (r: String)
    ensures
        r@ == prefix@ + rest@,
{
    let mut r = String::from_str(prefix);
    r.append(rest);
    r
}

/// A one-element list of tags.
fn single_op(op: &str) -> (r: Vec<String>)
    ensures
        ops_view(r@) == seq![op@],
{
    let mut r: Vec<String> = Vec::new();
    r.push(String::from_str(op));
    assert(ops_view(r@) =~= seq![op@]);
    r
}

/// Relies on `rand::rngs::StdRng::from_entropy` and `Rng::fill`: 16 random
/// bytes for a key id.
#[verifier::external_body]
fn random_key_id() -> (r: Vec<u8>)
    ensures
        r@.len() == 16,
{
    let mut id = [0u8; 16];
    StdRng::from_entropy().fill(&mut id);
    id.to_vec()
}

/// Builds the private and public record of a key pair generated for
/// `key_use` from its random key id, its secret scalar and the uncompressed
/// encoding of its public point (a tag byte, then 32 bytes of `x` and 32 of
/// `y`). Both halves share the id's base64 text after their prefix.
pub fn key_pair_from_parts(key_use: KeyUse, id: &[u8], scalar: &[u8], point: &[u8]) -> (r: (Jwk, Jwk))
    requires
        encodable(id@),
        encodable(scalar@),
        point@.len() == 65,
    ensures
        is_pair_from(r, key_use, id@, scalar@, point@),
        base64_bytes(r.0.coordinate_x@) == Some(point@.subrange(1, 33)),
        base64_bytes(r.0.coordinate_y@) == Some(point@.subrange(33, 65)),
        base64_bytes(r.1.coordinate_x@) == Some(point@.subrange(1, 33)),
        base64_bytes(r.1.coordinate_y@) == Some(point@.subrange(33, 65)),
        base64_bytes(r.0.coordinate_d@) == Some(scalar@),
        r.0.coordinate_d@.len() == 4 * ((scalar@.len() + 2) / 3),
{
    let id_text = encode_base64(id);
    let x = encode_base64(vstd::slice::slice_subrange(point, 1, 33));
    let y = encode_base64(vstd::slice::slice_subrange(point, 33, 65));
    let d = encode_base64(scalar);
    let (private_op, public_op) = match key_use {
        KeyUse::Ecdh => ("deriveKey", "deriveKey"),
        KeyUse::Ecdsa => ("sign", "verify"),
    };
    let private = Jwk {
        key_ops: single_op(private_op),
        key_type: String::from_str("EC"),
        key_id: joined("priv_", id_text.as_str()),
        crv: String::from_str("secp256k1"),
        coordinate_x: x.clone(),
        coordinate_y: y.clone(),
        coordinate_d: d,
    };
    let public = Jwk {
        key_ops: single_op(public_op),
        key_type: String::from_str("EC"),
        key_id: joined("pub_", id_text.as_str()),
        crv: String::from_str("secp256k1"),
        coordinate_x: x,
        coordinate_y: y,
        coordinate_d: String::new(),
    };
    (private, public)
}

/// Generates a fresh key pair on the curve for `key_use`, with a random
/// 16-byte key id. The private half holds the scalar in `d`; both halves
/// describe its public point.
pub fn generate_key_pair(key_use: KeyUse) -> (r: Result<(Jwk, Jwk), CryptoError>)
    ensures
        r matches Ok(pair) && is_fresh_pair(pair, key_use),
        r matches Ok(pair) ==> is_key_pair(pair.0, pair.1),
{
    let id = random_key_id();
    let (scalar, point) = fresh_key_pair();
    let pair = key_pair_from_parts(key_use, id.as_slice(), scalar.as_slice(), point.as_slice());
    proof {
        let p = point@;
        assert(point_from_coordinates(p.subrange(1, 33), p.subrange(33, 65)) =~= p);
        assert(pair.0.is_private());
        assert(generated_from(pair, id@, scalar@));
        assert(is_pair_from(pair, key_use, id@, scalar@, public_point(scalar@)));
    }
    let r: Result<(Jwk, Jwk), CryptoError> = Ok(pair);
    assert(r->Ok_0 == pair);
    r
}

/// Why deriving a shared key from own key `own` and peer key `peer` fails,
/// checked in this order, or `None` where it succeeds.
pub open spec fn derivation_error(own: Jwk, peer: Jwk) -> Option<CryptoError> {
    if peer.is_private() {
        Some(CryptoError::PeerIsPrivate)
    } else if !peer.allows("deriveKey"@) {
        Some(CryptoError::PeerMissingCapability)
    } else if !own.is_private() {
        Some(CryptoError::NotPrivate)
    } else if !own.allows("deriveKey"@) {
        Some(CryptoError::MissingCapability)
    } else {
        match own.scalar_spec() {
            Err(e) => Some(e),
            Ok(_) => match peer.point_spec() {
                Err(e) => Some(e),
                Ok(_) => None,
            },
        }
    }
}

/// Whether `k` is the shared key that `own` derives with the raw secret
/// `secret`: tags encrypt and decrypt, the id `shared_` and the suffix of
/// own id, the secret in `x` and no other coordinate.
pub open spec fn is_shared_key(k: Jwk, own: Jwk, secret: Seq<u8>) -> bool {
    &&& ops_view(k.key_ops@) == seq!["encrypt"@, "decrypt"@]
    &&& k.key_type@ == "EC"@
    &&& k.key_id@ == "shared_"@ + id_suffix(own.key_id@)
    &&& k.crv@ == own.crv@
    &&& secret.len() == 32
    &&& k.coordinate_x@ == base64_text(secret)
    &&& base64_bytes(k.coordinate_x@) == Some(secret)
    &&& k.coordinate_y@.len() == 0
    &&& k.coordinate_d@.len() == 0
}

/// The id `id` without its `priv_` or `pub_` prefix.
fn id_suffix_of(id: &str) -> (r: String)
    ensures
        r@ == id_suffix(id@),
{
    let n = id.unicode_len();
    if n >= 5 {
        let head = String::from_str(id.substring_char(0, 5));
        if head == String::from_str("priv_") {
            return String::from_str(id.substring_char(5, n));
        }
    }
    if n >= 4 {
        let head = String::from_str(id.substring_char(0, 4));
        if head == String::from_str("pub_") {
            return String::from_str(id.substring_char(4, n));
        }
    }
    String::from_str(id)
}

/// The raw key that the `x` coordinate of a symmetric key holds.
pub open spec fn symmetric_key_spec(k: Jwk) -> Result<Seq<u8>, CryptoError> {
    match base64_bytes(k.coordinate_x@) {
        None => Err(CryptoError::InvalidEncoding),
        Some(b) => if b.len() == KEY_SIZE {
            Ok(b)
        } else {
            Err(CryptoError::InvalidKeyLength)
        },
    }
}

/// Why encrypting `data` with key `k` fails, whatever the nonce, or `None`
/// where it succeeds.
pub open spec fn encryption_error(k: Jwk, data: Seq<u8>) -> Option<CryptoError> {
    if !k.allows("encrypt"@) {
        Some(CryptoError::MissingCapability)
    } else {
        match symmetric_key_spec(k) {
            Err(e) => Some(e),
            Ok(_) => if data.len() > MAX_PLAINTEXT {
                Some(CryptoError::PlaintextTooLong)
            } else {
                None
            },
        }
    }
}

/// What encrypting `data` with key `k` under nonce `nonce` gives: the nonce
/// followed by the AES-GCM ciphertext and tag.
pub open spec fn encryption_spec(k: Jwk, nonce: Seq<u8>, data: Seq<u8>) -> Result<Seq<u8>, CryptoError> {
    match encryption_error(k, data) {
        Some(e) => Err(e),
        None => Ok(nonce + aead_sealed(symmetric_key_spec(k)->Ok_0, nonce, data)),
    }
}

/// Whether `ciphertext` (nonce first) is the encryption of `p` under `key`.
pub open spec fn opens_to(key: Seq<u8>, ciphertext: Seq<u8>, p: Seq<u8>) -> bool {
    &&& p.len() <= MAX_PLAINTEXT
    &&& aead_sealed(key, ciphertext.subrange(0, NONCE_SIZE as int), p) == ciphertext.subrange(NONCE_SIZE as int, ciphertext.len() as int)
}

/// The plaintext that `ciphertext` is the encryption of under `key`, if any.
pub open spec fn authentic_plaintext(key: Seq<u8>, ciphertext: Seq<u8>) -> Result<Seq<u8>, CryptoError> {
    if exists|p: Seq<u8>| opens_to(key, ciphertext, p) {
        Ok(choose|p: Seq<u8>| opens_to(key, ciphertext, p))
    } else {
        Err(CryptoError::DecryptionFailed)
    }
}

/// What decrypting `ciphertext` with key `k` gives.
pub open spec fn decryption_spec(k: Jwk, ciphertext: Seq<u8>) -> Result<Seq<u8>, CryptoError> {
    if ciphertext.len() == 0 {
        Err(CryptoError::EmptyCiphertext)
    } else if !k.allows("decrypt"@) {
        Err(CryptoError::MissingCapability)
    } else {
        match symmetric_key_spec(k) {
            Err(e) => Err(e),
            Ok(key) => if ciphertext.len() < NONCE_SIZE + TAG_SIZE {
                Err(CryptoError::TruncatedCiphertext)
            } else if ciphertext.len() > NONCE_SIZE + MAX_PLAINTEXT + TAG_SIZE {
                Err(CryptoError::CiphertextTooLong)
            } else {
                authentic_plaintext(key, ciphertext)
            },
        }
    }
}

/// The ECDH secret of a peer's point and an own scalar: the x coordinate
/// of the shared point.
pub open spec fn ecdh_secret(point: Seq<u8>, scalar: Seq<u8>) -> Seq<u8> {
    ecdh_point(point, scalar).subrange(0, 32)
}

/// Whether `k` is the shared key that own key `own` derives with peer key
/// `peer`: the derivation's checks pass, `k` holds the ECDH secret of the
/// peer's point and own scalar, and that secret is the one the peer side
/// obtains from its own scalar and the point of `own`.
pub open spec fn derives(own: Jwk, peer: Jwk, k: Jwk) -> bool {
    &&& derivation_error(own, peer) is None
    &&& is_shared_key(k, own, ecdh_secret(peer.point_spec()->Ok_0, own.scalar_spec()->Ok_0))
    &&& forall|s: Seq<u8>| is_curve_scalar(s) && peer.point_spec() == Ok::<Seq<u8>, CryptoError>(public_point(s)) ==> k.coordinate_x@ == base64_text(ecdh_secret(#[trigger] public_point(own.scalar_spec()->Ok_0), s))
}

/// Whether `c` is a ciphertext that encrypting `p` with key `k` produced:
/// the encryption of `p` under some nonce, which decrypts to `p` wherever
/// `k` allows decryption.
pub open spec fn encrypts_to(k: Jwk, p: Seq<u8>, c: Seq<u8>) -> bool {
    &&& exists|n: Seq<u8>| n.len() == NONCE_SIZE && #[trigger] encryption_spec(k, n, p) == Ok::<Seq<u8>, CryptoError>(c)
    &&& k.allows("decrypt"@) ==> decryption_spec(k, c) == Ok::<Seq<u8>, CryptoError>(p)
}

impl Jwk {
    /// Derives the shared symmetric key of an ECDH agreement between this
    /// private key and the peer's public key. Both must carry `deriveKey`,
    /// and the peer must not carry a private scalar. Each side of an
    /// agreement, combining its own scalar with the other's point, obtains
    /// the same key bytes.
    pub fn get_ecdh_shared_secret(&self, public_key: &Jwk) -> (r: Result<Jwk, CryptoError>)
        ensures
            match r {
                Err(e) => derivation_error(*self, *public_key) == Some(e),
                Ok(k) => derives(*self, *public_key, k),
            },
    {
        if public_key.coordinate_d.as_str().unicode_len() != 0 {
            return Err(CryptoError::PeerIsPrivate);
        }
        if !contains_op(&public_key.key_ops, "deriveKey") {
            return Err(CryptoError::PeerMissingCapability);
        }
        if self.coordinate_d.as_str().unicode_len() == 0 {
            return Err(CryptoError::NotPrivate);
        }
        if !contains_op(&self.key_ops, "deriveKey") {
            return Err(CryptoError::MissingCapability);
        }
        let scalar = match self.secret_key() {
            Ok(s) => s,
            Err(e) => return Err(e),
        };
        let point = match public_key.public_key() {
            Ok(p) => p,
            Err(e) => return Err(e),
        };
        let shared_point = match agree(point.as_slice(), scalar.as_slice()) {
            Some(s) => s,
            None => return Err(CryptoError::InvalidPublicKey),
        };
        let secret = vstd::slice::slice_subrange(shared_point.as_slice(), 0, 32);
        let mut key_ops: Vec<String> = Vec::new();
        key_ops.push(String::from_str("encrypt"));
        key_ops.push(String::from_str("decrypt"));
        assert(ops_view(key_ops@) =~= seq!["encrypt"@, "decrypt"@]);
        let suffix = id_suffix_of(self.key_id.as_str());
        Ok(Jwk {
            key_ops,
            key_type: String::from_str("EC"),
            key_id: joined("shared_", suffix.as_str()),
            crv: self.crv.clone(),
            coordinate_x: encode_base64(secret),
            coordinate_y: String::new(),
            coordinate_d: String::new(),
        })
    }

    /// The raw symmetric key in `x`.
    fn symmetric_key(&self) -> (r: Result<Vec<u8>, CryptoError>)
        ensures
            bytes_view(r) == symmetric_key_spec(*self),
    {
        let key = match decode_base64(self.coordinate_x.as_str()) {
            Some(k) => k,
            None => return Err(CryptoError::InvalidEncoding),
        };
        if key.len() != KEY_SIZE {
            return Err(CryptoError::InvalidKeyLength);
        }
        Ok(key)
    }

    /// Encrypts `data` under this symmetric key with the given 12-byte
    /// nonce: the nonce followed by ciphertext and tag. The key must carry
    /// `encrypt`; where it also carries `decrypt`, decryption gives `data`
    /// back.
    pub fn encrypt_with_nonce(&self, nonce: &[u8], data: &[u8]) -> (r: Result<Vec<u8>, CryptoError>)
        requires
            nonce@.len() == NONCE_SIZE,
        ensures
            bytes_view(r) == encryption_spec(*self, nonce@, data@),
            r matches Ok(c) ==> c@.len() == NONCE_SIZE + data@.len() + TAG_SIZE,
            r matches Ok(c) ==> (self.allows("decrypt"@) ==> decryption_spec(*self, c@) == Ok::<Seq<u8>, CryptoError>(data@)),
    {
        if !contains_op(&self.key_ops, "encrypt") {
            return Err(CryptoError::MissingCapability);
        }
        let key = match self.symmetric_key() {
            Ok(k) => k,
            Err(e) => return Err(e),
        };
        if data.len() as u64 > MAX_PLAINTEXT {
            return Err(CryptoError::PlaintextTooLong);
        }
        let sealed = match seal(key.as_slice(), nonce, data) {
            Some(c) => c,
            None => return Err(CryptoError::PlaintextTooLong),
        };
        let c = concat_bytes(nonce, sealed.as_slice());
        proof {
            let n = NONCE_SIZE as int;
            assert(c@.subrange(0, n) =~= nonce@);
            assert(c@.subrange(n, c@.len() as int) =~= sealed@);
            assert(opens_to(key@, c@, data@));
            let p = choose|p: Seq<u8>| opens_to(key@, c@, p);
            assert(p == data@);
        }
        Ok(c)
    }

    /// Encrypts `data` under this symmetric key with a fresh random nonce:
    /// the nonce followed by ciphertext and tag. The key must carry
    /// `encrypt`; where it also carries `decrypt`, decryption gives `data`
    /// back.
    pub fn symmetric_encrypt(&self, data: &[u8]) -> (r: Result<Vec<u8>, CryptoError>)
        ensures
            exists|n: Seq<u8>| n.len() == NONCE_SIZE && bytes_view(r) == #[trigger] encryption_spec(*self, n, data@),
            r matches Ok(c) ==> encrypts_to(*self, data@, c@),
            r matches Ok(c) ==> c@.len() == NONCE_SIZE + data@.len() + TAG_SIZE,
            r is Err <==> encryption_error(*self, data@) is Some,
    {
        let nonce = random_nonce();
        let r = self.encrypt_with_nonce(nonce.as_slice(), data);
        assert(bytes_view(r) == encryption_spec(*self, nonce@, data@));
        r
    }

    /// Decrypts `ciphertext` (a 12-byte nonce, then ciphertext and tag) under
    /// this symmetric key, which must carry `decrypt`. It succeeds only on
    /// what encryption under this key produced, and gives its plaintext.
    pub fn symmetric_decrypt(&self, ciphertext: &[u8]) -> (r: Result<Vec<u8>, CryptoError>)
        ensures
            bytes_view(r) == decryption_spec(*self, ciphertext@),
            r matches Ok(p) ==> symmetric_key_spec(*self) matches Ok(key) && opens_to(key, ciphertext@, p@),
    {
        if ciphertext.len() == 0 {
            return Err(CryptoError::EmptyCiphertext);
        }
        if !contains_op(&self.key_ops, "decrypt") {
            return Err(CryptoError::MissingCapability);
        }
        let key = match self.symmetric_key() {
            Ok(k) => k,
            Err(e) => return Err(e),
        };
        if ciphertext.len() < NONCE_SIZE + TAG_SIZE {
            return Err(CryptoError::TruncatedCiphertext);
        }
        if ciphertext.len() as u64 > MAX_PLAINTEXT + (NONCE_SIZE + TAG_SIZE) as u64 {
            return Err(CryptoError::CiphertextTooLong);
        }
        let (nonce, body) = ciphertext.split_at(NONCE_SIZE);
        match open(key.as_slice(), nonce, body) {
            Some(p) => {
                proof {
                    assert(opens_to(key@, ciphertext@, p@));
                    let q = choose|p: Seq<u8>| opens_to(key@, ciphertext@, p);
                    assert(aead_sealed(key@, nonce@, q) == body@);
                }
                Ok(p)
            },
            None => {
                proof {
                    if exists|q: Seq<u8>| opens_to(key@, ciphertext@, q) {
                        let q = choose|q: Seq<u8>| opens_to(key@, ciphertext@, q);
                        assert(aead_sealed(key@, nonce@, q) == body@);
                    }
                }
                Err(CryptoError::DecryptionFailed)
            },
        }
    }
}

/// Whether `private` and `public` are the two halves of one valid key pair:
/// the private half holds a valid scalar and both describe its point.
pub open spec fn is_key_pair(private: Jwk, public: Jwk) -> bool {
    exists|s: Seq<u8>| is_curve_scalar(s) && private.scalar_spec() == Ok::<Seq<u8>, CryptoError>(s) && public.point_spec() == Ok::<Seq<u8>, CryptoError>(#[trigger] public_point(s))
}

/// A shared key allows both encryption and decryption.
proof fn lemma_shared_key_ops(k: Jwk, own: Jwk, secret: Seq<u8>)
    requires
        is_shared_key(k, own, secret),
    ensures
        k.allows("encrypt"@),
        k.allows("decrypt"@),
{
    assert(ops_view(k.key_ops@).len() == 2);
    assert(k.key_ops@.len() == 2);
    assert(ops_view(k.key_ops@)[0] == k.key_ops@[0]@);
    assert(ops_view(k.key_ops@)[1] == k.key_ops@[1]@);
}

/// Round trip through a tunnel: for valid key pairs `(a_private, a_public)`
/// and `(b_private, b_public)`, the key that `a_private` derives with
/// `b_public` and the key that `b_private` derives with `a_public` hold the
/// same secret, and what the first encrypts the second decrypts back to the
/// plaintext.
pub proof fn lemma_round_trip(a_private: Jwk, a_public: Jwk, b_private: Jwk, b_public: Jwk, a_shared: Jwk, b_shared: Jwk, p: Seq<u8>, c: Seq<u8>)
    requires
        is_key_pair(a_private, a_public),
        is_key_pair(b_private, b_public),
        derives(a_private, b_public, a_shared),
        derives(b_private, a_public, b_shared),
        encrypts_to(a_shared, p, c),
    ensures
        a_shared.coordinate_x@ == b_shared.coordinate_x@,
        decryption_spec(b_shared, c) == Ok::<Seq<u8>, CryptoError>(p),
        forall|q: Seq<u8>| q.len() <= MAX_PLAINTEXT ==> #[trigger] encryption_error(a_shared, q) is None && encryption_error(b_shared, q) is None,
{
    let sa = choose|s: Seq<u8>| is_curve_scalar(s) && a_private.scalar_spec() == Ok::<Seq<u8>, CryptoError>(s) && a_public.point_spec() == Ok::<Seq<u8>, CryptoError>(#[trigger] public_point(s));
    let sb = choose|s: Seq<u8>| is_curve_scalar(s) && b_private.scalar_spec() == Ok::<Seq<u8>, CryptoError>(s) && b_public.point_spec() == Ok::<Seq<u8>, CryptoError>(#[trigger] public_point(s));
    assert(a_shared.coordinate_x@ == base64_text(ecdh_secret(public_point(sa), sb)));
    assert(b_shared.coordinate_x@ == base64_text(ecdh_secret(public_point(sa), sb)));
    lemma_shared_key_ops(a_shared, a_private, ecdh_secret(b_public.point_spec()->Ok_0, sa));
    lemma_shared_key_ops(b_shared, b_private, ecdh_secret(a_public.point_spec()->Ok_0, sb));
    assert(symmetric_key_spec(a_shared) == symmetric_key_spec(b_shared));
}

/// Capabilities are enforced: encryption needs `encrypt`, decryption
/// `decrypt`, and a derivation `deriveKey` on both keys and a peer key
/// without a private scalar.
pub proof fn lemma_capabilities(k: Jwk, nonce: Seq<u8>, data: Seq<u8>, ciphertext: Seq<u8>, own: Jwk, peer: Jwk)
    ensures
        !k.allows("encrypt"@) ==> encryption_spec(k, nonce, data) == Err::<Seq<u8>, CryptoError>(CryptoError::MissingCapability),
        !k.allows("decrypt"@) ==> decryption_spec(k, ciphertext) is Err,
        !own.allows("deriveKey"@) ==> derivation_error(own, peer) is Some,
        !peer.allows("deriveKey"@) ==> derivation_error(own, peer) is Some,
        peer.is_private() ==> derivation_error(own, peer) == Some(CryptoError::PeerIsPrivate),
{
}

/// Tampering with what follows the nonce in a ciphertext that encrypting
/// `p` produced never gives `p` back: decryption fails, or returns the
/// plaintext whose authentic encryption the altered bytes are.
pub proof fn lemma_tampered_body(k: Jwk, p: Seq<u8>, c: Seq<u8>, forged: Seq<u8>)
    requires
        encrypts_to(k, p, c),
        forged.len() == c.len(),
        forged.subrange(0, NONCE_SIZE as int) == c.subrange(0, NONCE_SIZE as int),
        forged != c,
    ensures
        decryption_spec(k, forged) != Ok::<Seq<u8>, CryptoError>(p),
        decryption_spec(k, forged) matches Ok(q) ==> symmetric_key_spec(k) matches Ok(key) && opens_to(key, forged, q),
{
    let n = choose|n: Seq<u8>| n.len() == NONCE_SIZE && #[trigger] encryption_spec(k, n, p) == Ok::<Seq<u8>, CryptoError>(c);
    let key = symmetric_key_spec(k)->Ok_0;
    let m = NONCE_SIZE as int;
    assert(c == n + aead_sealed(key, n, p));
    assert(c.subrange(0, m) =~= n);
    assert(c.subrange(m, c.len() as int) =~= aead_sealed(key, n, p));
    if decryption_spec(k, forged) == Ok::<Seq<u8>, CryptoError>(p) {
        assert(opens_to(key, forged, p));
        assert(forged =~= forged.subrange(0, m) + forged.subrange(m, forged.len() as int));
        assert(forged =~= c);
    }
    if decryption_spec(k, forged) is Ok {
        let q = decryption_spec(k, forged)->Ok_0;
        assert(opens_to(key, forged, q));
    }
}

} // verus!
