//! The elliptic curve secp256k1, used through the `secp256k1` crate: key
//! pairs, point and scalar validation, and ECDH key agreement. Points are
//! handled as their SEC1 encodings and scalars as 32 big-endian bytes.
use rand::rngs::OsRng;
use vstd::prelude::*;

verus! {

/// Whether `bytes` parse as the SEC1 encoding of a point of the curve.
pub uninterp spec fn is_curve_point(bytes: Seq<u8>) -> bool;

/// Whether `bytes` are a valid secret scalar (32 bytes, nonzero and below
/// the group order).
pub uninterp spec fn is_curve_scalar(bytes: Seq<u8>) -> bool;

/// The uncompressed SEC1 encoding of the public point of a secret scalar.
pub uninterp spec fn public_point(scalar: Seq<u8>) -> Seq<u8>;

/// The shared point that ECDH gives for a peer's point and an own scalar:
/// its x and its y coordinate, 32 big-endian bytes each.
pub uninterp spec fn ecdh_point(point: Seq<u8>, scalar: Seq<u8>) -> Seq<u8>;

/// Relies on `secp256k1::PublicKey::from_slice`: whether it accepts `bytes`.
#[verifier::external_body]
pub(crate) fn parses_as_point(bytes: &[u8]) -> (r: bool)
    ensures
        r == is_curve_point(bytes@),
{
    secp256k1::PublicKey::from_slice(bytes).is_ok()
}

/// Relies on `secp256k1::SecretKey::from_slice`: whether it accepts `bytes`,
/// which it does only for 32 of them.
#[verifier::external_body]
pub(crate) fn parses_as_scalar(bytes: &[u8]) -> (r: bool)
    ensures
        r == is_curve_scalar(bytes@),
        r ==> bytes@.len() == 32,
{
    secp256k1::SecretKey::from_slice(bytes).is_ok()
}

/// Relies on `secp256k1::Secp256k1::generate_keypair` over the operating
/// system's random source: a fresh secret scalar and the uncompressed
/// encoding of its public point (`serialize_uncompressed`: 65 bytes, the
/// first of them 4).
#[verifier::external_body]
pub(crate) fn fresh_key_pair() -> (r: (Vec<u8>, Vec<u8>))
    ensures
        is_curve_scalar(r.0@),
        r.0@.len() == 32,
        r.1@ == public_point(r.0@),
        is_curve_point(r.1@),
        r.1@.len() == 65,
        r.1@[0] == 4,
{
    let (secret, public) = secp256k1::Secp256k1::new().generate_keypair(&mut OsRng);
    (secret.secret_bytes().to_vec(), public.serialize_uncompressed().to_vec())
}

/// Relies on `secp256k1::ecdh::shared_secret_point` (with the point and
/// scalar parsed as above): the 64 coordinate bytes of the shared point,
/// determined by its arguments, and the same on both sides of an agreement,
/// where each side combines its own scalar with the other's public point.
#[verifier::external_body]
pub(crate) fn agree(point: &[u8], scalar: &[u8]) -> (r: Option<Vec<u8>>)
    ensures
        (r is Some) == (is_curve_point(point@) && is_curve_scalar(scalar@)),
        r matches Some(s) ==> s@ == ecdh_point(point@, scalar@) && s@.len() == 64,
        r matches Some(s) ==> forall|peer: Seq<u8>| is_curve_scalar(peer) && point@ == public_point(peer) ==> s@ == ecdh_point(public_point(scalar@), peer),
{
    match (secp256k1::PublicKey::from_slice(point), secp256k1::SecretKey::from_slice(scalar)) {
        (Ok(p), Ok(s)) => Some(secp256k1::ecdh::shared_secret_point(&p, &s).to_vec()),
        _ => None,
    }
}

} // verus!
