//! Standard base64 (RFC 4648 alphabet, with padding), as the tunnel uses it
//! for key coordinates, key exports and envelopes.
use base64::Engine;
use vstd::prelude::*;

verus! {

/// The text that standard base64 with padding gives for `bytes`.
pub uninterp spec fn base64_text(bytes: Seq<u8>) -> Seq<char>;

/// The bytes that `text` decodes to under standard base64 with canonical
/// padding, or `None` where `text` is not such an encoding.
pub uninterp spec fn base64_bytes(text: Seq<char>) -> Option<Seq<u8>>;

/// The longest input that the encoder takes: its output length, about four
/// thirds of the input, must stay an allocatable size.
pub open spec fn encodable(bytes: Seq<u8>) -> bool {
    bytes.len() <= isize::MAX / 2
}

/// Relies on `base64::Engine::encode` of the `STANDARD` engine; its decoder
/// gives the input back from the output.
#[verifier::external_body]
fn standard_encode(bytes: &[u8]) -> (r: String)
    requires
        encodable(bytes@),
    ensures
        r@ == base64_text(bytes@),
        base64_bytes(r@) == Some(bytes@),
        r@.len() == 4 * ((bytes@.len() + 2) / 3),
{
    base64::engine::general_purpose::STANDARD.encode(bytes)
}

/// Relies on `base64::Engine::decode` of the `STANDARD` engine, which rejects
/// anything but a canonical encoding.
#[verifier::external_body]
fn standard_decode(text: &str) -> (r: Option<Vec<u8>>)
    ensures
        r matches Some(b) ==> base64_bytes(text@) == Some(b@),
        r is None ==> base64_bytes(text@) is None,
{
    base64::engine::general_purpose::STANDARD.decode(text).ok()
}

/// Encodes `bytes` as standard base64 with padding.
pub fn encode_base64(bytes: &[u8]) -> (r: String)
    requires
        encodable(bytes@),
    ensures
        r@ == base64_text(bytes@),
        base64_bytes(r@) == Some(bytes@),
        r@.len() == 4 * ((bytes@.len() + 2) / 3),
{
    standard_encode(bytes)
}

/// Decodes standard base64 with canonical padding; `None` on any other text.
pub fn decode_base64(text: &str) -> (r: Option<Vec<u8>>)
    ensures
        match r {
            Some(b) => base64_bytes(text@) == Some(b@),
            None => base64_bytes(text@) is None,
        },
{
    standard_decode(text)
}

} // verus!
