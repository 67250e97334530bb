//! The envelope that carries ciphertext through the proxy: its bytes as
//! standard base64 under a `data` field, so that a JSON-speaking relay can
//! forward it without looking inside.
use crate::encoding::{base64_bytes, base64_text, decode_base64, encode_base64, encodable};
use vstd::prelude::*;

verus! {

/// A proxy-transparent carrier of bytes. A request or a response travels as
/// `RequestResponse`; a message of a persistent stream also names the
/// backend it is for.
#[derive(Clone, Debug, PartialEq, Eq)]
pub enum Envelope {
    RequestResponse { data: String },
    StreamMessage { data: String, backend_url: String },
}

/// Why an envelope could not be opened.
#[derive(Clone, Copy, Debug, PartialEq, Eq, Structural)]
pub enum EnvelopeError {
    /// The `data` field is not standard base64.
    MalformedData,
}

impl Envelope {
    /// The text of the `data` field.
    pub open spec fn data_spec(&self) -> Seq<char> {
        match self {
            Envelope::RequestResponse { data } => data@,
            Envelope::StreamMessage { data, .. } => data@,
        }
    }

    /// The bytes that the envelope carries, if its data is well formed.
    pub open spec fn payload_spec(&self) -> Option<Seq<u8>> {
        base64_bytes(self.data_spec())
    }

    /// The text of the `data` field.
    pub fn data(&self) -> (r: &String)
        ensures
            r@ == self.data_spec(),
    {
        match self {
            Envelope::RequestResponse { data } => data,
            Envelope::StreamMessage { data, .. } => data,
        }
    }
}

/// Wraps `bytes` for a request or a response. Decoding the envelope gives
/// `bytes` back, for every byte sequence, the empty one and non-UTF-8 ones
/// included.
pub fn encode(bytes: &[u8]) -> (r: Envelope)
    requires
        encodable(bytes@),
    ensures
        r matches Envelope::RequestResponse { data } && data@ == base64_text(bytes@),
        r.payload_spec() == Some(bytes@),
{
    Envelope::RequestResponse { data: encode_base64(bytes) }
}

/// Wraps `bytes` as a message of a persistent stream to `backend_url`.
/// Decoding the envelope gives `bytes` back.
pub fn encode_stream_message(bytes: &[u8], backend_url: String) -> (r: Envelope)
    requires
        encodable(bytes@),
    ensures
        r matches Envelope::StreamMessage { data, backend_url: b } && data@ == base64_text(bytes@) && b@ == backend_url@,
        r.payload_spec() == Some(bytes@),
{
    Envelope::StreamMessage { data: encode_base64(bytes), backend_url }
}

/// The bytes that `envelope` carries; an error where its data is not
/// standard base64.
pub fn decode(envelope: &Envelope) -> (r: Result<Vec<u8>, EnvelopeError>)
    ensures
        match r {
            Ok(b) => envelope.payload_spec() == Some(b@),
            Err(e) => envelope.payload_spec() is None && e == EnvelopeError::MalformedData,
        },
{
    match decode_base64(envelope.data().as_str()) {
        Some(b) => Ok(b),
        None => Err(EnvelopeError::MalformedData),
    }
}

} // verus!
