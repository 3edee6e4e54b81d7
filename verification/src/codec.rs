use vstd::prelude::*;

use crate::errors::DecodeError;

verus! {

/// The bytes that a well-formed base64 text decodes to, if any. Base64
/// decoding is a function of the input bytes alone.
pub uninterp spec fn b64_decode_of(raw: Seq<u8>) -> Option<Seq<u8>>;

/// The log envelope that a byte string describes, if any: the textual
/// form of each topic, and the data bytes. The envelope is a function of
/// the input bytes alone.
pub uninterp spec fn json_envelope_of(bytes: Seq<u8>) -> Option<(Seq<Seq<char>>, Seq<u8>)>;

/// The single string parameter that a byte string ABI-decodes to under
/// the fixed one-string schema, if any; a function of the data bytes
/// alone.
pub uninterp spec fn abi_string_of(data: Seq<u8>) -> Option<Seq<char>>;

/// A structured log record: the textual form of each topic, and the
/// ABI-encoded data field. The first topic is the event discriminator.
pub struct LogEnvelope {
    pub topics: Vec<String>,
    pub data: Vec<u8>,
}

/// The view of an envelope's topic list.
pub open spec fn topics_view(topics: Seq<String>) -> Seq<Seq<char>> {
    Seq::new(topics.len(), |i: int| topics[i]@)
}

/// A fully decoded event: the discriminator taken from the first topic,
/// and the decoded text payload.
pub struct DecodedEvent {
    pub event_id: String,
    pub message: String,
}

/// Relies on base64::decode: it succeeds exactly on well-formed base64
/// text, and the decoded bytes depend on the input bytes alone.
#[verifier::external_body]
fn base64_decode(raw: &Vec<u8>) -> (r: Option<Vec<u8>>)
    ensures
        match r {
            Some(v) => b64_decode_of(raw@) == Some(v@),
            None => b64_decode_of(raw@) is None,
        },
{
    base64::decode(raw).ok()
}

#[verifier::external_type_specification]
#[verifier::external_body]
pub struct ExSerdeJsonError(serde_json::Error);

/// Relies on serde_json::from_slice for ethers' Log shape, which
/// succeeds exactly on JSON carrying that shape, and on the textual form
/// of a topic (H256's Display). Both depend on the input bytes alone.
#[verifier::external_body]
fn parse_log_envelope(bytes: &Vec<u8>) -> (r: Result<LogEnvelope, serde_json::Error>)
    ensures
        match r {
            Ok(env) => json_envelope_of(bytes@) == Some((topics_view(env.topics@), env.data@)),
            Err(_) => json_envelope_of(bytes@) is None,
        },
{
    let log: ethers::types::Log = serde_json::from_slice(bytes)?;
    let mut topics = Vec::new();
    for topic in log.topics.iter() {
        topics.push(topic.to_string());
    }
    Ok(LogEnvelope { topics, data: log.data.0.to_vec() })
}

/// Relies on ethers::abi::decode under the fixed single-string schema,
/// and on Token::into_string for the one token it yields on success. The
/// result depends on the data bytes alone.
#[verifier::external_body]
fn abi_decode_single_string(data: &Vec<u8>) -> (r: Option<String>)
    ensures
        match r {
            Some(s) => abi_string_of(data@) == Some(s@),
            None => abi_string_of(data@) is None,
        },
{
    match ethers::abi::decode(&[ethers::abi::ParamType::String], data) {
        Ok(tokens) => match tokens.into_iter().next() {
            Some(ethers::abi::Token::String(s)) => Some(s),
            _ => None,
        },
        Err(_) => None,
    }
}

/// What decoding a raw log record yields: the discriminator text and the
/// message text, or the first decode failure along the pipeline.
pub open spec fn spec_decode_event(raw: Seq<u8>) -> Result<(Seq<char>, Seq<char>), DecodeError> {
    match b64_decode_of(raw) {
        None => Err(DecodeError::InvalidEncoding),
        Some(bytes) => match json_envelope_of(bytes) {
            None => Err(DecodeError::MalformedEnvelope),
            Some(env) => if env.0.len() == 0 {
                Err(DecodeError::MissingTopic)
            } else {
                match abi_string_of(env.1) {
                    None => Err(DecodeError::SchemaMismatch),
                    Some(message) => Ok((env.0[0], message)),
                }
            },
        },
    }
}

/// Decode a raw log record: base64, then the JSON envelope, then the
/// discriminator from the first topic, then the ABI data field under the
/// single-string schema. No partial decode is accepted.
pub fn decode_event(raw: &Vec<u8>) -> (r: Result<DecodedEvent, DecodeError>)
    ensures
        match r {
            Ok(d) => spec_decode_event(raw@) == Ok::<(Seq<char>, Seq<char>), DecodeError>(
                (d.event_id@, d.message@),
            ),
            Err(e) => spec_decode_event(raw@) == Err::<(Seq<char>, Seq<char>), DecodeError>(e),
        },
{
    let bytes = match base64_decode(raw) {
        Some(v) => v,
        None => {
            return Err(DecodeError::InvalidEncoding);
        },
    };
    let envelope = match parse_log_envelope(&bytes) {
        Ok(env) => env,
        Err(_) => {
            return Err(DecodeError::MalformedEnvelope);
        },
    };
    if envelope.topics.len() == 0 {
        return Err(DecodeError::MissingTopic);
    }
    let event_id = envelope.topics[0].clone();
    let message = match abi_decode_single_string(&envelope.data) {
        Some(s) => s,
        None => {
            return Err(DecodeError::SchemaMismatch);
        },
    };
    assert(topics_view(envelope.topics@)[0] == event_id@);
    Ok(DecodedEvent { event_id, message })
}

} // verus!
