use vstd::prelude::*;

verus! {

/// Failure of the decoding pipeline that turns a raw log record into a
/// typed event.
#[derive(Clone, Copy, Debug, PartialEq, Eq, Structural)]
pub enum DecodeError {
    /// The raw input is not valid base64 text.
    InvalidEncoding,
    /// The base64 payload is not a structurally valid log envelope.
    MalformedEnvelope,
    /// The envelope carries no topic, so no event discriminator exists.
    MissingTopic,
    /// The envelope's data field does not decode against the fixed
    /// single-string parameter schema.
    SchemaMismatch,
}

/// Failure of the persistence layer that loads and saves the aggregate.
#[derive(Clone, Copy, Debug, PartialEq, Eq, Structural)]
pub enum StateError {
    /// No aggregate has ever been persisted.
    NotInitialized,
    /// Persisted bytes exist but do not deserialize to an aggregate.
    CorruptState,
    /// The aggregate could not be serialized.
    SerializationFailure,
}

/// Failure of the input checks that guard ingestion.
#[derive(Clone, Copy, Debug, PartialEq, Eq, Structural)]
pub enum ValidationError {
    /// The caller-supplied correlation identifier is empty.
    EmptyCorrelationId,
    /// The raw event byte string is empty.
    EmptyEventData,
    /// The composite key derived for this event is already recorded.
    DuplicateKey,
}

/// Any failure an ingestion call can surface: a validation failure or a
/// decode failure. A failed call leaves the aggregate unchanged.
#[derive(Clone, Copy, Debug, PartialEq, Eq, Structural)]
pub enum EventError {
    Validation(ValidationError),
    Decode(DecodeError),
}

} // verus!
