//! Helpers for key-value pairs kept in the key-value store. The store
//! round-trips themselves are a driver's; this module holds what can be
//! computed and proved around them: key construction and the encode and
//! decode halves of a write and a read.

use vstd::prelude::*;
use vstd::string::{StrSliceExecFns, StringSliceAdditionalSpecFns};
use vstd::utf8::encode_utf8;
use crate::error::Error;
use crate::message::{MessageDe, MessageSer};

verus! {

/// Keys are derived from UUIDs among other things; the UUID value itself
/// is opaque to this crate.
#[verifier::external_type_specification]
#[verifier::external_body]
pub struct ExUuid(uuid::Uuid);

/// Relies on the `Clone` of the UUID value, which is plain `Copy` data:
/// the clone is the same value.
pub assume_specification[ <uuid::Uuid as Clone>::clone ](v: &uuid::Uuid) -> (r: uuid::Uuid)
    ensures
        r == *v,
;

/// A key in the key-value store: plain bytes.
#[derive(Debug, Clone, PartialEq, Eq)]
pub struct RedisKey(pub Vec<u8>);

/// Relies on uuid::Uuid::as_bytes: the sixteen bytes of the UUID.
#[verifier::external_body]
fn uuid_bytes(v: &uuid::Uuid) -> (r: Vec<u8>)
    ensures
        r@.len() == 16,
{
    v.as_bytes().to_vec()
}

impl RedisKey {
    /// The key spelled by a string: its UTF-8 bytes.
    pub fn from_string(v: &str) -> (r: RedisKey)
        ensures
            r.0@ == encode_utf8(v@),
    {
        RedisKey(v.as_bytes_vec())
    }

    /// The key holding these bytes themselves.
    pub fn from_bytes(v: Vec<u8>) -> (r: RedisKey)
        ensures
            r.0@ == v@,
    {
        RedisKey(v)
    }

    /// The key spelled by a UUID: its sixteen bytes.
    pub fn from_uuid(v: &uuid::Uuid) -> (r: RedisKey)
        ensures
            r.0@.len() == 16,
    {
        RedisKey(uuid_bytes(v))
    }
}

/// Abstraction for key-value pairs stored in the key-value store.
pub trait KeyValue: Sized {
    /// Key type.
    type Key;

    /// Value type.
    type Value;

    /// Get the key from the pair.
    fn key(&self) -> Self::Key;

    /// Get the value by cloning.
    fn value(&self) -> Self::Value;

    /// Consume the pair and return the value.
    fn into_value(self) -> Self::Value;

    /// Create a new pair from a key and a value.
    fn new(key: Self::Key, value: Self::Value) -> Self;

    /// How a key is spelled in the store.
    fn redis_key(key: Self::Key) -> RedisKey;
}

/// Marker for pairs whose value can be read back from the store.
pub trait KeyValueRead: KeyValue where Self::Value: MessageDe {

}

/// Marker for pairs whose value can be written to the store.
pub trait KeyValueWrite: KeyValue where Self::Value: MessageSer {

}

/// The compute half of a read: what the store returned for a key, decoded.
/// An absent entry stays absent; present bytes decode to the value, or fail
/// with a deserialize-class error exactly when the payload is malformed.
pub fn decode_read<V: MessageDe>(data: Option<Vec<u8>>) -> (r: Result<Option<V>, Error>)
    ensures
        data is None ==> (r matches Ok(v) && v is None),
        data matches Some(bytes) ==> match V::spec_decode(bytes@) {
            Some(m) => r matches Ok(ov) && ov == Some(m),
            None => r matches Err(e) && e matches Error::DeserializeError(_),
        },
{
    match data {
        None => Ok(None),
        Some(bytes) => match V::from_bytes(bytes.as_slice()) {
            Ok(v) => Ok(Some(v)),
            Err(e) => Err(e),
        },
    }
}

/// The compute half of a write: the bytes handed to the store for a value.
/// Fails with a serialize-class error exactly on values that have no
/// encoding.
pub fn encode_write<V: MessageSer>(value: &V) -> (r: Result<Vec<u8>, Error>)
    ensures
        value.spec_encodable() ==> (r matches Ok(b) && b@ == value.spec_bytes()),
        !value.spec_encodable() ==> (r matches Err(e) && e matches Error::SerializeError(_)),
{
    value.to_bytes()
}

} // verus!
