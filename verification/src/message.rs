//! The serialization contract: messages support a deterministic byte
//! encoding and a matching decoding that fails with a distinguishable
//! malformed-payload condition. [`OrderCreated`] is the crate's own message
//! type, with its codec proved to round-trip.

use vstd::prelude::*;
use vstd::bytes::{
    lemma_auto_spec_u64_to_from_le_bytes, spec_u64_from_le_bytes, spec_u64_to_le_bytes,
    u64_from_le_bytes, u64_to_le_bytes,
};
use vstd::slice::slice_subrange;
use vstd::string::StringExecFns;
use crate::error::Error;

verus! {

/// A message that can be encoded to bytes.
pub trait MessageSer: Sized {
    /// Whether this value has an encoding at all.
    spec fn spec_encodable(&self) -> bool;

    /// The deterministic byte encoding of this value.
    spec fn spec_bytes(&self) -> Seq<u8>;

    /// Encode; fails with a serialize-class error exactly on values that
    /// have no encoding.
    fn to_bytes(&self) -> (r: Result<Vec<u8>, Error>)
        ensures
            self.spec_encodable() ==> (r matches Ok(b) && b@ == self.spec_bytes()),
            !self.spec_encodable() ==> (r matches Err(e) && e matches Error::SerializeError(_)),
    ;
}

/// A message that can be decoded from bytes.
pub trait MessageDe: Sized {
    /// The value a payload decodes to; `None` on a malformed payload.
    spec fn spec_decode(bytes: Seq<u8>) -> Option<Self>;

    /// Decode; fails with a deserialize-class error exactly on malformed
    /// payloads.
    fn from_bytes(bytes: &[u8]) -> (r: Result<Self, Error>)
        ensures
            Self::spec_decode(bytes@) matches Some(m) ==> (r matches Ok(m2) && m2 == m),
            Self::spec_decode(bytes@) is None ==> (r matches Err(e) && e matches
                Error::DeserializeError(_)),
    ;
}

/// An order-created event, the crate's concrete message type.
#[derive(Debug, Clone, Copy, PartialEq, Eq, Structural)]
pub struct OrderCreated {
    pub order_id: u64,
    pub amount: u64,
}

impl MessageSer for OrderCreated {
    open spec fn spec_encodable(&self) -> bool {
        true
    }

    /// Sixteen bytes: the order id then the amount, each little-endian.
    open spec fn spec_bytes(&self) -> Seq<u8> {
        spec_u64_to_le_bytes(self.order_id) + spec_u64_to_le_bytes(self.amount)
    }

    fn to_bytes(&self) -> (r: Result<Vec<u8>, Error>) {
        let mut out = u64_to_le_bytes(self.order_id);
        let mut amount_bytes = u64_to_le_bytes(self.amount);
        out.append(&mut amount_bytes);
        Ok(out)
    }
}

impl MessageDe for OrderCreated {
    open spec fn spec_decode(bytes: Seq<u8>) -> Option<OrderCreated> {
        if bytes.len() == 16 {
            Some(
                OrderCreated {
                    order_id: spec_u64_from_le_bytes(bytes.subrange(0, 8)),
                    amount: spec_u64_from_le_bytes(bytes.subrange(8, 16)),
                },
            )
        } else {
            None
        }
    }

    fn from_bytes(bytes: &[u8]) -> (r: Result<OrderCreated, Error>) {
        if bytes.len() == 16 {
            let order_id = u64_from_le_bytes(slice_subrange(bytes, 0, 8));
            let amount = u64_from_le_bytes(slice_subrange(bytes, 8, 16));
            Ok(OrderCreated { order_id, amount })
        } else {
            Err(Error::DeserializeError(String::from_str("payload is not an order event")))
        }
    }
}

/// The codec round-trips: decoding an encoded order yields the identical
/// structured message.
pub proof fn lemma_order_codec_round_trip(m: OrderCreated)
    ensures
        OrderCreated::spec_decode(m.spec_bytes()) == Some(m),
{
    lemma_auto_spec_u64_to_from_le_bytes();
    let bytes = m.spec_bytes();
    assert(bytes.subrange(0, 8) =~= spec_u64_to_le_bytes(m.order_id));
    assert(bytes.subrange(8, 16) =~= spec_u64_to_le_bytes(m.amount));
}

} // verus!
