//! Login sessions kept in the key-value store. Identifiers are carried as
//! the UUID's 128-bit value, so the byte codec and the store key are
//! functions the crate can state exactly.

use vstd::prelude::*;
use vstd::bytes::{
    lemma_auto_spec_u128_to_from_le_bytes, lemma_auto_spec_u64_to_from_le_bytes,
    spec_u128_from_le_bytes, spec_u128_to_le_bytes, spec_u64_from_le_bytes, spec_u64_to_le_bytes,
    u128_from_le_bytes, u128_to_le_bytes, u64_from_le_bytes, u64_to_le_bytes,
};
use vstd::slice::{slice_index_get, slice_subrange};
use vstd::string::StringExecFns;
use crate::error::Error;
use crate::message::{MessageDe, MessageSer};
use crate::redis::{KeyValue, KeyValueRead, KeyValueWrite, RedisKey};

verus! {

/// A session identifier: the 128-bit value of its UUID.
#[derive(Debug, Clone, Copy, PartialEq, Eq, Structural)]
pub struct SessionId(pub u128);

/// A login session.
#[derive(Debug, Clone, Copy, PartialEq, Eq, Structural)]
pub struct Session {
    pub id: SessionId,
    pub user_id: u128,
    pub terminated: bool,
    pub last_refreshed: u64,
}

/// The hyphenated spelling of a UUID value, a function of the value alone.
pub uninterp spec fn uuid_hyphenated(v: u128) -> Seq<char>;

/// Relies on Uuid::from_u128 and the hyphenated display: the canonical
/// 36-character spelling of the value's UUID.
#[verifier::external_body]
pub(crate) fn uuid_hyphenated_string(v: u128) -> (r: String)
    ensures
        r@ == uuid_hyphenated(v),
        r@.len() == 36,
{
    uuid::Uuid::from_u128(v).hyphenated().to_string()
}

impl MessageSer for Session {
    open spec fn spec_encodable(&self) -> bool {
        true
    }

    /// Forty-one bytes: the session id, the user id, the terminated flag,
    /// then the refresh stamp, integers little-endian.
    open spec fn spec_bytes(&self) -> Seq<u8> {
        spec_u128_to_le_bytes(self.id.0) + spec_u128_to_le_bytes(self.user_id) + seq![
            if self.terminated {
                1u8
            } else {
                0u8
            },
        ] + spec_u64_to_le_bytes(self.last_refreshed)
    }

    fn to_bytes(&self) -> (r: Result<Vec<u8>, Error>) {
        let mut out = u128_to_le_bytes(self.id.0);
        let mut user = u128_to_le_bytes(self.user_id);
        out.append(&mut user);
        out.push(
            if self.terminated {
                1u8
            } else {
                0u8
            },
        );
        let mut stamp = u64_to_le_bytes(self.last_refreshed);
        out.append(&mut stamp);
        proof {
            assert(out@ =~= self.spec_bytes());
        }
        Ok(out)
    }
}

impl MessageDe for Session {
    open spec fn spec_decode(bytes: Seq<u8>) -> Option<Session> {
        if bytes.len() == 41 {
            Some(
                Session {
                    id: SessionId(spec_u128_from_le_bytes(bytes.subrange(0, 16))),
                    user_id: spec_u128_from_le_bytes(bytes.subrange(16, 32)),
                    terminated: bytes[32] != 0,
                    last_refreshed: spec_u64_from_le_bytes(bytes.subrange(33, 41)),
                },
            )
        } else {
            None
        }
    }

    fn from_bytes(bytes: &[u8]) -> (r: Result<Session, Error>) {
        if bytes.len() == 41 {
            let id = u128_from_le_bytes(slice_subrange(bytes, 0, 16));
            let user_id = u128_from_le_bytes(slice_subrange(bytes, 16, 32));
            let flag = *slice_index_get(bytes, 32);
            let last_refreshed = u64_from_le_bytes(slice_subrange(bytes, 33, 41));
            Ok(Session { id: SessionId(id), user_id, terminated: flag != 0, last_refreshed })
        } else {
            Err(Error::DeserializeError(String::from_str("payload is not a session record")))
        }
    }
}

/// The session codec round-trips: decoding an encoded session yields the
/// identical record.
pub proof fn lemma_session_codec_round_trip(s: Session)
    ensures
        Session::spec_decode(s.spec_bytes()) == Some(s),
{
    lemma_auto_spec_u128_to_from_le_bytes();
    lemma_auto_spec_u64_to_from_le_bytes();
    let bytes = s.spec_bytes();
    assert(bytes.subrange(0, 16) =~= spec_u128_to_le_bytes(s.id.0));
    assert(bytes.subrange(16, 32) =~= spec_u128_to_le_bytes(s.user_id));
    assert(bytes[32] == if s.terminated { 1u8 } else { 0u8 });
    assert(bytes.subrange(33, 41) =~= spec_u64_to_le_bytes(s.last_refreshed));
}

impl KeyValue for Session {
    type Key = SessionId;

    type Value = Session;

    fn key(&self) -> SessionId {
        self.id
    }

    fn value(&self) -> Session {
        *self
    }

    fn into_value(self) -> Session {
        self
    }

    fn new(key: SessionId, value: Session) -> Session {
        Session { id: key, ..value }
    }

    /// The store key: `session:` followed by the hyphenated UUID.
    fn redis_key(key: SessionId) -> RedisKey {
        let spelled = uuid_hyphenated_string(key.0);
        let full = String::from_str("session:").concat(spelled.as_str());
        RedisKey::from_string(full.as_str())
    }
}

impl KeyValueRead for Session {

}

impl KeyValueWrite for Session {

}

} // verus!
