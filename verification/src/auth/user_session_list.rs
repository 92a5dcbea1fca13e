//! The list of sessions a user currently holds, kept in the key-value
//! store under the user's id. The encoding is a count-prefixed run of
//! session ids; it is variable-length, so the decoder is its own function
//! with an exact field-wise contract.

use vstd::prelude::*;
use vstd::bytes::{
    lemma_auto_spec_u128_to_from_le_bytes, lemma_auto_spec_u64_to_from_le_bytes,
    spec_u128_from_le_bytes, spec_u128_to_le_bytes, spec_u64_from_le_bytes, spec_u64_to_le_bytes,
    u128_from_le_bytes, u128_to_le_bytes, u64_from_le_bytes, u64_to_le_bytes,
};
use vstd::slice::slice_subrange;
use vstd::string::StringExecFns;
use crate::auth::session::uuid_hyphenated_string;
use crate::error::Error;
use crate::message::MessageSer;
use crate::redis::{KeyValue, KeyValueWrite, RedisKey};

verus! {

/// The store index for a user's session list: the user id's 128-bit value.
#[derive(Debug, Clone, Copy, PartialEq, Eq, Structural)]
pub struct UserIdIndex(pub u128);

impl From<u128> for UserIdIndex {
    fn from(v: u128) -> (r: UserIdIndex) {
        UserIdIndex(v)
    }
}

impl vstd::std_specs::convert::FromSpecImpl<u128> for UserIdIndex {
    open spec fn obeys_from_spec() -> bool {
        true
    }

    open spec fn from_spec(v: u128) -> UserIdIndex {
        UserIdIndex(v)
    }
}

/// The sessions a user currently holds.
#[derive(Debug, Clone, PartialEq, Eq)]
pub struct UserSessions {
    pub user_id: u128,
    pub session_ids: Vec<u128>,
}

/// The bytes of the ids from position `i` on: sixteen little-endian bytes
/// each, in order.
pub open spec fn spec_ids_bytes_from(ids: Seq<u128>, i: int) -> Seq<u8>
    decreases ids.len() - i,
    when 0 <= i <= ids.len()
{
    if i >= ids.len() {
        Seq::empty()
    } else {
        spec_u128_to_le_bytes(ids[i]) + spec_ids_bytes_from(ids, i + 1)
    }
}

proof fn lemma_ids_bytes_len(ids: Seq<u128>, i: int)
    requires
        0 <= i <= ids.len(),
    ensures
        spec_ids_bytes_from(ids, i).len() == 16 * (ids.len() - i),
    decreases ids.len() - i,
{
    lemma_auto_spec_u128_to_from_le_bytes();
    if i < ids.len() {
        lemma_ids_bytes_len(ids, i + 1);
    }
}

proof fn lemma_ids_bytes_index(ids: Seq<u128>, i: int, k: int)
    requires
        0 <= i <= k < ids.len(),
    ensures
        spec_ids_bytes_from(ids, i).subrange(16 * (k - i), 16 * (k - i) + 16)
            =~= spec_u128_to_le_bytes(ids[k]),
    decreases k - i,
{
    lemma_auto_spec_u128_to_from_le_bytes();
    lemma_ids_bytes_len(ids, i + 1);
    if k == i {
    } else {
        lemma_ids_bytes_index(ids, i + 1, k);
        assert(spec_ids_bytes_from(ids, i).subrange(16 * (k - i), 16 * (k - i) + 16)
            =~= spec_ids_bytes_from(ids, i + 1).subrange(16 * (k - i - 1), 16 * (k - i - 1) + 16));
    }
}

impl MessageSer for UserSessions {
    open spec fn spec_encodable(&self) -> bool {
        true
    }

    /// The user id, then the number of sessions, then each session id, all
    /// little-endian.
    open spec fn spec_bytes(&self) -> Seq<u8> {
        spec_u128_to_le_bytes(self.user_id) + spec_u64_to_le_bytes(self.session_ids@.len() as u64)
            + spec_ids_bytes_from(self.session_ids@, 0)
    }

    fn to_bytes(&self) -> (r: Result<Vec<u8>, Error>) {
        let mut out = u128_to_le_bytes(self.user_id);
        let mut count = u64_to_le_bytes(self.session_ids.len() as u64);
        out.append(&mut count);
        let ghost header = out@;
        let n = self.session_ids.len();
        let mut i: usize = 0;
        while i < n
            invariant
                n == self.session_ids@.len(),
                0 <= i <= n,
                header + spec_ids_bytes_from(self.session_ids@, 0) == out@ + spec_ids_bytes_from(
                    self.session_ids@,
                    i as int,
                ),
            decreases n - i,
        {
            let ghost out_pre = out@;
            let mut chunk = u128_to_le_bytes(self.session_ids[i]);
            out.append(&mut chunk);
            proof {
                assert(spec_ids_bytes_from(self.session_ids@, i as int) =~= spec_u128_to_le_bytes(
                    self.session_ids@[i as int],
                ) + spec_ids_bytes_from(self.session_ids@, i as int + 1));
                assert(out_pre + spec_ids_bytes_from(self.session_ids@, i as int) =~= out@
                    + spec_ids_bytes_from(self.session_ids@, i as int + 1));
            }
            i = i + 1;
        }
        proof {
            assert(spec_ids_bytes_from(self.session_ids@, n as int) =~= Seq::<u8>::empty());
            assert(out@ + Seq::<u8>::empty() =~= out@);
            assert(header + spec_ids_bytes_from(self.session_ids@, 0) =~= out@);
            assert(out@ =~= self.spec_bytes());
        }
        Ok(out)
    }
}

/// Whether bytes are a well-formed session-list record: a header of
/// twenty-four bytes, a body of whole sixteen-byte ids, and a count that
/// matches the body.
pub open spec fn spec_store_well_formed(bytes: Seq<u8>) -> bool {
    &&& 24 <= bytes.len()
    &&& (bytes.len() - 24) % 16 == 0
    &&& spec_u64_from_le_bytes(bytes.subrange(16, 24)) == (((bytes.len() - 24) / 16) as u64)
}

impl UserSessions {
    /// Decode a session-list record: fails with a deserialize-class error
    /// exactly on malformed bytes; on success the user id and every
    /// session id are read back from their places.
    pub fn from_store_bytes(bytes: &[u8]) -> (r: Result<UserSessions, Error>)
        ensures
            r matches Ok(us) ==> {
                &&& spec_store_well_formed(bytes@)
                &&& us.user_id == spec_u128_from_le_bytes(bytes@.subrange(0, 16))
                &&& us.session_ids@.len() == (bytes@.len() - 24) / 16
                &&& forall|k: int|
                    0 <= k < us.session_ids@.len() ==> us.session_ids@[k]
                        == spec_u128_from_le_bytes(
                        #[trigger] bytes@.subrange(24 + 16 * k, 40 + 16 * k),
                    )
            },
            r matches Err(e) ==> !spec_store_well_formed(bytes@) && e matches
                Error::DeserializeError(_),
    {
        let len = bytes.len();
        if len < 24 {
            return Err(
                Error::DeserializeError(String::from_str("session list record is too short")),
            );
        }
        let user_id = u128_from_le_bytes(slice_subrange(bytes, 0, 16));
        let stored_count = u64_from_le_bytes(slice_subrange(bytes, 16, 24));
        let body = len - 24;
        if body % 16 != 0 || (body / 16) as u64 != stored_count {
            return Err(
                Error::DeserializeError(String::from_str("session list record has a bad shape")),
            );
        }
        let n = body / 16;
        let mut ids: Vec<u128> = Vec::new();
        let mut k: usize = 0;
        while k < n
            invariant
                len == bytes@.len(),
                24 <= len,
                n == (len - 24) / 16,
                (len - 24) % 16 == 0,
                0 <= k <= n,
                ids@.len() == k,
                forall|j: int|
                    0 <= j < k ==> ids@[j] == spec_u128_from_le_bytes(
                        #[trigger] bytes@.subrange(24 + 16 * j, 40 + 16 * j),
                    ),
            decreases n - k,
        {
            proof {
                assert(16 * (n as int) <= len - 24);
                assert(16 * (k as int) + 16 <= 16 * (n as int));
            }
            let start = 24 + 16 * k;
            let chunk = slice_subrange(bytes, start, start + 16);
            ids.push(u128_from_le_bytes(chunk));
            k = k + 1;
        }
        Ok(UserSessions { user_id, session_ids: ids })
    }
}

/// The session-list codec round-trips field-wise: the bytes of a record
/// are well formed, and reading them back restores the user id and exactly
/// the session ids, in order.
pub proof fn lemma_user_sessions_codec_round_trip(us: UserSessions)
    ensures
        spec_store_well_formed(us.spec_bytes()),
        spec_u128_from_le_bytes(us.spec_bytes().subrange(0, 16)) == us.user_id,
        forall|k: int|
            0 <= k < us.session_ids@.len() ==> spec_u128_from_le_bytes(
                #[trigger] us.spec_bytes().subrange(24 + 16 * k, 40 + 16 * k),
            ) == us.session_ids@[k],
{
    lemma_auto_spec_u128_to_from_le_bytes();
    lemma_auto_spec_u64_to_from_le_bytes();
    let ids = us.session_ids@;
    let n = ids.len() as int;
    let bytes = us.spec_bytes();
    lemma_ids_bytes_len(ids, 0);
    assert(bytes.len() == 24 + 16 * n);
    assert(bytes.subrange(0, 16) =~= spec_u128_to_le_bytes(us.user_id));
    assert(bytes.subrange(16, 24) =~= spec_u64_to_le_bytes(ids.len() as u64));
    assert((16 * n) / 16 == n) by (nonlinear_arith);
    assert((16 * n) % 16 == 0) by (nonlinear_arith);
    assert forall|k: int|
        0 <= k < us.session_ids@.len() implies spec_u128_from_le_bytes(
        #[trigger] us.spec_bytes().subrange(24 + 16 * k, 40 + 16 * k),
    ) == us.session_ids@[k] by {
        lemma_ids_bytes_index(ids, 0, k);
        assert(bytes.subrange(24 + 16 * k, 40 + 16 * k) =~= spec_ids_bytes_from(
            ids,
            0,
        ).subrange(16 * k, 16 * k + 16));
    }
}

impl KeyValue for UserSessions {
    type Key = UserIdIndex;

    type Value = UserSessions;

    fn key(&self) -> UserIdIndex {
        UserIdIndex(self.user_id)
    }

    fn value(&self) -> UserSessions {
        self.clone()
    }

    fn into_value(self) -> UserSessions {
        self
    }

    fn new(key: UserIdIndex, value: UserSessions) -> UserSessions {
        UserSessions { user_id: key.0, session_ids: value.session_ids }
    }

    /// The store key: `user_sessions_list:` followed by the hyphenated
    /// UUID.
    fn redis_key(key: UserIdIndex) -> RedisKey {
        let spelled = uuid_hyphenated_string(key.0);
        let full = String::from_str("user_sessions_list:").concat(spelled.as_str());
        RedisKey::from_string(full.as_str())
    }
}

impl KeyValueWrite for UserSessions {

}

} // verus!
