use kanaeru::auth::session::{Session, SessionId};
use kanaeru::auth::user_session_list::{UserIdIndex, UserSessions};
use kanaeru::error::Error;
use kanaeru::message::{MessageDe, MessageSer};
use kanaeru::redis::{decode_read, KeyValue};

#[test]
fn session_codec_round_trips() {
    let session = Session {
        id: SessionId(7),
        user_id: u128::MAX,
        terminated: true,
        last_refreshed: 123456789,
    };
    let bytes = session.to_bytes().unwrap();
    assert_eq!(bytes.len(), 41);
    let back = Session::from_bytes(&bytes).unwrap();
    assert_eq!(back, session);
}

#[test]
fn session_codec_rejects_malformed_payloads() {
    assert!(matches!(Session::from_bytes(&[0u8; 40]), Err(Error::DeserializeError(_))));
    assert!(matches!(Session::from_bytes(&[0u8; 42]), Err(Error::DeserializeError(_))));
}

#[test]
fn session_passes_through_the_read_helper() {
    let session = Session {
        id: SessionId(9),
        user_id: 11,
        terminated: false,
        last_refreshed: 5,
    };
    let got: Result<Option<Session>, Error> = decode_read(Some(session.to_bytes().unwrap()));
    assert_eq!(got.unwrap(), Some(session));
}

#[test]
fn session_key_spells_the_hyphenated_uuid() {
    let id = SessionId(uuid::Uuid::from_u128(0xDEADBEEF).as_u128());
    let key = <Session as KeyValue>::redis_key(id);
    let text = String::from_utf8(key.0).unwrap();
    assert_eq!(text, format!("session:{}", uuid::Uuid::from_u128(0xDEADBEEF).hyphenated()));
}

#[test]
fn user_sessions_codec_round_trips_field_wise() {
    let list = UserSessions {
        user_id: 42,
        session_ids: vec![1, 2, u128::MAX],
    };
    let bytes = list.to_bytes().unwrap();
    assert_eq!(bytes.len(), 24 + 16 * 3);
    let back = UserSessions::from_store_bytes(&bytes).unwrap();
    assert_eq!(back, list);
}

#[test]
fn empty_user_sessions_round_trip() {
    let list = UserSessions { user_id: 0, session_ids: Vec::new() };
    let bytes = list.to_bytes().unwrap();
    assert_eq!(bytes.len(), 24);
    assert_eq!(UserSessions::from_store_bytes(&bytes).unwrap(), list);
}

#[test]
fn user_sessions_decoder_rejects_bad_shapes() {
    assert!(matches!(
        UserSessions::from_store_bytes(&[0u8; 23]),
        Err(Error::DeserializeError(_))
    ));
    let mut bytes = UserSessions { user_id: 1, session_ids: vec![2] }.to_bytes().unwrap();
    bytes.push(0);
    assert!(matches!(
        UserSessions::from_store_bytes(&bytes),
        Err(Error::DeserializeError(_))
    ));
    let mut lying_count = UserSessions { user_id: 1, session_ids: vec![2] }.to_bytes().unwrap();
    lying_count[16] = 9;
    assert!(matches!(
        UserSessions::from_store_bytes(&lying_count),
        Err(Error::DeserializeError(_))
    ));
}

#[test]
fn user_sessions_key_and_index() {
    let user = uuid::Uuid::from_u128(3);
    let index: UserIdIndex = UserIdIndex::from(user.as_u128());
    let list = UserSessions { user_id: user.as_u128(), session_ids: vec![5] };
    assert_eq!(list.key(), index);
    let key = <UserSessions as KeyValue>::redis_key(index);
    let text = String::from_utf8(key.0).unwrap();
    assert_eq!(text, format!("user_sessions_list:{}", user.hyphenated()));
}

#[test]
fn key_value_new_takes_the_key() {
    let session = Session { id: SessionId(1), user_id: 2, terminated: false, last_refreshed: 3 };
    let renamed = <Session as KeyValue>::new(SessionId(9), session);
    assert_eq!(renamed.id, SessionId(9));
    assert_eq!(renamed.user_id, 2);
}
