use kanaeru::error::Error;
use kanaeru::message::{MessageDe, MessageSer, OrderCreated};
use kanaeru::redis::{decode_read, encode_write};

#[test]
fn order_encoding_is_exact_little_endian() {
    let msg = OrderCreated { order_id: 1, amount: 258 };
    let bytes = msg.to_bytes().unwrap();
    assert_eq!(
        bytes,
        vec![1, 0, 0, 0, 0, 0, 0, 0, 2, 1, 0, 0, 0, 0, 0, 0],
        "order id then amount, each eight bytes little-endian"
    );
}

#[test]
fn order_codec_round_trips() {
    let msg = OrderCreated { order_id: u64::MAX, amount: 0 };
    let bytes = msg.to_bytes().unwrap();
    let decoded = OrderCreated::from_bytes(&bytes).unwrap();
    assert_eq!(decoded, msg);
}

#[test]
fn short_payload_is_a_deserialize_failure() {
    match OrderCreated::from_bytes(&[0u8; 15]) {
        Err(Error::DeserializeError(_)) => {}
        _ => panic!("a malformed payload must fail with the deserialize kind"),
    }
    match OrderCreated::from_bytes(&[0u8; 17]) {
        Err(Error::DeserializeError(_)) => {}
        _ => panic!("a malformed payload must fail with the deserialize kind"),
    }
}

#[test]
fn decode_read_passes_absent_entries_through() {
    let got: Result<Option<OrderCreated>, Error> = decode_read(None);
    assert!(matches!(got, Ok(None)));
}

#[test]
fn decode_read_decodes_present_entries() {
    let msg = OrderCreated { order_id: 9, amount: 10 };
    let bytes = encode_write(&msg).unwrap();
    let got: Result<Option<OrderCreated>, Error> = decode_read(Some(bytes));
    assert_eq!(got.unwrap(), Some(msg));
}

#[test]
fn decode_read_rejects_malformed_entries() {
    let got: Result<Option<OrderCreated>, Error> = decode_read(Some(vec![9, 9]));
    assert!(matches!(got, Err(Error::DeserializeError(_))));
}
