use kanaeru::error::{Error, StatusCode};

#[test]
fn infrastructure_failures_map_to_internal_without_detail() {
    for e in [
        Error::AmqpError(String::from("broken pipe")),
        Error::RedisError(String::from("timeout")),
        Error::DatabaseError(String::from("deadlock")),
        Error::Io(String::from("refused")),
        Error::BusinessPanic(String::from("invariant broken")),
    ] {
        let s = e.to_status();
        assert_eq!(s.code, StatusCode::Internal);
        assert_eq!(s.message, "Internal server error", "causes are never echoed to callers");
    }
}

#[test]
fn codec_failures_map_to_invalid_argument_with_detail() {
    let s = Error::SerializeError(String::from("bad field")).to_status();
    assert_eq!(s.code, StatusCode::InvalidArgument);
    assert_eq!(s.message, "bad field");
    let s = Error::DeserializeError(String::from("trailing bytes")).to_status();
    assert_eq!(s.code, StatusCode::InvalidArgument);
    assert_eq!(s.message, "trailing bytes");
}

#[test]
fn terminal_kinds_map_one_to_one() {
    let s = Error::PermissionsDenied.to_status();
    assert_eq!(s.code, StatusCode::PermissionDenied);
    assert_eq!(s.message, "Permission denied");
    let s = Error::InvalidInput.to_status();
    assert_eq!(s.code, StatusCode::InvalidArgument);
    assert_eq!(s.message, "Invalid input");
    let s = Error::NotFound.to_status();
    assert_eq!(s.code, StatusCode::NotFound);
    assert_eq!(s.message, "Not found");
}

#[test]
fn message_carries_the_diagnostic_text() {
    assert_eq!(Error::DatabaseError(String::from("deadlock")).message(), "deadlock");
    assert_eq!(Error::PermissionsDenied.message(), "Permission is not enough");
    assert_eq!(Error::InvalidInput.message(), "Invalid input");
    assert_eq!(
        Error::NotFound.message(),
        "Trying to access a resource that does not exist"
    );
}
