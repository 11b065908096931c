use agentns_launch::unshare::{validate_agent_session, SessionIdError};

#[test]
fn accepts_valid_32_hex_nonzero() {
    let r = validate_agent_session("deadbeef0123456789abcdef01234567\n");
    assert_eq!(r.unwrap(), "deadbeef0123456789abcdef01234567", "valid id must be returned unchanged");
}

#[test]
fn accepts_valid_id_without_newline() {
    let r = validate_agent_session("deadbeef0123456789abcdef01234567");
    assert_eq!(r.unwrap(), "deadbeef0123456789abcdef01234567");
}

#[test]
fn rejects_all_zeros() {
    let r = validate_agent_session("00000000000000000000000000000000\n");
    assert!(r.is_err(), "all-zero id must be rejected");
    let msg = r.unwrap_err().to_string();
    assert!(msg.contains("all-zero"), "error must mention all-zero: {msg}");
}

#[test]
fn rejects_too_short() {
    let r = validate_agent_session("deadbeef\n");
    assert!(r.is_err(), "short id must be rejected");
    let msg = r.unwrap_err().to_string();
    assert!(msg.contains("expected 32 hex"), "error must mention length: {msg}");
}

#[test]
fn rejects_too_long() {
    let r = validate_agent_session("deadbeef0123456789abcdef0123456700\n");
    assert!(r.is_err(), "long id must be rejected");
}

#[test]
fn rejects_non_hex_chars() {
    let r = validate_agent_session("deadbeef0123456789abcdefghijklmn\n");
    assert!(r.is_err(), "non-hex id must be rejected");
    let msg = r.unwrap_err().to_string();
    assert!(msg.contains("non-hex") || msg.contains("hex"), "error must mention hex: {msg}");
}

#[test]
fn rejects_uppercase_hex() {
    let r = validate_agent_session("DEADBEEF0123456789ABCDEF01234567\n");
    assert!(r.is_err(), "uppercase hex must be rejected (kernel writes lowercase)");
}

#[test]
fn read_back_error_variants_and_lengths() {
    assert_eq!(validate_agent_session("deadbeef\n"), Err(SessionIdError::WrongLength(8)));
    assert_eq!(validate_agent_session(""), Err(SessionIdError::WrongLength(0)));
    assert_eq!(
        validate_agent_session("00000000000000000000000000000000"),
        Err(SessionIdError::AllZero)
    );
    assert_eq!(
        validate_agent_session("DEADBEEF0123456789ABCDEF01234567"),
        Err(SessionIdError::NotLowercaseHex)
    );
    // 31 hex digits and one two-byte character: 33 bytes.
    assert_eq!(
        validate_agent_session("deadbeef0123456789abcdef0123456\u{e9}"),
        Err(SessionIdError::WrongLength(33))
    );
    // 30 hex digits and one two-byte character: 32 bytes, but not hex.
    assert_eq!(
        validate_agent_session("deadbeef0123456789abcdef012345\u{e9}"),
        Err(SessionIdError::NotLowercaseHex)
    );
    assert_eq!(
        validate_agent_session(" \t00000000000000000000000000000001\r\n"),
        Ok("00000000000000000000000000000001".to_string())
    );
}

#[test]
fn read_back_messages() {
    assert_eq!(
        SessionIdError::WrongLength(8).to_string(),
        "agent_session: expected 32 hex chars, got 8"
    );
    assert_eq!(
        SessionIdError::WrongLength(1234).to_string(),
        "agent_session: expected 32 hex chars, got 1234"
    );
    assert!(SessionIdError::NotLowercaseHex.to_string().contains("non-lowercase-hex"));
}

#[test]
fn rejected_ids_are_invalid_data() {
    let e = validate_agent_session("deadbeef\n").unwrap_err();
    assert_eq!(e.io_kind(), agentns_launch::unshare::IoKind::InvalidData);
    let io_err: std::io::Error = e.into();
    assert_eq!(io_err.kind(), std::io::ErrorKind::InvalidData);
    assert_eq!(io_err.to_string(), "agent_session: expected 32 hex chars, got 8");
}
