use agentns_launch::unshare::{
    format_session_id, intent_tag_is_representable, kernel_has_agent_ns, validate_agent_session,
    SessionIdError, AGENT_SESSION_PATH, PR_SET_AGENT_INTENT_TAG, PR_SET_AGENT_NS,
};

#[test]
fn kernel_probe_matches_session_file() {
    assert_eq!(kernel_has_agent_ns(), std::path::Path::new(AGENT_SESSION_PATH).exists());
    assert_eq!(AGENT_SESSION_PATH, "/proc/self/agent_session");
}

#[test]
fn prctl_option_numbers() {
    assert_eq!(PR_SET_AGENT_NS, 0x41544E5A);
    assert_eq!(PR_SET_AGENT_INTENT_TAG, 0x41544E55);
}

#[test]
fn intent_tags_with_nul_are_skipped() {
    assert!(intent_tag_is_representable("/build"));
    assert!(intent_tag_is_representable(""));
    assert!(!intent_tag_is_representable("bad\0tag"));
}

#[test]
fn all_zero_inputs_give_an_id_the_read_back_rejects() {
    let id = format_session_id(0, 0, 0, 0);
    assert_eq!(validate_agent_session(&id), Err(SessionIdError::AllZero));
    let id = format_session_id(0, 0, 0, 1);
    assert_eq!(validate_agent_session(&id), Ok(id.clone()));
}
