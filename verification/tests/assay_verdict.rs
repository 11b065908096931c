use agentns_launch::assay::{extract_verdict_type, is_live_from, mock_verdict_is_live, output_is_live};

#[test]
fn extract_verdict_live() {
    let json = r#"{"primitive":"agentns","verdict":{"type":"Live","detail":{}}}"#;
    assert_eq!(extract_verdict_type(json).as_deref(), Some("Live"));
}

#[test]
fn extract_verdict_flag_rejected() {
    let json = r#"{"primitive":"agentns","verdict":{"type":"FlagRejected","detail":{"flag":256}}}"#;
    assert_eq!(extract_verdict_type(json).as_deref(), Some("FlagRejected"));
}

#[test]
fn extract_verdict_inert() {
    let json = r#"{"primitive":"agentns","verdict":{"type":"Inert","detail":{}}}"#;
    assert_eq!(extract_verdict_type(json).as_deref(), Some("Inert"));
}

#[test]
fn extract_verdict_missing_returns_none() {
    let json = r#"{"no_type_here": true}"#;
    assert!(extract_verdict_type(json).is_none());
}

#[test]
fn extract_verdict_whitespace_after_colon() {
    let json = "{ \"verdict\": { \"type\" :  \n\t\"NsCreated\" } }";
    assert_eq!(extract_verdict_type(json).as_deref(), Some("NsCreated"));
}

#[test]
fn extract_verdict_unquoted_value_is_none() {
    assert!(extract_verdict_type(r#"{"type": 3}"#).is_none());
}

#[test]
fn extract_verdict_unterminated_value_is_none() {
    assert!(extract_verdict_type(r#"{"type": "Live"#).is_none());
}

#[test]
fn extract_verdict_no_colon_is_none() {
    assert!(extract_verdict_type(r#"{"type" "Live"}"#).is_none());
}

#[test]
fn extract_verdict_first_type_key_wins() {
    let json = r#"{"type":"First","verdict":{"type":"Second"}}"#;
    assert_eq!(extract_verdict_type(json).as_deref(), Some("First"));
}

#[test]
fn extract_verdict_empty_value() {
    assert_eq!(extract_verdict_type(r#"{"type":""}"#).as_deref(), Some(""));
}

#[test]
fn extract_verdict_non_ascii_value() {
    assert_eq!(extract_verdict_type("{\"type\":\"Lïve\u{2603}\"}").as_deref(), Some("Lïve\u{2603}"));
}

#[test]
fn mock_live_returns_true() {
    assert!(mock_verdict_is_live("Live"), "mock Live must return true");
}

#[test]
fn mock_flag_rejected_returns_false() {
    assert!(!mock_verdict_is_live("FlagRejected"), "mock FlagRejected must return false");
}

#[test]
fn mock_inert_returns_false() {
    assert!(!mock_verdict_is_live("Inert"), "mock Inert must return false");
}

#[test]
fn mock_empty_returns_false() {
    assert!(!mock_verdict_is_live(""), "mock empty must return false");
}

#[test]
fn mock_verdict_is_trimmed() {
    assert!(mock_verdict_is_live("  Live\n"));
    assert!(!mock_verdict_is_live("live"));
    assert!(!mock_verdict_is_live("Lives"));
}

#[test]
fn assay_is_live_mock_live() {
    assert!(mock_verdict_is_live("Live"));
}

#[test]
fn assay_is_live_mock_non_live() {
    assert!(!mock_verdict_is_live("FlagRejected"));
}

#[test]
fn assay_output_live_and_not_live() {
    assert!(output_is_live(r#"{"primitive":"agentns","verdict":{"type":"Live","detail":{}}}"#));
    assert!(!output_is_live(r#"{"primitive":"agentns","verdict":{"type":"Inert","detail":{}}}"#));
    assert!(!output_is_live(r#"{"primitive":"agentns","verdict":{"type":"Lively"}}"#));
    assert!(!output_is_live("not json at all"));
}

#[test]
fn gate_mock_verdict_decides_alone() {
    let live_json = r#"{"verdict":{"type":"Live"}}"#;
    assert!(is_live_from(Some("Live"), None));
    assert!(!is_live_from(Some("Inert"), Some((true, live_json))));
    assert!(is_live_from(None, Some((true, live_json))));
    assert!(!is_live_from(None, Some((true, r#"{"verdict":{"type":"FlagRejected"}}"#))));
    assert!(!is_live_from(None, None));
}

#[test]
fn gate_requires_assay_exit_zero() {
    let live_json = r#"{"verdict":{"type":"Live"}}"#;
    assert!(!is_live_from(None, Some((false, live_json))));
}
