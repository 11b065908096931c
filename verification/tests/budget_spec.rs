use agentns_launch::budget::{parse, BudgetKey, BudgetLimits, ParseError};

fn limits(wall: Option<u64>, syscalls: Option<u64>, write_bytes: Option<u64>, fork: Option<u64>) -> BudgetLimits {
    BudgetLimits { wall_secs: wall, syscalls, write_bytes, fork }
}

#[test]
fn budget_readme_example_parses() {
    let b = parse("wall=3600s,syscalls=1e7,write_bytes=10G,fork=1000").unwrap();
    assert_eq!(b, limits(Some(3600), Some(10_000_000), Some(10 * 1024 * 1024 * 1024), Some(1000)));
}

#[test]
fn budget_single_wall() {
    assert_eq!(parse("wall=600s").unwrap(), limits(Some(600), None, None, None));
}

#[test]
fn budget_wall_units() {
    assert_eq!(parse("wall=90").unwrap().wall_secs, Some(90));
    assert_eq!(parse("wall=2m").unwrap().wall_secs, Some(120));
    assert_eq!(parse("wall=3h").unwrap().wall_secs, Some(10800));
}

#[test]
fn budget_byte_units() {
    assert_eq!(parse("write_bytes=1").unwrap().write_bytes, Some(1));
    assert_eq!(parse("write_bytes=2K").unwrap().write_bytes, Some(2048));
    assert_eq!(parse("write_bytes=3M").unwrap().write_bytes, Some(3 * 1048576));
    assert_eq!(parse("write_bytes=1T").unwrap().write_bytes, Some(1099511627776));
}

#[test]
fn budget_counts() {
    assert_eq!(parse("fork=0").unwrap().fork, Some(0));
    assert_eq!(parse("syscalls=25e3").unwrap().syscalls, Some(25000));
    assert_eq!(parse("syscalls=0e999999999999999999999").unwrap().syscalls, Some(0));
    assert_eq!(parse("fork=18446744073709551615").unwrap().fork, Some(u64::MAX));
    assert_eq!(parse("syscalls=1e19").unwrap().syscalls, Some(10_000_000_000_000_000_000));
}

#[test]
fn budget_too_large_values() {
    assert!(matches!(parse("fork=18446744073709551616"), Err(ParseError::TooLarge(BudgetKey::Fork))));
    assert!(matches!(parse("syscalls=2e19"), Err(ParseError::TooLarge(BudgetKey::Syscalls))));
    assert!(matches!(parse("syscalls=1e20"), Err(ParseError::TooLarge(BudgetKey::Syscalls))));
    assert!(matches!(parse("syscalls=1e99999999999999999999"), Err(ParseError::TooLarge(BudgetKey::Syscalls))));
    assert!(matches!(parse("write_bytes=17179869184G"), Err(ParseError::TooLarge(BudgetKey::WriteBytes))));
    assert!(matches!(parse("wall=5124095576030432h"), Err(ParseError::TooLarge(BudgetKey::Wall))));
}

#[test]
fn budget_typo_key_rejected() {
    match parse("wal=10s") {
        Err(ParseError::UnknownKey(k)) => assert_eq!(k, "wal"),
        other => panic!("typo'd key must be rejected, got {other:?}"),
    }
}

#[test]
fn budget_bad_values_rejected() {
    assert!(matches!(parse("wall=10x"), Err(ParseError::BadValue(BudgetKey::Wall))));
    assert!(matches!(parse("wall=s"), Err(ParseError::BadValue(BudgetKey::Wall))));
    assert!(matches!(parse("wall="), Err(ParseError::BadValue(BudgetKey::Wall))));
    assert!(matches!(parse("fork=10K"), Err(ParseError::BadValue(BudgetKey::Fork))));
    assert!(matches!(parse("syscalls=1e"), Err(ParseError::BadValue(BudgetKey::Syscalls))));
    assert!(matches!(parse("syscalls=e7"), Err(ParseError::BadValue(BudgetKey::Syscalls))));
    assert!(matches!(parse("syscalls=1.5e7"), Err(ParseError::BadValue(BudgetKey::Syscalls))));
    assert!(matches!(parse("write_bytes=10g"), Err(ParseError::BadValue(BudgetKey::WriteBytes))));
    assert!(matches!(parse("write_bytes=-1"), Err(ParseError::BadValue(BudgetKey::WriteBytes))));
}

#[test]
fn budget_structure_errors() {
    assert!(matches!(parse(""), Err(ParseError::EmptyEntry)));
    assert!(matches!(parse("wall=1s,"), Err(ParseError::EmptyEntry)));
    assert!(matches!(parse("wall=1s,,fork=2"), Err(ParseError::EmptyEntry)));
    match parse("wall") {
        Err(ParseError::MissingEquals(e)) => assert_eq!(e, "wall"),
        other => panic!("expected MissingEquals, got {other:?}"),
    }
    assert!(matches!(parse("fork=1,fork=2"), Err(ParseError::DuplicateKey(BudgetKey::Fork))));
}

#[test]
fn budget_first_fault_wins() {
    match parse("bogus=1,wall=x") {
        Err(ParseError::UnknownKey(k)) => assert_eq!(k, "bogus"),
        other => panic!("first fault must be reported, got {other:?}"),
    }
    assert!(matches!(parse("wall=x,bogus=1"), Err(ParseError::BadValue(BudgetKey::Wall))));
}

#[test]
fn budget_messages() {
    assert_eq!(
        ParseError::UnknownKey("wal".to_string()).to_string(),
        "unknown key 'wal' (expected wall, syscalls, write_bytes or fork)"
    );
    assert_eq!(ParseError::DuplicateKey(BudgetKey::WriteBytes).to_string(), "key 'write_bytes' given more than once");
    assert_eq!(ParseError::BadValue(BudgetKey::Wall).to_string(), "malformed value for 'wall'");
    assert_eq!(ParseError::TooLarge(BudgetKey::Fork).to_string(), "value for 'fork' does not fit in 64 bits");
    assert_eq!(ParseError::EmptyEntry.to_string(), "empty entry (expected key=value)");
    assert_eq!(ParseError::MissingEquals("x".to_string()).to_string(), "entry 'x' is not key=value");
    assert_eq!(BudgetKey::Syscalls.name(), "syscalls");
}

#[test]
fn budget_every_entry_recorded() {
    // Law: an accepted spec records each entry's limit under its key.
    let b = parse("fork=7,wall=1m").unwrap();
    assert_eq!(b, limits(Some(60), None, None, Some(7)));
}
