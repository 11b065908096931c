#[test]
fn version_string_present() {
    assert!(!agentns_launch::VERSION.is_empty(), "VERSION must not be empty");
    assert!(
        agentns_launch::VERSION.split('.').count() >= 2,
        "VERSION must be semver-ish; got {}",
        agentns_launch::VERSION
    );
}

#[test]
fn budget_module_stub_marker() {
    assert!(agentns_launch::budget::is_stub());
}
