use agentns_launch::unshare::{
    mock_create_outcome, prctl_create_outcome, AgentNsError, IoKind, EINVAL, EIO, ENOSYS, EPERM,
};

#[test]
fn mock_errno_zero_is_ok() {
    let r = mock_create_outcome("0");
    assert!(r.is_ok(), "errno=0 must map to Ok(()): {r:?}");
}

#[test]
fn mock_errno_enosys_maps_to_kernel_lacks_prctl() {
    match mock_create_outcome("ENOSYS") {
        Err(AgentNsError::KernelLacksPrctl) => {}
        other => panic!("ENOSYS must map to KernelLacksPrctl, got {other:?}"),
    }
}

#[test]
fn mock_errno_einval_maps_to_kernel_lacks_prctl() {
    match mock_create_outcome("EINVAL") {
        Err(AgentNsError::KernelLacksPrctl) => {}
        other => panic!("EINVAL must map to KernelLacksPrctl, got {other:?}"),
    }
}

#[test]
fn mock_errno_eperm_maps_to_needs_cap_sys_admin() {
    match mock_create_outcome("EPERM") {
        Err(AgentNsError::NeedsCapSysAdmin) => {}
        other => panic!("EPERM must map to NeedsCapSysAdmin, got {other:?}"),
    }
}

#[test]
fn mock_errno_empty_and_trimmed() {
    assert!(mock_create_outcome("").is_ok());
    assert!(mock_create_outcome(" 0\n").is_ok());
    assert!(matches!(mock_create_outcome(" EPERM "), Err(AgentNsError::NeedsCapSysAdmin)));
}

#[test]
fn mock_errno_unknown_is_io_other_naming_the_value() {
    match mock_create_outcome("EBUSY") {
        Err(AgentNsError::Io(e)) => {
            assert_eq!(e.kind(), std::io::ErrorKind::Other);
            let msg = e.to_string();
            assert!(msg.contains("AGENTNS_PRCTL_MOCK_ERRNO"), "{msg}");
            assert!(msg.contains("\"EBUSY\""), "{msg}");
        }
        other => panic!("unknown errno name must be Io, got {other:?}"),
    }
}

#[test]
fn agent_ns_error_io_round_trips() {
    let orig = std::io::Error::new(std::io::ErrorKind::BrokenPipe, "test");
    let wrapped = AgentNsError::Io(orig);
    let io_err: std::io::Error = wrapped.into();
    assert_eq!(io_err.kind(), std::io::ErrorKind::BrokenPipe);
}

#[test]
fn agent_ns_error_kernel_lacks_prctl_converts_to_unsupported() {
    let io_err: std::io::Error = AgentNsError::KernelLacksPrctl.into();
    assert_eq!(io_err.kind(), std::io::ErrorKind::Unsupported);
}

#[test]
fn agent_ns_error_needs_cap_converts_to_permission_denied() {
    let io_err: std::io::Error = AgentNsError::NeedsCapSysAdmin.into();
    assert_eq!(io_err.kind(), std::io::ErrorKind::PermissionDenied);
}

#[test]
fn agent_ns_error_zero_converts_to_invalid_data() {
    let io_err: std::io::Error = AgentNsError::CreateSucceededButZero.into();
    assert_eq!(io_err.kind(), std::io::ErrorKind::InvalidData);
}

#[test]
fn agent_ns_error_converted_message_is_its_description() {
    let e = AgentNsError::NeedsCapSysAdmin;
    let text = e.to_string();
    let io_err: std::io::Error = e.into();
    assert_eq!(io_err.to_string(), text);
    assert!(text.contains("CAP_SYS_ADMIN"));
}

#[test]
fn io_error_converts_into_agent_ns_error() {
    let e: AgentNsError = std::io::Error::new(std::io::ErrorKind::TimedOut, "slow").into();
    match e {
        AgentNsError::Io(inner) => assert_eq!(inner.kind(), std::io::ErrorKind::TimedOut),
        other => panic!("expected Io, got {other:?}"),
    }
}

#[test]
fn io_kind_of_each_variant() {
    assert_eq!(AgentNsError::KernelLacksPrctl.io_kind(), Some(IoKind::Unsupported));
    assert_eq!(AgentNsError::NeedsCapSysAdmin.io_kind(), Some(IoKind::PermissionDenied));
    assert_eq!(AgentNsError::CreateSucceededButZero.io_kind(), Some(IoKind::InvalidData));
    let io = AgentNsError::Io(std::io::Error::new(std::io::ErrorKind::Other, "x"));
    assert_eq!(io.io_kind(), None);
    assert!(io.to_string().starts_with("io: "));
}

#[test]
fn errno_constants_match_libc() {
    assert_eq!(EPERM, libc::EPERM);
    assert_eq!(EIO, libc::EIO);
    assert_eq!(EINVAL, libc::EINVAL);
    assert_eq!(ENOSYS, libc::ENOSYS);
}

#[test]
fn prctl_outcome_mapping() {
    assert!(prctl_create_outcome(0, None).is_ok());
    assert!(prctl_create_outcome(0, Some(libc::EPERM)).is_ok());
    assert!(matches!(prctl_create_outcome(-1, Some(libc::ENOSYS)), Err(AgentNsError::KernelLacksPrctl)));
    assert!(matches!(prctl_create_outcome(-1, Some(libc::EINVAL)), Err(AgentNsError::KernelLacksPrctl)));
    assert!(matches!(prctl_create_outcome(-1, Some(libc::EPERM)), Err(AgentNsError::NeedsCapSysAdmin)));
    match prctl_create_outcome(-1, Some(libc::EBUSY)) {
        Err(AgentNsError::Io(e)) => assert_eq!(e.raw_os_error(), Some(libc::EBUSY)),
        other => panic!("expected Io, got {other:?}"),
    }
    match prctl_create_outcome(-1, None) {
        Err(AgentNsError::Io(e)) => assert_eq!(e.raw_os_error(), Some(libc::EIO)),
        other => panic!("expected Io(EIO), got {other:?}"),
    }
}

#[test]
fn converted_errors_keep_their_message() {
    for e in [AgentNsError::KernelLacksPrctl, AgentNsError::NeedsCapSysAdmin, AgentNsError::CreateSucceededButZero] {
        let text = e.to_string();
        let io_err: std::io::Error = e.into();
        assert_eq!(io_err.to_string(), text);
        assert_eq!(io_err.raw_os_error(), None);
    }
}

#[test]
fn source_is_the_wrapped_io_error() {
    let e = AgentNsError::Io(std::io::Error::new(std::io::ErrorKind::BrokenPipe, "x"));
    assert_eq!(e.source().map(|s| s.kind()), Some(std::io::ErrorKind::BrokenPipe));
    assert!(AgentNsError::NeedsCapSysAdmin.source().is_none());
}
