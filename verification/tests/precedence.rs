use agentns_launch::launcher::{next_action, Action, Event, LauncherError, Notice, SessionMode};
use agentns_launch::mock::{resolve, Mock};
use agentns_launch::unshare::{mock_create_outcome, AgentNsError, SessionIdError};

/// Answers the launcher would get in one environment.
struct Env {
    file_body: Option<&'static str>,
    override_value: Option<&'static str>,
    kernel_surface: bool,
    assay_live: bool,
    prctl_mock: &'static str,
    session_file: &'static str,
}

const SYNTH: &str = "000003e866699c0000000002cb417959";

/// Drive the ladder to its end, answering each action from `env`; returns
/// the final action and the notice lines printed on the way.
fn drive(no_unshare: bool, env: &Env) -> (Action, Vec<String>) {
    let mut event = Event::Begin;
    let mut lines = Vec::new();
    for _ in 0..10 {
        let action = next_action(no_unshare, event);
        event = match action {
            Action::ResolveMock => Event::MockResolved(resolve(env.file_body, env.override_value)),
            Action::Synthesize { mode, warn } => Event::Synthesized { mode, warn, id: Ok(SYNTH.to_string()) },
            Action::ProbeKernel => Event::KernelProbed(env.kernel_surface),
            Action::QueryAssay => Event::AssayAnswered(env.assay_live),
            Action::CreateNamespace => Event::NamespaceCreated(mock_create_outcome(env.prctl_mock)),
            Action::SetIntentAndReadBack => Event::SessionReadBack {
                path: "/proc/self/agent_session".to_string(),
                contents: Ok(env.session_file.to_string()),
            },
            Action::Finish { ref session_id, notice, .. } => {
                if let Some(n) = notice {
                    lines.push(n.line(session_id));
                }
                return (action, lines);
            }
            Action::Fail(_) => return (action, lines),
        };
    }
    panic!("ladder did not terminate");
}

fn stock() -> Env {
    Env {
        file_body: None,
        override_value: None,
        kernel_surface: false,
        assay_live: false,
        prctl_mock: "0",
        session_file: "",
    }
}

fn finished(a: &Action) -> (String, SessionMode) {
    match a {
        Action::Finish { session_id, mode, .. } => (session_id.clone(), *mode),
        other => panic!("expected Finish, got {other:?}"),
    }
}

#[test]
fn no_unshare_produces_mode_no_unshare() {
    let (a, _) = drive(true, &stock());
    let (_, mode) = finished(&a);
    assert_eq!(mode.as_str(), "no-unshare");
}

#[test]
fn agentns_mode_is_set_in_child_env() {
    let (a, _) = drive(true, &stock());
    let (_, mode) = finished(&a);
    assert!(!mode.as_str().is_empty());
}

#[test]
fn no_unshare_exits_zero_with_warning() {
    let (a, lines) = drive(true, &stock());
    finished(&a);
    let err = lines.join("\n").to_lowercase();
    assert!(
        err.contains("no-unshare") || err.contains("stock") || err.contains("synthesized"),
        "expected stock-kernel warning on stderr: {err}"
    );
}

#[test]
fn mock_override_wins_over_no_unshare() {
    let env = Env { override_value: Some("aabbccddaabbccddaabbccddaabbccdd"), ..stock() };
    let (a, _) = drive(true, &env);
    let (id, mode) = finished(&a);
    assert_eq!(id, "aabbccddaabbccddaabbccddaabbccdd", "mock id must propagate");
    assert_eq!(mode, SessionMode::Mock);
}

#[test]
fn agentns_mode_present_in_child_env() {
    let env = Env { override_value: Some("exec-mode-test-fixed-id-1234ab"), ..stock() };
    let (a, lines) = drive(false, &env);
    let (id, mode) = finished(&a);
    assert_eq!(id, "exec-mode-test-fixed-id-1234ab");
    assert_eq!(mode.as_str(), "mock");
    assert_eq!(lines, vec![
        "[agentns-launch] MOCK MODE: session_id=exec-mode-test-fixed-id-1234ab source=env".to_string()
    ]);
}

#[test]
fn agentns_mode_is_non_empty() {
    let env = Env { override_value: Some("exec-mode-test-fixed-id-1234ab"), ..stock() };
    let (a, _) = drive(false, &env);
    assert!(!finished(&a).1.as_str().is_empty(), "AGENTNS_MODE must be non-empty");
}

#[test]
fn mock_file_wins_over_env() {
    let env = Env { file_body: Some("  from-file\n"), override_value: Some("from-env"), ..stock() };
    let (a, lines) = drive(false, &env);
    assert_eq!(finished(&a).0, "from-file");
    assert!(lines[0].ends_with("source=file"));
}

#[test]
fn blank_mock_file_falls_through_to_env() {
    let m: Mock = resolve(Some(" \n"), Some("from-env")).unwrap();
    assert_eq!(m.session_id, "from-env");
    assert_eq!(m.source, "env");
    assert!(resolve(Some(""), Some("")).is_none());
    assert!(resolve(None, None).is_none());
}

#[test]
fn missing_no_unshare_exits_nonzero_on_stock_kernel() {
    let (a, _) = drive(false, &stock());
    match a {
        Action::Fail(e) => {
            let err = e.to_string().to_lowercase();
            assert!(
                err.contains("kernel does not support agent namespaces"),
                "expected clear remediation message; got {err}"
            );
        }
        other => panic!("stock kernel without --no-unshare must fail, got {other:?}"),
    }
}

#[test]
fn stock_kernel_without_no_unshare_exits_nonzero() {
    let (a, _) = drive(false, &stock());
    assert!(matches!(a, Action::Fail(LauncherError::StockKernelNoFallback)));
}

#[test]
fn assay_live_and_prctl_ok_uses_prctl_mode() {
    let env = Env {
        kernel_surface: true,
        assay_live: true,
        prctl_mock: "0",
        session_file: "deadbeefdeadbeefdeadbeefdeadbeef",
        ..stock()
    };
    let (a, lines) = drive(false, &env);
    let (id, mode) = finished(&a);
    assert_eq!(mode.as_str(), "prctl");
    assert_eq!(id, "deadbeefdeadbeefdeadbeefdeadbeef");
    assert!(lines.is_empty());
}

#[test]
fn assay_flag_rejected_skips_prctl_uses_synth_fallback() {
    let env = Env { kernel_surface: true, assay_live: false, prctl_mock: "EPERM", ..stock() };
    let (a, lines) = drive(false, &env);
    let (id, mode) = finished(&a);
    assert_eq!(mode.as_str(), "synth-fallback");
    assert_eq!(id.len(), 32, "synthesized id must be 32 chars: {id}");
    assert!(id.bytes().all(|b| matches!(b, b'0'..=b'9' | b'a'..=b'f')));
    assert!(lines.join("\n").contains("assay agentns not Live"), "expected assay-gate WARN");
}

#[test]
fn assay_inert_skips_prctl_uses_synth_fallback() {
    let env = Env { kernel_surface: true, assay_live: false, ..stock() };
    let (a, _) = drive(false, &env);
    assert_eq!(finished(&a).1.as_str(), "synth-fallback");
}

#[test]
fn prctl_einval_falls_back_with_warning() {
    let env = Env { kernel_surface: true, assay_live: true, prctl_mock: "EINVAL", ..stock() };
    let (a, lines) = drive(false, &env);
    assert_eq!(finished(&a).1, SessionMode::SynthFallback);
    assert!(lines[0].contains("EINVAL/ENOSYS"));
}

#[test]
fn prctl_eperm_is_fatal() {
    let env = Env { kernel_surface: true, assay_live: true, prctl_mock: "EPERM", ..stock() };
    let (a, _) = drive(false, &env);
    match a {
        Action::Fail(e) => assert!(e.to_string().contains("CAP_SYS_ADMIN")),
        other => panic!("EPERM must be fatal, got {other:?}"),
    }
}

#[test]
fn zero_session_falls_back() {
    let a = next_action(false, Event::NamespaceCreated(Err(AgentNsError::CreateSucceededButZero)));
    assert!(matches!(a, Action::Synthesize { mode: SessionMode::SynthFallback, warn: Notice::ZeroSession }));
}

#[test]
fn read_back_failure_is_fatal() {
    let env = Env {
        kernel_surface: true,
        assay_live: true,
        session_file: "00000000000000000000000000000000",
        ..stock()
    };
    let (a, _) = drive(false, &env);
    match a {
        Action::Fail(e @ LauncherError::InvalidSession { .. }) => {
            assert!(matches!(e, LauncherError::InvalidSession { fault: SessionIdError::AllZero, .. }));
            assert!(e.to_string().contains("all-zero"));
        }
        other => panic!("expected invalid session, got {other:?}"),
    }
}

#[test]
fn read_back_is_trimmed_and_short_id_names_the_file() {
    let env = Env {
        kernel_surface: true,
        assay_live: true,
        session_file: "deadbeefdeadbeefdeadbeefdeadbeef\n",
        ..stock()
    };
    let (a, _) = drive(false, &env);
    assert_eq!(finished(&a).0, "deadbeefdeadbeefdeadbeefdeadbeef");
    let env = Env { kernel_surface: true, assay_live: true, session_file: "dead\n", ..stock() };
    let (a, _) = drive(false, &env);
    match a {
        Action::Fail(e) => assert_eq!(
            e.to_string(),
            "io: agent_session: expected 32 hex chars, got 4 in \"/proc/self/agent_session\""
        ),
        other => panic!("expected failure, got {other:?}"),
    }
}

#[test]
fn read_error_is_fatal() {
    let a = next_action(
        false,
        Event::SessionReadBack {
            path: "/proc/self/agent_session".to_string(),
            contents: Err(std::io::Error::new(std::io::ErrorKind::NotFound, "gone")),
        },
    );
    assert!(matches!(a, Action::Fail(LauncherError::Io(_))));
}

#[test]
fn synthesis_failure_is_fatal() {
    let a = next_action(
        true,
        Event::Synthesized {
            mode: SessionMode::NoUnshare,
            warn: Notice::NoUnshare,
            id: Err(std::io::Error::new(std::io::ErrorKind::NotFound, "no /proc/stat")),
        },
    );
    assert!(matches!(a, Action::Fail(LauncherError::Io(_))));
}
