//! The launcher's decisions: argument checks, the precedence ladder that
//! decides how the wrapped command's session id is obtained, the notices
//! printed on the way, and the exit code of a failed exec.
//!
//! The ladder, in order:
//!
//! 1. a mock source (mock file, then override variable) — mode `mock`;
//! 2. `--no-unshare` — synthesize, mode `no-unshare`;
//! 3. no agent-namespace surface on this kernel — refuse;
//! 4. assay does not report the surface `Live` — synthesize without
//!    attempting the prctl, mode `synth-fallback`;
//! 5. create the namespace: success sets the intent tag and reads the id
//!    back, mode `prctl`; `ENOSYS`/`EINVAL` or an all-zero id synthesize,
//!    mode `synth-fallback`; `EPERM` is fatal; any other error is fatal.
//!
//! Each step that needs the outside world is an [`Action`] for the caller
//! to perform; the caller reports what happened as an [`Event`], and
//! [`next_action`] decides the next step.

use vstd::prelude::*;
use crate::budget::{fault_message, parse, parse_budget, BudgetLimits, ParseError};
use vstd::string::to_string_from_display_ensures;
use crate::mock::{announce_line, Mock};
use crate::text::{chars_of, trim, trim_bounds};
use crate::unshare::{
    session_message, debug_quoted, debug_rendering, lemma_session_fault_iff_invalid, session_fault, valid_session_id,
    validate_agent_session, AgentNsError, SessionIdError,
};

verus! {

/// How the session id handed to the child was obtained.
#[derive(Clone, Copy, Debug, PartialEq, Eq, Structural)]
pub enum SessionMode {
    Mock,
    NoUnshare,
    Prctl,
    SynthFallback,
}

impl SessionMode {
    /// The value exported as `AGENTNS_MODE`.
    pub fn as_str(&self) -> (r: &'static str)
        ensures
            r@ == mode_name(*self),
    {
        match self {
            SessionMode::Mock => "mock",
            SessionMode::NoUnshare => "no-unshare",
            SessionMode::Prctl => "prctl",
            SessionMode::SynthFallback => "synth-fallback",
        }
    }
}

pub open spec fn mode_name(m: SessionMode) -> Seq<char> {
    match m {
        SessionMode::Mock => "mock"@,
        SessionMode::NoUnshare => "no-unshare"@,
        SessionMode::Prctl => "prctl"@,
        SessionMode::SynthFallback => "synth-fallback"@,
    }
}

/// A line the launcher writes to stderr before running the child.
#[derive(Clone, Copy, Debug)]
pub enum Notice {
    /// The id came from a mock source (`"file"` or `"env"`).
    Mock { source: &'static str },
    /// `--no-unshare` was given and the id was synthesized.
    NoUnshare,
    /// assay did not report the surface `Live`; the prctl was skipped.
    AssayNotLive,
    /// The kernel rejected the namespace prctl with `ENOSYS`/`EINVAL`.
    PrctlRejected,
    /// The prctl succeeded but the session id was all zeros.
    ZeroSession,
}

/// Fatal launcher errors.
#[derive(Debug)]
pub enum LauncherError {
    /// `--intent` is empty or only whitespace.
    EmptyIntent,
    /// `--budget` does not parse.
    BadBudget(ParseError),
    /// No agent-namespace surface and `--no-unshare` was not given.
    StockKernelNoFallback,
    /// The namespace prctl needs `CAP_SYS_ADMIN`.
    NeedsCapSysAdmin,
    /// The session id read back from the kernel is malformed; the file it
    /// was read from and the fault.
    InvalidSession { path: String, fault: SessionIdError },
    /// Any I/O failure on the way.
    Io(std::io::Error),
}

/// The next thing the launcher must do.
#[derive(Debug)]
pub enum Action {
    /// Read the mock file and the override variable.
    ResolveMock,
    /// Synthesize a fallback id; on success finish with `mode` after
    /// printing `warn`.
    Synthesize { mode: SessionMode, warn: Notice },
    /// Check whether the kernel exposes the session file.
    ProbeKernel,
    /// Ask assay whether the surface is `Live`.
    QueryAssay,
    /// Create the agent namespace.
    CreateNamespace,
    /// Set the intent tag (best effort) and read the session id back.
    SetIntentAndReadBack,
    /// Run the child with this id and mode, after printing `notice`.
    Finish { session_id: String, mode: SessionMode, notice: Option<Notice> },
    /// Give up with this error.
    Fail(LauncherError),
}

/// What the last action found.
#[derive(Debug)]
pub enum Event {
    /// Nothing has been done yet.
    Begin,
    /// Result of [`Action::ResolveMock`].
    MockResolved(Option<Mock>),
    /// Result of [`Action::Synthesize`], carrying the mode and notice it was
    /// asked for.
    Synthesized { mode: SessionMode, warn: Notice, id: Result<String, std::io::Error> },
    /// Result of [`Action::ProbeKernel`].
    KernelProbed(bool),
    /// Result of [`Action::QueryAssay`]: whether the verdict is `Live`.
    AssayAnswered(bool),
    /// Result of [`Action::CreateNamespace`].
    NamespaceCreated(Result<(), AgentNsError>),
    /// Result of [`Action::SetIntentAndReadBack`]: the file the session id
    /// was read from, and its raw contents (or the error reading it).
    SessionReadBack { path: String, contents: Result<String, std::io::Error> },
}

/// The mathematical form of an [`Action`]: the same, with the session id
/// of `Finish` as its characters.
pub enum Step {
    ResolveMock,
    Synthesize { mode: SessionMode, warn: Notice },
    ProbeKernel,
    QueryAssay,
    CreateNamespace,
    SetIntentAndReadBack,
    Finish { session_id: Seq<char>, mode: SessionMode, notice: Option<Notice> },
    Fail(LauncherError),
}

impl View for Action {
    type V = Step;

    open spec fn view(&self) -> Step {
        match self {
            Action::ResolveMock => Step::ResolveMock,
            Action::Synthesize { mode, warn } => Step::Synthesize { mode: *mode, warn: *warn },
            Action::ProbeKernel => Step::ProbeKernel,
            Action::QueryAssay => Step::QueryAssay,
            Action::CreateNamespace => Step::CreateNamespace,
            Action::SetIntentAndReadBack => Step::SetIntentAndReadBack,
            Action::Finish { session_id, mode, notice } => Step::Finish {
                session_id: session_id@,
                mode: *mode,
                notice: *notice,
            },
            Action::Fail(e) => Step::Fail(*e),
        }
    }
}

/// The transition table of the ladder. A session id read back from the
/// kernel is accepted only when it passes [`validate_agent_session`].
pub open spec fn next_spec(no_unshare: bool, event: Event) -> Step {
    match event {
        Event::Begin => Step::ResolveMock,
        Event::MockResolved(Some(m)) => Step::Finish {
            session_id: m.session_id@,
            mode: SessionMode::Mock,
            notice: Some(Notice::Mock { source: m.source }),
        },
        Event::MockResolved(None) => if no_unshare {
            Step::Synthesize { mode: SessionMode::NoUnshare, warn: Notice::NoUnshare }
        } else {
            Step::ProbeKernel
        },
        Event::Synthesized { mode, warn, id } => match id {
            Ok(s) => Step::Finish { session_id: s@, mode, notice: Some(warn) },
            Err(e) => Step::Fail(LauncherError::Io(e)),
        },
        Event::KernelProbed(present) => if present {
            Step::QueryAssay
        } else {
            Step::Fail(LauncherError::StockKernelNoFallback)
        },
        Event::AssayAnswered(live) => if live {
            Step::CreateNamespace
        } else {
            Step::Synthesize { mode: SessionMode::SynthFallback, warn: Notice::AssayNotLive }
        },
        Event::NamespaceCreated(res) => match res {
            Ok(()) => Step::SetIntentAndReadBack,
            Err(AgentNsError::KernelLacksPrctl) => Step::Synthesize {
                mode: SessionMode::SynthFallback,
                warn: Notice::PrctlRejected,
            },
            Err(AgentNsError::NeedsCapSysAdmin) => Step::Fail(LauncherError::NeedsCapSysAdmin),
            Err(AgentNsError::CreateSucceededButZero) => Step::Synthesize {
                mode: SessionMode::SynthFallback,
                warn: Notice::ZeroSession,
            },
            Err(AgentNsError::Io(e)) => Step::Fail(LauncherError::Io(e)),
        },
        Event::SessionReadBack { path, contents } => match contents {
            Ok(raw) => match session_fault(trim(raw@)) {
                None => Step::Finish {
                    session_id: trim(raw@),
                    mode: SessionMode::Prctl,
                    notice: None,
                },
                Some(fault) => Step::Fail(LauncherError::InvalidSession { path, fault }),
            },
            Err(e) => Step::Fail(LauncherError::Io(e)),
        },
    }
}

/// Decide the launcher's next step from what the last one found.
pub fn next_action(no_unshare: bool, event: Event) -> (r: Action)
    ensures
        r@ == next_spec(no_unshare, event),
{
    match event {
        Event::Begin => Action::ResolveMock,
        Event::MockResolved(Some(m)) => Action::Finish {
            session_id: m.session_id,
            mode: SessionMode::Mock,
            notice: Some(Notice::Mock { source: m.source }),
        },
        Event::MockResolved(None) => if no_unshare {
            Action::Synthesize { mode: SessionMode::NoUnshare, warn: Notice::NoUnshare }
        } else {
            Action::ProbeKernel
        },
        Event::Synthesized { mode, warn, id } => match id {
            Ok(s) => Action::Finish { session_id: s, mode, notice: Some(warn) },
            Err(e) => Action::Fail(LauncherError::Io(e)),
        },
        Event::KernelProbed(present) => if present {
            Action::QueryAssay
        } else {
            Action::Fail(LauncherError::StockKernelNoFallback)
        },
        Event::AssayAnswered(live) => if live {
            Action::CreateNamespace
        } else {
            Action::Synthesize { mode: SessionMode::SynthFallback, warn: Notice::AssayNotLive }
        },
        Event::NamespaceCreated(res) => match res {
            Ok(()) => Action::SetIntentAndReadBack,
            Err(AgentNsError::KernelLacksPrctl) => Action::Synthesize {
                mode: SessionMode::SynthFallback,
                warn: Notice::PrctlRejected,
            },
            Err(AgentNsError::NeedsCapSysAdmin) => Action::Fail(LauncherError::NeedsCapSysAdmin),
            Err(AgentNsError::CreateSucceededButZero) => Action::Synthesize {
                mode: SessionMode::SynthFallback,
                warn: Notice::ZeroSession,
            },
            Err(AgentNsError::Io(e)) => Action::Fail(LauncherError::Io(e)),
        },
        Event::SessionReadBack { path, contents } => match contents {
            Ok(raw) => match validate_agent_session(raw.as_str()) {
                Ok(id) => Action::Finish { session_id: id, mode: SessionMode::Prctl, notice: None },
                Err(fault) => Action::Fail(LauncherError::InvalidSession { path, fault }),
            },
            Err(e) => Action::Fail(LauncherError::Io(e)),
        },
    }
}

/// What the outside world answers to the launcher's actions: the mock
/// sources, the kernel probe, assay's verdict, the namespace prctl, the
/// file the session id is read from and its raw contents, and the
/// synthesis of a fallback id.
pub struct World {
    pub mock: Option<Mock>,
    pub kernel_surface: bool,
    pub assay_live: bool,
    pub create: Result<(), AgentNsError>,
    pub session_path: String,
    pub read_back: Result<String, std::io::Error>,
    pub synthesized: Result<String, std::io::Error>,
}

/// The event that performing `a` produces in world `w`.
pub open spec fn respond(w: World, a: Step) -> Event {
    match a {
        Step::ResolveMock => Event::MockResolved(w.mock),
        Step::Synthesize { mode, warn } => Event::Synthesized { mode, warn, id: w.synthesized },
        Step::ProbeKernel => Event::KernelProbed(w.kernel_surface),
        Step::QueryAssay => Event::AssayAnswered(w.assay_live),
        Step::CreateNamespace => Event::NamespaceCreated(w.create),
        Step::SetIntentAndReadBack => Event::SessionReadBack {
            path: w.session_path,
            contents: w.read_back,
        },
        _ => Event::Begin,
    }
}

/// The launcher stops at `Finish` and `Fail`.
pub open spec fn is_final(a: Step) -> bool {
    a is Finish || a is Fail
}

/// Drive the ladder from step `a` for at most `fuel` steps in world `w`.
pub open spec fn run(no_unshare: bool, w: World, a: Step, fuel: nat) -> Step
    decreases fuel,
{
    if fuel == 0 || is_final(a) {
        a
    } else {
        run(no_unshare, w, next_spec(no_unshare, respond(w, a)), (fuel - 1) as nat)
    }
}

/// Finish with a synthesized id, or fail with the synthesis error.
pub open spec fn after_synthesis(w: World, mode: SessionMode, warn: Notice) -> Step {
    match w.synthesized {
        Ok(s) => Step::Finish { session_id: s@, mode, notice: Some(warn) },
        Err(e) => Step::Fail(LauncherError::Io(e)),
    }
}

/// The documented precedence ladder, stated in one piece.
pub open spec fn ladder(no_unshare: bool, w: World) -> Step {
    if w.mock is Some {
        Step::Finish {
            session_id: w.mock->0.session_id@,
            mode: SessionMode::Mock,
            notice: Some(Notice::Mock { source: w.mock->0.source }),
        }
    } else if no_unshare {
        after_synthesis(w, SessionMode::NoUnshare, Notice::NoUnshare)
    } else if !w.kernel_surface {
        Step::Fail(LauncherError::StockKernelNoFallback)
    } else if !w.assay_live {
        after_synthesis(w, SessionMode::SynthFallback, Notice::AssayNotLive)
    } else {
        match w.create {
            Ok(()) => match w.read_back {
                Ok(raw) => match session_fault(trim(raw@)) {
                    None => Step::Finish {
                        session_id: trim(raw@),
                        mode: SessionMode::Prctl,
                        notice: None,
                    },
                    Some(fault) => Step::Fail(
                        LauncherError::InvalidSession { path: w.session_path, fault },
                    ),
                },
                Err(e) => Step::Fail(LauncherError::Io(e)),
            },
            Err(AgentNsError::KernelLacksPrctl) => after_synthesis(
                w,
                SessionMode::SynthFallback,
                Notice::PrctlRejected,
            ),
            Err(AgentNsError::NeedsCapSysAdmin) => Step::Fail(LauncherError::NeedsCapSysAdmin),
            Err(AgentNsError::CreateSucceededButZero) => after_synthesis(
                w,
                SessionMode::SynthFallback,
                Notice::ZeroSession,
            ),
            Err(AgentNsError::Io(e)) => Step::Fail(LauncherError::Io(e)),
        }
    }
}

/// Driving [`next_action`] step by step from the start, answering each
/// action as the world `w` does, stops within six steps at exactly the
/// outcome of the precedence ladder: mock, then `--no-unshare`, then the
/// kernel surface, then assay's gate, then the prctl and its errors, then
/// the validation of the id read back.
pub proof fn lemma_steps_follow_ladder(no_unshare: bool, w: World)
    ensures
        run(no_unshare, w, next_spec(no_unshare, Event::Begin), 6) == ladder(no_unshare, w),
        is_final(ladder(no_unshare, w)),
{
    reveal_with_fuel(run, 7);
}

/// The mode says where the id came from. `prctl`: read back from the
/// kernel after the surface was found, assay said `Live` and the prctl
/// succeeded, and it passed read-back validation (32 lowercase hex
/// characters, not all zero). `mock`: the mock source's id, and a mock
/// source always wins. `no-unshare` and `synth-fallback`: the synthesized
/// id.
pub proof fn lemma_mode_is_honest(no_unshare: bool, w: World)
    ensures
        ladder(no_unshare, w) matches Step::Finish { session_id, mode: SessionMode::Prctl, .. }
            ==> {
            &&& w.mock is None
            &&& !no_unshare
            &&& w.kernel_surface
            &&& w.assay_live
            &&& w.create is Ok
            &&& w.read_back matches Ok(raw) && session_id == trim(raw@)
            &&& valid_session_id(session_id)
        },
        w.mock matches Some(m) ==> ladder(no_unshare, w) matches Step::Finish {
            session_id,
            mode: SessionMode::Mock,
            ..
        } && session_id == m.session_id@,
        ladder(no_unshare, w) matches Step::Finish { session_id, mode: SessionMode::Mock, .. }
            ==> (w.mock matches Some(m) && session_id == m.session_id@),
        ladder(no_unshare, w) matches Step::Finish { session_id, mode: SessionMode::SynthFallback, .. }
            ==> w.mock is None && !no_unshare && w.kernel_surface && (w.synthesized matches Ok(s)
            && session_id == s@),
        ladder(no_unshare, w) matches Step::Finish { session_id, mode: SessionMode::NoUnshare, .. }
            ==> w.mock is None && no_unshare && (w.synthesized matches Ok(s) && session_id == s@),
{
    if let Ok(raw) = w.read_back {
        lemma_session_fault_iff_invalid(trim(raw@));
    }
}

impl From<std::io::Error> for LauncherError {
    fn from(e: std::io::Error) -> (r: LauncherError)
        ensures
            r == LauncherError::Io(e),
    {
        LauncherError::Io(e)
    }
}

impl vstd::std_specs::convert::FromSpecImpl<std::io::Error> for LauncherError {
    open spec fn obeys_from_spec() -> bool {
        true
    }

    open spec fn from_spec(v: std::io::Error) -> LauncherError {
        LauncherError::Io(v)
    }
}

/// Check the arguments before anything else happens: the intent tag must
/// not be blank, and a budget spec, when given, must parse. Returns the
/// parsed budget.
pub fn check_arguments(intent: &str, budget: Option<&str>) -> (r: Result<
    Option<BudgetLimits>,
    LauncherError,
>)
    ensures
        trim(intent@).len() == 0 ==> r matches Err(LauncherError::EmptyIntent),
        trim(intent@).len() > 0 ==> match budget {
            None => r == Ok::<Option<BudgetLimits>, LauncherError>(None),
            Some(spec) => match parse_budget(spec@) {
                Ok(b) => r == Ok::<Option<BudgetLimits>, LauncherError>(Some(b)),
                Err(f) => r matches Err(LauncherError::BadBudget(e)) && e@ == f,
            },
        },
{
    let v = chars_of(intent);
    let (a, b) = trim_bounds(&v);
    if a == b {
        return Err(LauncherError::EmptyIntent);
    }
    match budget {
        None => Ok(None),
        Some(spec) => match parse(spec) {
            Ok(limits) => Ok(Some(limits)),
            Err(e) => Err(LauncherError::BadBudget(e)),
        },
    }
}

impl LauncherError {
    /// Human-readable description of the error.
    pub fn to_string(&self) -> (r: String)
        ensures
            match self {
                LauncherError::EmptyIntent => r@ == "--intent must be a non-empty tag"@,
                LauncherError::BadBudget(e) => r@ == "--budget: "@ + fault_message(e@),
                LauncherError::StockKernelNoFallback => r@ == "kernel does not support agent namespaces and --no-unshare was not given. Re-run with --no-unshare to synthesize a session_id on stock kernels."@,
                LauncherError::NeedsCapSysAdmin => r@ == "prctl(PR_SET_AGENT_NS) requires CAP_SYS_ADMIN in the user namespace. Re-run as root or with a privileged user namespace, or use --no-unshare."@,
                LauncherError::InvalidSession { path, fault } => r@ == "io: "@ + session_message(
                    *fault,
                ) + match *fault {
                    SessionIdError::WrongLength(_) => " in "@ + debug_rendering(path@),
                    _ => Seq::<char>::empty(),
                },
                LauncherError::Io(e) => exists|s: String|
                    to_string_from_display_ensures::<std::io::Error>(e, s) && r@ == "io: "@ + s@,
            },
    {
        match self {
            LauncherError::EmptyIntent => String::from_str("--intent must be a non-empty tag"),
            LauncherError::BadBudget(e) => {
                let mut r = String::from_str("--budget: ");
                r.append(e.to_string().as_str());
                r
            },
            LauncherError::StockKernelNoFallback => String::from_str(
                "kernel does not support agent namespaces and --no-unshare was not given. Re-run with --no-unshare to synthesize a session_id on stock kernels.",
            ),
            LauncherError::NeedsCapSysAdmin => String::from_str(
                "prctl(PR_SET_AGENT_NS) requires CAP_SYS_ADMIN in the user namespace. Re-run as root or with a privileged user namespace, or use --no-unshare.",
            ),
            LauncherError::InvalidSession { path, fault } => {
                let mut r = String::from_str("io: ");
                r.append(fault.to_string().as_str());
                if let SessionIdError::WrongLength(_) = fault {
                    r.append(" in ");
                    r.append(debug_quoted(path.as_str()).as_str());
                }
                r
            },
            LauncherError::Io(e) => {
                let mut r = String::from_str("io: ");
                let s = e.to_string();
                r.append(s.as_str());
                r
            },
        }
    }
}

impl Notice {
    /// The stderr line for this notice, given the session id chosen.
    pub fn line(&self, session_id: &str) -> (r: String)
        ensures
            match *self {
                Notice::Mock { source } => r@ == "[agentns-launch] MOCK MODE: session_id="@
                    + session_id@ + " source="@ + source@,
                Notice::NoUnshare => r@
                    == "[agentns-launch] no-unshare: stock kernel, session_id synthesized"@,
                Notice::AssayNotLive => r@
                    == "[agentns-launch] WARNING: assay agentns not Live; skipping prctl(PR_SET_AGENT_NS) and falling back to synthesized id"@,
                Notice::PrctlRejected => r@
                    == "[agentns-launch] WARNING: agent_session present but prctl(PR_SET_AGENT_NS) returned EINVAL/ENOSYS; falling back to synthesized id"@,
                Notice::ZeroSession => r@
                    == "[agentns-launch] WARNING: prctl(PR_SET_AGENT_NS) succeeded but session is all-zeros; falling back to synthesized id"@,
            },
    {
        match self {
            Notice::Mock { source } => announce_line(session_id, source),
            Notice::NoUnshare => String::from_str(
                "[agentns-launch] no-unshare: stock kernel, session_id synthesized",
            ),
            Notice::AssayNotLive => String::from_str(
                "[agentns-launch] WARNING: assay agentns not Live; skipping prctl(PR_SET_AGENT_NS) and falling back to synthesized id",
            ),
            Notice::PrctlRejected => String::from_str(
                "[agentns-launch] WARNING: agent_session present but prctl(PR_SET_AGENT_NS) returned EINVAL/ENOSYS; falling back to synthesized id",
            ),
            Notice::ZeroSession => String::from_str(
                "[agentns-launch] WARNING: prctl(PR_SET_AGENT_NS) succeeded but session is all-zeros; falling back to synthesized id",
            ),
        }
    }
}

/// The `--verbose` line describing the resolved session.
pub fn verbose_line(mode: SessionMode, session_id: &str, intent: &str) -> (r: String)
    ensures
        r@ == "[agentns-launch] mode="@ + mode_name(mode) + " session_id="@ + session_id@
            + " intent="@ + intent@,
{
    let mut r = String::from_str("[agentns-launch] mode=");
    r.append(mode.as_str());
    r.append(" session_id=");
    r.append(session_id);
    r.append(" intent=");
    r.append(intent);
    r
}

/// The `--verbose` line echoing the budget spec.
pub fn verbose_budget_line(spec: &str) -> (r: String)
    ensures
        r@ == "[agentns-launch] budget="@ + spec@,
{
    let mut r = String::from_str("[agentns-launch] budget=");
    r.append(spec);
    r
}

/// The stderr line reporting that exec of `program` failed with the error
/// text `err`.
pub fn exec_failure_line(program: &str, err: &str) -> (r: String)
    ensures
        r@ == "agentns-launch: exec "@ + program@ + ": "@ + err@,
{
    let mut r = String::from_str("agentns-launch: exec ");
    r.append(program);
    r.append(": ");
    r.append(err);
    r
}

/// Why exec of the wrapped command failed.
#[derive(Clone, Copy, Debug, PartialEq, Eq, Structural)]
pub enum ExecFailure {
    /// The program was not found.
    NotFound,
    /// The program was found but could not be executed.
    PermissionDenied,
    /// Any other failure.
    Other,
}

/// Exit status after a failed exec: 127 for a missing program, 126 for one
/// that cannot be executed, 2 otherwise.
pub fn exec_failure_exit_code(f: ExecFailure) -> (r: u8)
    ensures
        r == match f {
            ExecFailure::NotFound => 127u8,
            ExecFailure::PermissionDenied => 126u8,
            ExecFailure::Other => 2u8,
        },
{
    match f {
        ExecFailure::NotFound => 127,
        ExecFailure::PermissionDenied => 126,
        ExecFailure::Other => 2,
    }
}

/// Exit status when the launcher itself fails (an error before exec, or an
/// empty command).
pub const LAUNCHER_FAILURE_EXIT_CODE: u8 = 2;

} // verus!
