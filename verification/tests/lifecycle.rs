use vmctl::create::Create;
use vmctl::create::CreateAction;
use vmctl::create::CreateEvent;
use vmctl::create::CreateState;
use vmctl::create::linux_config;
use vmctl::create::macos_config;
use vmctl::escalate::stop_transition;
use vmctl::escalate::StopAction;
use vmctl::escalate::StopEvent;
use vmctl::escalate::StopState;
use vmctl::exception::ErrorKind;
use vmctl::exception::Exception;
use vmctl::stop::poll_step;
use vmctl::stop::PollOutcome;
use vmctl::stop::Stop;
use vmctl::vm_config::Os;

fn linux_create() -> Create {
    Create { name: "x".to_string(), os: Os::Linux, disk_size: 50, ipsw: None }
}

// The escalation scenario: a guest that never acknowledges the
// cooperative stop is forced at the deadline, fifteen units after the
// request, and not one tick before.
#[test]
fn escalation_forces_at_timeout_and_not_before() {
    let (s, a) = stop_transition(
        StopState::Running,
        StopEvent::StopInvoked { now: 0, cooperative_supported: true },
    );
    assert_eq!(s, StopState::StopRequested { deadline: 15 });
    assert_eq!(a, StopAction::RequestCooperativeStop { deadline: 15 });

    let mut state = s;
    for now in 1..15u64 {
        let (next, action) = stop_transition(state, StopEvent::TimerFired { now });
        assert_eq!(next, StopState::StopRequested { deadline: 15 });
        assert_eq!(action, StopAction::Ignore);
        state = next;
    }

    let (forced, action) = stop_transition(state, StopEvent::TimerFired { now: 15 });
    assert_eq!(forced, StopState::ForceStopPending);
    assert_eq!(action, StopAction::IssueForceStop);

    let (done, action) = stop_transition(forced, StopEvent::ForceStopCompleted { ok: true });
    assert_eq!(done, StopState::StoppedForcefully);
    assert_eq!(action, StopAction::ExitSuccess);
}

#[test]
fn cooperative_stop_acknowledged_in_time() {
    let (s, _) = stop_transition(
        StopState::Running,
        StopEvent::StopInvoked { now: 3, cooperative_supported: true },
    );
    assert_eq!(s, StopState::StopRequested { deadline: 18 });
    let (s, a) = stop_transition(s, StopEvent::GuestStopped);
    assert_eq!(s, StopState::StoppedGracefully);
    assert_eq!(a, StopAction::ExitSuccess);
}

#[test]
fn unsupported_cooperative_stop_goes_straight_to_force() {
    let (s, a) = stop_transition(
        StopState::Running,
        StopEvent::StopInvoked { now: 0, cooperative_supported: false },
    );
    assert_eq!(s, StopState::ForceStopPending);
    assert_eq!(a, StopAction::IssueForceStop);
}

#[test]
fn late_acknowledgement_after_force_is_ignored() {
    let (s, a) = stop_transition(StopState::ForceStopPending, StopEvent::GuestStopped);
    assert_eq!(s, StopState::ForceStopPending);
    assert_eq!(a, StopAction::Ignore);
}

#[test]
fn unstoppable_guest_is_fatal() {
    let (s, a) = stop_transition(StopState::ForceStopPending, StopEvent::ForceStopRefused);
    assert_eq!(s, StopState::FailedToStop);
    assert_eq!(a, StopAction::ExitFailure);
}

#[test]
fn terminal_states_absorb_everything() {
    for terminal in [
        StopState::StoppedGracefully,
        StopState::StoppedForcefully,
        StopState::FailedToStop,
    ] {
        let (s, a) = stop_transition(terminal, StopEvent::TimerFired { now: 99 });
        assert_eq!(s, terminal);
        assert_eq!(a, StopAction::Ignore);
    }
}

// The stop command fails at once, with no waiting, when there is no pid
// marker.
#[test]
fn stop_without_pid_marker_fails_immediately() {
    let cmd = Stop { name: "x".to_string() };
    match cmd.precheck(true, None) {
        Err(Exception::NotFoundError(m)) => assert_eq!(m, "vm not running, name=x"),
        other => panic!("expected a not-found error, got {:?}", other),
    }
}

#[test]
fn stop_of_uninitialized_vm_fails_immediately() {
    let cmd = Stop { name: "ghost".to_string() };
    match cmd.precheck(false, Some(4242)) {
        Err(Exception::NotFoundError(m)) => assert_eq!(m, "vm not initialized, name=ghost"),
        other => panic!("expected a not-found error, got {:?}", other),
    }
}

#[test]
fn stop_with_live_pid_proceeds() {
    let cmd = Stop { name: "x".to_string() };
    assert_eq!(cmd.precheck(true, Some(4242)).unwrap(), 4242);
}

#[test]
fn poll_gives_up_after_twenty_rounds() {
    let mut attempts: u64 = 0;
    let mut rounds = 0;
    loop {
        rounds += 1;
        match poll_step(attempts, false) {
            PollOutcome::Continue { attempts: next } => attempts = next,
            PollOutcome::GiveUp => break,
            PollOutcome::Stopped => panic!("guest never stopped"),
        }
    }
    assert_eq!(rounds, 20);
}

#[test]
fn poll_stops_as_soon_as_marker_is_gone() {
    assert_eq!(poll_step(0, true), PollOutcome::Stopped);
    assert_eq!(poll_step(19, true), PollOutcome::Stopped);
}

// Creating over an existing name fails validation and orders nothing but
// the error report; the existing VM is untouched.
#[test]
fn create_rejects_existing_name() {
    let c = linux_create();
    let (s, a) = c.step(
        CreateState::Start,
        CreateEvent::Begin { ipsw_exists: false, already_initialized: true },
    );
    assert_eq!(s, CreateState::Failed { error: ErrorKind::Validation });
    assert_eq!(a, CreateAction::Fail { error: ErrorKind::Validation });
}

#[test]
fn create_macos_requires_restore_image() {
    let c = Create { name: "m".to_string(), os: Os::MacOs, disk_size: 50, ipsw: None };
    match c.validate(false) {
        Err(Exception::ValidationError(m)) => assert_eq!(m, "ipsw is required for macOS vm"),
        other => panic!("expected a validation error, got {:?}", other),
    }
    let c = Create {
        name: "m".to_string(),
        os: Os::MacOs,
        disk_size: 50,
        ipsw: Some("/tmp/restore.ipsw".to_string()),
    };
    match c.validate(false) {
        Err(Exception::ValidationError(m)) => {
            assert_eq!(m, "ipsw does not exist, path=/tmp/restore.ipsw")
        }
        other => panic!("expected a validation error, got {:?}", other),
    }
    assert!(c.validate(true).is_ok());
}

#[test]
fn create_happy_path_orders_the_right_actions() {
    let c = linux_create();
    let ok: Result<(), ErrorKind> = Ok(());
    let (s, a) = c.step(
        CreateState::Start,
        CreateEvent::Begin { ipsw_exists: false, already_initialized: false },
    );
    assert_eq!(s, CreateState::TempAllocating);
    assert_eq!(a, CreateAction::AllocTempDir);
    let (s, a) = c.step(s, CreateEvent::TempDirReady { outcome: ok });
    assert_eq!(s, CreateState::DiskSizing);
    assert_eq!(a, CreateAction::ResizeDisk { bytes: 50_000_000_000 });
    let (s, a) = c.step(s, CreateEvent::DiskResized { outcome: ok });
    assert_eq!(s, CreateState::EngineInitializing);
    assert_eq!(a, CreateAction::InitEngine);
    let (s, a) = c.step(s, CreateEvent::EngineReady { outcome: ok });
    assert_eq!(s, CreateState::ConfigSaving);
    assert_eq!(a, CreateAction::SaveConfig);
    let (s, a) = c.step(s, CreateEvent::ConfigSaved { outcome: ok });
    assert_eq!(s, CreateState::Committing);
    assert_eq!(a, CreateAction::CommitRename);
    let (s, a) = c.step(s, CreateEvent::CommitDone { outcome: ok });
    assert_eq!(s, CreateState::Created);
    assert_eq!(a, CreateAction::Finish);
}

// Interrupting the workflow after the disk resize but before the config
// save never orders the commit rename: nothing appears at the final path.
#[test]
fn create_interrupted_before_config_save_never_commits() {
    let c = linux_create();
    let ok: Result<(), ErrorKind> = Ok(());
    let (s, _) = c.step(
        CreateState::Start,
        CreateEvent::Begin { ipsw_exists: false, already_initialized: false },
    );
    let (s, _) = c.step(s, CreateEvent::TempDirReady { outcome: ok });
    let (s, _) = c.step(s, CreateEvent::DiskResized { outcome: ok });
    let (s, a) = c.step(s, CreateEvent::EngineReady { outcome: Err(ErrorKind::Engine) });
    assert_eq!(s, CreateState::Failed { error: ErrorKind::Engine });
    assert_eq!(a, CreateAction::Fail { error: ErrorKind::Engine });
    // A failed run absorbs whatever still arrives; it never commits.
    let (s, a) = c.step(s, CreateEvent::ConfigSaved { outcome: ok });
    assert_eq!(s, CreateState::Failed { error: ErrorKind::Engine });
    assert_eq!(a, CreateAction::Ignore);
}

#[test]
fn create_commit_collision_reports_already_exists() {
    let c = linux_create();
    let (s, a) = c.step(
        CreateState::Committing,
        CreateEvent::CommitDone { outcome: Err(ErrorKind::AlreadyExists) },
    );
    assert_eq!(s, CreateState::Failed { error: ErrorKind::AlreadyExists });
    assert_eq!(a, CreateAction::Fail { error: ErrorKind::AlreadyExists });
}

#[test]
fn linux_config_defaults() {
    let cfg = linux_config("52:54:00:aa:bb:cc".to_string());
    assert_eq!(cfg.os, Os::Linux);
    assert_eq!(cfg.cpu, 1);
    assert_eq!(cfg.memory, 1_073_741_824);
    assert_eq!(cfg.mac_address, "52:54:00:aa:bb:cc");
    assert!(cfg.sharing.is_empty());
    assert_eq!(cfg.rosetta, Some(false));
    assert_eq!(cfg.hardware_model, None);
    assert_eq!(cfg.machine_identifier, None);
}

#[test]
fn macos_config_clamps_to_minimums() {
    let cfg = macos_config(
        2,
        4_294_967_296,
        "52:54:00:aa:bb:cc".to_string(),
        "model".to_string(),
        "identifier".to_string(),
    );
    assert_eq!(cfg.cpu, 4);
    assert_eq!(cfg.memory, 8_589_934_592);
    let cfg = macos_config(
        8,
        17_179_869_184,
        "52:54:00:aa:bb:cc".to_string(),
        "model".to_string(),
        "identifier".to_string(),
    );
    assert_eq!(cfg.cpu, 8);
    assert_eq!(cfg.memory, 17_179_869_184);
    assert_eq!(cfg.rosetta, None);
    assert_eq!(cfg.hardware_model, Some("model".to_string()));
    assert_eq!(cfg.machine_identifier, Some("identifier".to_string()));
}
