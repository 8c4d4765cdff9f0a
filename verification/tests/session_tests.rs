use process_killer::config::Config;
use process_killer::manager::{signal_kind_for, signal_outcome, SignalKind};
use process_killer::policy::{is_critical_process, is_system_service, ProcessError};
use process_killer::process::ProcessInfo;
use process_killer::session::{
    filter_processes, kill_step, limit_visible, ConfirmationMode, KillAction, KillEvent,
    KillState, VISIBLE_LIMIT,
};

fn record(pid: u32, name: &str) -> ProcessInfo {
    ProcessInfo {
        pid,
        name: name.to_string(),
        cpu_usage: 0,
        memory: 0,
        status: "Run".to_string(),
        is_system: is_system_service(name) || is_critical_process(name),
    }
}

#[test]
fn request_for_unknown_pid_notifies_not_found() {
    let procs = vec![record(1, "init")];
    let (state, action) = kill_step(
        KillState::Idle,
        KillEvent::Request { pid: 9999, forceful: false },
        &procs,
    );
    assert_eq!(state, KillState::Idle);
    assert_eq!(action, KillAction::Notify(ProcessError::NotFound));
}

#[test]
fn request_for_protected_record_notifies_protected() {
    let procs = vec![record(1, "init"), record(4242, "myapp")];
    let (state, action) = kill_step(
        KillState::Idle,
        KillEvent::Request { pid: 1, forceful: true },
        &procs,
    );
    assert_eq!(state, KillState::Idle);
    assert_eq!(
        action,
        KillAction::Notify(ProcessError::Protected("init".to_string()))
    );
}

#[test]
fn request_for_killable_record_awaits_confirmation() {
    let procs = vec![record(1, "init"), record(4242, "myapp")];
    let (state, action) = kill_step(
        KillState::Idle,
        KillEvent::Request { pid: 4242, forceful: false },
        &procs,
    );
    assert_eq!(action, KillAction::DoNothing);
    assert_eq!(
        state,
        KillState::AwaitingConfirmation { target: record(4242, "myapp"), mode: ConfirmationMode::Kill }
    );
}

#[test]
fn forceful_request_awaits_force_kill_confirmation() {
    let procs = vec![record(4242, "myapp")];
    let (state, _) = kill_step(
        KillState::Idle,
        KillEvent::Request { pid: 4242, forceful: true },
        &procs,
    );
    match state {
        KillState::AwaitingConfirmation { target, mode } => {
            assert_eq!(target.pid, 4242);
            assert_eq!(mode, ConfirmationMode::ForceKill);
        }
        other => panic!("expected a pending confirmation, got {:?}", other),
    }
}

#[test]
fn new_request_replaces_pending_target() {
    let procs = vec![record(4242, "myapp"), record(77, "helper")];
    let pending = KillState::AwaitingConfirmation {
        target: record(4242, "myapp"),
        mode: ConfirmationMode::Kill,
    };
    let (state, action) = kill_step(
        pending,
        KillEvent::Request { pid: 77, forceful: false },
        &procs,
    );
    assert_eq!(action, KillAction::DoNothing);
    assert_eq!(
        state,
        KillState::AwaitingConfirmation { target: record(77, "helper"), mode: ConfirmationMode::Kill }
    );
}

#[test]
fn failed_request_leaves_pending_target_in_place() {
    let procs = vec![record(1, "init"), record(4242, "myapp")];
    let pending = KillState::AwaitingConfirmation {
        target: record(4242, "myapp"),
        mode: ConfirmationMode::Kill,
    };
    // unknown PID: the notice is surfaced, the pending confirmation stays
    let (state, action) = kill_step(
        pending,
        KillEvent::Request { pid: 9999, forceful: false },
        &procs,
    );
    assert_eq!(action, KillAction::Notify(ProcessError::NotFound));
    assert_eq!(
        state,
        KillState::AwaitingConfirmation { target: record(4242, "myapp"), mode: ConfirmationMode::Kill }
    );
    // protected name: likewise
    let (state, action) = kill_step(
        state,
        KillEvent::Request { pid: 1, forceful: false },
        &procs,
    );
    assert_eq!(
        action,
        KillAction::Notify(ProcessError::Protected("init".to_string()))
    );
    assert_eq!(
        state,
        KillState::AwaitingConfirmation { target: record(4242, "myapp"), mode: ConfirmationMode::Kill }
    );
}

#[test]
fn cancel_drops_pending_target() {
    let procs = vec![record(4242, "myapp")];
    let pending = KillState::AwaitingConfirmation {
        target: record(4242, "myapp"),
        mode: ConfirmationMode::ForceKill,
    };
    let (state, action) = kill_step(pending, KillEvent::Cancel, &procs);
    assert_eq!(state, KillState::Idle);
    assert_eq!(action, KillAction::DoNothing);
}

#[test]
fn confirm_dispatches_the_pending_kill() {
    let procs = vec![record(4242, "myapp")];
    let pending = KillState::AwaitingConfirmation {
        target: record(4242, "myapp"),
        mode: ConfirmationMode::Kill,
    };
    let (state, action) = kill_step(pending, KillEvent::Confirm, &procs);
    assert_eq!(state, KillState::Idle);
    assert_eq!(action, KillAction::Terminate { pid: 4242, forceful: false });

    let pending_force = KillState::AwaitingConfirmation {
        target: record(4242, "myapp"),
        mode: ConfirmationMode::ForceKill,
    };
    let (_, action_force) = kill_step(pending_force, KillEvent::Confirm, &procs);
    assert_eq!(action_force, KillAction::Terminate { pid: 4242, forceful: true });
}

#[test]
fn confirm_when_idle_does_nothing() {
    let procs = vec![record(4242, "myapp")];
    let (state, action) = kill_step(KillState::Idle, KillEvent::Confirm, &procs);
    assert_eq!(state, KillState::Idle);
    assert_eq!(action, KillAction::DoNothing);
}

#[test]
fn empty_query_keeps_everything() {
    let procs = vec![record(1, "init"), record(4242, "myapp")];
    let kept = filter_processes(&procs, "");
    assert_eq!(kept.len(), 2);
    assert_eq!(kept[0].name, "init");
    assert_eq!(kept[1].name, "myapp");
}

#[test]
fn query_matches_name_case_insensitively() {
    let procs = vec![record(1, "MyApp"), record(2, "other")];
    let kept = filter_processes(&procs, "MYAPP");
    assert_eq!(kept.len(), 1);
    assert_eq!(kept[0].pid, 1);
    let none = filter_processes(&procs, "missing");
    assert!(none.is_empty());
}

#[test]
fn query_matches_pid_digits() {
    let procs = vec![record(4242, "a"), record(77, "b")];
    let kept = filter_processes(&procs, "42");
    assert_eq!(kept.len(), 1);
    assert_eq!(kept[0].pid, 4242);
}

#[test]
fn visible_rows_are_capped_unless_showing_all() {
    let procs: Vec<ProcessInfo> = (0..15u32).map(|i| record(i, "p")).collect();
    let capped = limit_visible(procs.clone(), false);
    assert_eq!(capped.len(), VISIBLE_LIMIT);
    assert_eq!(capped[0].pid, 0);
    let all = limit_visible(procs, true);
    assert_eq!(all.len(), 15);
}

#[test]
fn signal_kinds_are_distinguishable() {
    assert_eq!(signal_kind_for(false), SignalKind::Graceful);
    assert_eq!(signal_kind_for(true), SignalKind::Forceful);
    assert_ne!(signal_kind_for(false), signal_kind_for(true));
}

#[test]
fn signal_outcome_classifies_each_refusal() {
    assert_eq!(signal_outcome(Ok(())), Ok(()));
    // EPERM: refused for lack of privilege
    assert_eq!(
        signal_outcome(Err((1, "Operation not permitted".to_string()))),
        Err(ProcessError::PermissionDenied)
    );
    // ESRCH: no such process
    assert_eq!(
        signal_outcome(Err((3, "No such process".to_string()))),
        Err(ProcessError::SignalFailed("No such process".to_string()))
    );
}

#[test]
fn default_config_leaves_choices_to_the_host() {
    let c = Config::default();
    assert_eq!(c.cpu_threshold, None);
    assert_eq!(c.refresh_interval, None);
}
