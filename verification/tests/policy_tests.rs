use process_killer::manager::ProcessManager;
use process_killer::policy::{is_critical_process, is_system_service, ProcessError};
use process_killer::process::ProcessInfo;

fn record(pid: u32, name: &str) -> ProcessInfo {
    ProcessInfo {
        pid,
        name: name.to_string(),
        cpu_usage: 0,
        memory: 0,
        status: "Run".to_string(),
        is_system: is_system_service(name) || is_critical_process(name),
    }
}

#[test]
fn critical_names_match_exactly() {
    assert!(is_critical_process("init"));
    assert!(is_critical_process("systemd"));
    assert!(is_critical_process("kthreadd"));
    assert!(is_critical_process("kswapd0"));
    // prefix of a critical name is not critical: the match is exact
    assert!(!is_critical_process("initd"));
    assert!(!is_critical_process("ini"));
    assert!(!is_critical_process("myapp"));
    assert!(!is_critical_process(""));
}

#[test]
fn system_services_match_by_prefix() {
    assert!(is_system_service("sshd"));
    assert!(is_system_service("sshd-session"));
    assert!(is_system_service("systemd-journald"));
    assert!(is_system_service("NetworkManager"));
    assert!(is_system_service("dockerd"));
    assert!(!is_system_service("myapp"));
    assert!(!is_system_service("ssh"));
    assert!(!is_system_service(""));
}

#[test]
fn can_kill_blocks_protected_name() {
    let mgr = ProcessManager::new();
    let rec = record(1, "init");
    assert_eq!(
        mgr.can_kill_process(&rec),
        Err(ProcessError::Protected("init".to_string()))
    );
}

#[test]
fn can_kill_allows_system_service_flagged_record() {
    // flagged for the UI, but not policy-blocked: only the critical set blocks
    let mgr = ProcessManager::new();
    let rec = record(1234, "sshd-session");
    assert!(rec.is_system);
    assert_eq!(mgr.can_kill_process(&rec), Ok(()));
}

#[test]
fn can_kill_allows_ordinary_name() {
    let mgr = ProcessManager::new();
    let rec = record(4242, "myapp");
    assert!(!rec.is_system);
    assert_eq!(mgr.can_kill_process(&rec), Ok(()));
}

#[test]
fn can_kill_is_idempotent() {
    let mgr = ProcessManager::new();
    for name in ["init", "sshd", "myapp", "kswapd0"] {
        let rec = record(7, name);
        let first = mgr.can_kill_process(&rec);
        let second = mgr.can_kill_process(&rec);
        assert_eq!(first, second);
    }
}

#[test]
fn error_messages_render() {
    assert_eq!(ProcessError::NotFound.message(), "Process not found");
    assert_eq!(ProcessError::PermissionDenied.message(), "Permission denied");
    assert_eq!(
        ProcessError::Protected("init".to_string()).message(),
        "Protected process: init"
    );
    assert_eq!(
        ProcessError::SignalFailed("ESRCH".to_string()).message(),
        "Signal failed: ESRCH"
    );
    assert_eq!(
        ProcessError::Unknown("odd".to_string()).message(),
        "Unknown error: odd"
    );
}
