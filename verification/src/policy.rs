//! The static protection policy: classification of process names as
//! system services or critical processes, the killability verdict, and the
//! error taxonomy for process operations.

use vstd::prelude::*;
use vstd::string::StringExecFns;
use crate::text::{str_eq, str_starts_with};

verus! {

/// Result type for process operations with error context.
pub type ProcessResult<T> = Result<T, ProcessError>;

/// Error kinds for process operations.
#[derive(Debug, Clone, PartialEq)]
pub enum ProcessError {
    /// The requested process no longer exists.
    NotFound,
    /// The OS rejected the request for lack of privilege.
    PermissionDenied,
    /// The process matches the critical-process set; carries the name.
    Protected(String),
    /// The OS rejected the signal; carries the OS-provided detail.
    SignalFailed(String),
    /// Any other OS failure; detail preserved for diagnostics.
    Unknown(String),
}

/// The user-facing text for each error kind.
pub open spec fn message_of(e: ProcessError) -> Seq<char> {
    match e {
        ProcessError::NotFound => "Process not found"@,
        ProcessError::PermissionDenied => "Permission denied"@,
        ProcessError::Protected(name) => "Protected process: "@ + name@,
        ProcessError::SignalFailed(msg) => "Signal failed: "@ + msg@,
        ProcessError::Unknown(msg) => "Unknown error: "@ + msg@,
    }
}

impl ProcessError {
    /// Renders the error as text for user messaging.
    pub fn message(&self) -> (r: String)
        ensures
            r@ == message_of(*self),
    {
        match self {
            ProcessError::NotFound => String::from_str("Process not found"),
            ProcessError::PermissionDenied => String::from_str("Permission denied"),
            ProcessError::Protected(name) => {
                let mut s = String::from_str("Protected process: ");
                s.append(name.as_str());
                s
            },
            ProcessError::SignalFailed(msg) => {
                let mut s = String::from_str("Signal failed: ");
                s.append(msg.as_str());
                s
            },
            ProcessError::Unknown(msg) => {
                let mut s = String::from_str("Unknown error: ");
                s.append(msg.as_str());
                s
            },
        }
    }
}

/// A name matches a known system service when it starts with one of a
/// fixed set of daemon names.
pub open spec fn spec_is_system_service(name: Seq<char>) -> bool {
    ||| "systemd"@.is_prefix_of(name)
    ||| "dbus-daemon"@.is_prefix_of(name)
    ||| "dbus-broker"@.is_prefix_of(name)
    ||| "NetworkManager"@.is_prefix_of(name)
    ||| "containerd"@.is_prefix_of(name)
    ||| "dockerd"@.is_prefix_of(name)
    ||| "kubelet"@.is_prefix_of(name)
    ||| "coredns"@.is_prefix_of(name)
    ||| "sshd"@.is_prefix_of(name)
    ||| "rsyslogd"@.is_prefix_of(name)
    ||| "cron"@.is_prefix_of(name)
    ||| "atd"@.is_prefix_of(name)
    ||| "polkitd"@.is_prefix_of(name)
    ||| "avahi-daemon"@.is_prefix_of(name)
    ||| "cupsd"@.is_prefix_of(name)
    ||| "bluetoothd"@.is_prefix_of(name)
    ||| "firewalld"@.is_prefix_of(name)
    ||| "iptables"@.is_prefix_of(name)
    ||| "nftables"@.is_prefix_of(name)
    ||| "systemd-resolved"@.is_prefix_of(name)
    ||| "systemd-logind"@.is_prefix_of(name)
    ||| "systemd-udevd"@.is_prefix_of(name)
}

/// A name matches the critical-process set when it exactly equals one of a
/// fixed set of kernel/init-level process names.
pub open spec fn spec_is_critical_process(name: Seq<char>) -> bool {
    ||| name == "init"@
    ||| name == "systemd"@
    ||| name == "kthreadd"@
    ||| name == "migration"@
    ||| name == "rcu_sched"@
    ||| name == "lru-add-drain"@
    ||| name == "watchdog"@
    ||| name == "cpuhp"@
    ||| name == "netns"@
    ||| name == "rcu_bh"@
    ||| name == "kasimer"@
    ||| name == "writeback"@
    ||| name == "kprobe"@
    ||| name == "khungtaskd"@
    ||| name == "oom_reaper"@
    ||| name == "ksmd"@
    ||| name == "khugepaged"@
    ||| name == "crypto"@
    ||| name == "kintegrityd"@
    ||| name == "kblockd"@
    ||| name == "edac-poller"@
    ||| name == "devfreq_wq"@
    ||| name == "watchdogd"@
    ||| name == "kswapd0"@
}

/// Checks whether a process name matches a known system service.
pub fn is_system_service(name: &str) -> (r: bool)
    ensures
        r == spec_is_system_service(name@),
{
    str_starts_with(name, "systemd") || str_starts_with(name, "dbus-daemon")
        || str_starts_with(name, "dbus-broker") || str_starts_with(name, "NetworkManager")
        || str_starts_with(name, "containerd") || str_starts_with(name, "dockerd")
        || str_starts_with(name, "kubelet") || str_starts_with(name, "coredns")
        || str_starts_with(name, "sshd") || str_starts_with(name, "rsyslogd")
        || str_starts_with(name, "cron") || str_starts_with(name, "atd")
        || str_starts_with(name, "polkitd") || str_starts_with(name, "avahi-daemon")
        || str_starts_with(name, "cupsd") || str_starts_with(name, "bluetoothd")
        || str_starts_with(name, "firewalld") || str_starts_with(name, "iptables")
        || str_starts_with(name, "nftables") || str_starts_with(name, "systemd-resolved")
        || str_starts_with(name, "systemd-logind") || str_starts_with(name, "systemd-udevd")
}

/// Checks whether a process name is a critical system process that must be
/// protected from termination.
pub fn is_critical_process(name: &str) -> (r: bool)
    ensures
        r == spec_is_critical_process(name@),
{
    str_eq(name, "init") || str_eq(name, "systemd") || str_eq(name, "kthreadd")
        || str_eq(name, "migration") || str_eq(name, "rcu_sched")
        || str_eq(name, "lru-add-drain") || str_eq(name, "watchdog") || str_eq(name, "cpuhp")
        || str_eq(name, "netns") || str_eq(name, "rcu_bh") || str_eq(name, "kasimer")
        || str_eq(name, "writeback") || str_eq(name, "kprobe") || str_eq(name, "khungtaskd")
        || str_eq(name, "oom_reaper") || str_eq(name, "ksmd") || str_eq(name, "khugepaged")
        || str_eq(name, "crypto") || str_eq(name, "kintegrityd") || str_eq(name, "kblockd")
        || str_eq(name, "edac-poller") || str_eq(name, "devfreq_wq") || str_eq(name, "watchdogd")
        || str_eq(name, "kswapd0")
}

/// The killability verdict for a process name: protected exactly when the
/// name matches the critical-process set; system-service matches are
/// flagged visually but not blocked.
pub open spec fn kill_verdict(name: String) -> Result<(), ProcessError> {
    if spec_is_critical_process(name@) {
        Err(ProcessError::Protected(name))
    } else {
        Ok(())
    }
}

/// Killability is a pure function of the record's name alone: any two
/// records carrying the same name — in particular, the same record asked
/// twice — receive the same verdict.
pub proof fn lemma_kill_verdict_pure(a: String, b: String)
    requires
        a == b,
    ensures
        kill_verdict(a) == kill_verdict(b),
{
}

} // verus!
