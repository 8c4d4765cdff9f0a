//! The process manager: snapshots of the OS process table and signal-based
//! termination. The OS reads and signal sends stand behind small trusted
//! wrappers; everything around them — classification, sorting, filtering,
//! the killability verdict and the error mapping — is verified.

use vstd::prelude::*;
use vstd::string::StringExecFns;
use crate::policy::{is_critical_process, kill_verdict, ProcessError, ProcessResult};
use crate::process::{
    build_snapshot, classified, distinct_pids, distinct_raw_pids, filter_high_cpu,
    find_in_table, high_cpu_of, record_le, sorted_of, ProcessInfo, RawProcess, SortBy,
};
use crate::policy::{spec_is_critical_process, spec_is_system_service};

verus! {

broadcast use vstd::seq_lib::group_to_multiset_ensures;

#[verifier::external_type_specification]
#[verifier::external_body]
pub struct ExSystem(sysinfo::System);

/// Relies on `sysinfo::System::new_all`: a process-table reader with every
/// field refreshed once, holding the cache that later CPU deltas build on.
#[verifier::external_body]
fn new_system() -> sysinfo::System {
    sysinfo::System::new_all()
}

/// Relies on `sysinfo::System::refresh_all`: re-reads the whole OS state,
/// updating the reader's internal delta-tracking cache.
#[verifier::external_body]
fn refresh_all(sys: &mut sysinfo::System) {
    sys.refresh_all();
}

/// Relies on `sysinfo::System::refresh_processes_specifics`: re-reads all
/// live processes in full and drops the dead ones from the table.
#[verifier::external_body]
fn refresh_process_table(sys: &mut sysinfo::System) {
    sys.refresh_processes_specifics(
        sysinfo::ProcessesToUpdate::All,
        true,
        sysinfo::ProcessRefreshKind::everything(),
    );
}

/// Relies on `sysinfo::System::processes` — one map entry per live process,
/// keyed by its PID, so the rows carry pairwise distinct PIDs — and on the
/// accessors `Pid::as_u32`, `Process::name` (lossily converted to text),
/// `Process::cpu_usage` (the `f32` carried as its bit pattern),
/// `Process::memory` and `Process::status` (debug-rendered).
#[verifier::external_body]
fn read_process_table(sys: &sysinfo::System) -> (r: Vec<RawProcess>)
    ensures
        distinct_raw_pids(r@),
{
    sys.processes()
        .iter()
        .map(|(pid, p)| RawProcess {
            pid: pid.as_u32(),
            name: p.name().to_string_lossy().to_string(),
            cpu_usage: p.cpu_usage().to_bits(),
            memory: p.memory(),
            status: format!("{:?}", p.status()),
        })
        .collect()
}

/// Relies on `nix::sys::signal::kill` with `SIGTERM`: asks the process to
/// exit cleanly; an OS refusal is handed back as its errno number beside
/// its error text. Only in-range PIDs reach the `pid_t` cast, so the
/// request targets the one process, never a group.
#[verifier::external_body]
fn send_sigterm(pid: u32) -> (r: Result<(), (i32, String)>)
    requires
        1 <= pid <= i32::MAX as u32,
{
    match nix::sys::signal::kill(
        nix::unistd::Pid::from_raw(pid as i32),
        nix::sys::signal::Signal::SIGTERM,
    ) {
        Ok(()) => Ok(()),
        Err(e) => Err((e as i32, e.to_string())),
    }
}

/// Relies on `nix::sys::signal::kill` with `SIGKILL`: terminates the
/// process unconditionally; an OS refusal is handed back as its errno
/// number beside its error text. Only in-range PIDs reach the `pid_t`
/// cast, so the request targets the one process, never a group.
#[verifier::external_body]
fn send_sigkill(pid: u32) -> (r: Result<(), (i32, String)>)
    requires
        1 <= pid <= i32::MAX as u32,
{
    match nix::sys::signal::kill(
        nix::unistd::Pid::from_raw(pid as i32),
        nix::sys::signal::Signal::SIGKILL,
    ) {
        Ok(()) => Ok(()),
        Err(e) => Err((e as i32, e.to_string())),
    }
}

/// The POSIX errno for "operation not permitted": a signal the OS refused
/// for lack of privilege.
pub const EPERM_CODE: i32 = 1;

/// The PIDs a termination request may target: positive, and within the
/// OS's `pid_t` range. Zero and negative `pid_t` values address process
/// groups, which this controller never does.
pub open spec fn pid_in_range(pid: u32) -> bool {
    1 <= pid <= i32::MAX as u32
}

/// The two signal kinds the controller can request from the OS layer.
#[derive(Debug, Clone, Copy, PartialEq, Eq, Structural)]
pub enum SignalKind {
    /// A clean-exit request, equivalent to `SIGTERM`.
    Graceful,
    /// An unconditional termination, equivalent to `SIGKILL`.
    Forceful,
}

/// The signal kind a termination request maps to: a forceful request asks
/// for unconditional termination, any other for a clean exit.
pub fn signal_kind_for(forceful: bool) -> (r: SignalKind)
    ensures
        r == (if forceful {
            SignalKind::Forceful
        } else {
            SignalKind::Graceful
        }),
{
    if forceful {
        SignalKind::Forceful
    } else {
        SignalKind::Graceful
    }
}

/// Maps the OS's answer to a signal send onto the termination result:
/// success passes through, a refusal for lack of privilege (`EPERM`)
/// becomes `PermissionDenied`, and any other refusal becomes
/// `SignalFailed` carrying the OS's detail text.
pub fn signal_outcome(res: Result<(), (i32, String)>) -> (r: ProcessResult<()>)
    ensures
        res is Ok ==> r is Ok,
        res matches Err(e) ==> r == Err::<(), ProcessError>(
            if e.0 == EPERM_CODE {
                ProcessError::PermissionDenied
            } else {
                ProcessError::SignalFailed(e.1)
            },
        ),
{
    match res {
        Ok(()) => Ok(()),
        Err((errno, msg)) => {
            if errno == EPERM_CODE {
                Err(ProcessError::PermissionDenied)
            } else {
                Err(ProcessError::SignalFailed(msg))
            }
        },
    }
}

/// Every record the high-CPU filter keeps lies above the threshold and
/// comes from the filtered snapshot.
proof fn lemma_high_cpu_contains(s: Seq<ProcessInfo>, threshold: u32)
    ensures
        forall|k: int|
            0 <= k < high_cpu_of(s, threshold).len() ==> s.contains(
                #[trigger] high_cpu_of(s, threshold)[k],
            ) && high_cpu_of(s, threshold)[k].cpu_usage > threshold,
    decreases s.len(),
{
    if s.len() > 0 {
        lemma_high_cpu_contains(s.drop_first(), threshold);
        let h = high_cpu_of(s, threshold);
        let hr = high_cpu_of(s.drop_first(), threshold);
        assert forall|k: int|
            0 <= k < h.len() implies s.contains(#[trigger] h[k]) && h[k].cpu_usage > threshold by {
            if s[0].cpu_usage > threshold && k == 0 {
                assert(h[0] == s[0]);
            } else {
                let k2 = if s[0].cpu_usage > threshold {
                    k - 1
                } else {
                    k
                };
                assert(h[k] == hr[k2]);
                let j = choose|j: int| 0 <= j < s.drop_first().len() && s.drop_first()[j] == hr[k2];
                assert(s[j + 1] == hr[k2]);
            }
        }
    }
}

/// The high-CPU filter keeps a sorted snapshot sorted.
proof fn lemma_high_cpu_sorted(by: SortBy, s: Seq<ProcessInfo>, threshold: u32)
    requires
        sorted_of(by, s),
    ensures
        sorted_of(by, high_cpu_of(s, threshold)),
    decreases s.len(),
{
    if s.len() > 0 {
        let rest = s.drop_first();
        assert(sorted_of(by, rest)) by {
            assert(forall|i: int, j: int|
                0 <= i < j < rest.len() ==> record_le(by, s[i + 1], s[j + 1]) && rest[i] == s[i + 1]
                    && rest[j] == s[j + 1]);
        }
        lemma_high_cpu_sorted(by, rest, threshold);
        lemma_high_cpu_contains(rest, threshold);
        let h = high_cpu_of(s, threshold);
        let hr = high_cpu_of(rest, threshold);
        if s[0].cpu_usage > threshold {
            assert forall|i: int, j: int| 0 <= i < j < h.len() implies record_le(
                by,
                h[i],
                h[j],
            ) by {
                if i == 0 {
                    let x = hr[j - 1];
                    let m = choose|m: int| 0 <= m < rest.len() && rest[m] == x;
                    assert(record_le(by, s[0], s[m + 1]));
                } else {
                    assert(h[i] == hr[i - 1] && h[j] == hr[j - 1]);
                }
            }
        }
    }
}

/// The high-CPU filter keeps distinct PIDs distinct.
proof fn lemma_high_cpu_distinct(s: Seq<ProcessInfo>, threshold: u32)
    requires
        distinct_pids(s),
    ensures
        distinct_pids(high_cpu_of(s, threshold)),
    decreases s.len(),
{
    if s.len() > 0 {
        let rest = s.drop_first();
        assert(distinct_pids(rest)) by {
            assert(forall|i: int|
                0 <= i < rest.len() ==> rest[i] == s[i + 1]);
        }
        lemma_high_cpu_distinct(rest, threshold);
        lemma_high_cpu_contains(rest, threshold);
        let h = high_cpu_of(s, threshold);
        let hr = high_cpu_of(rest, threshold);
        if s[0].cpu_usage > threshold {
            assert forall|i: int, j: int|
                0 <= i < h.len() && 0 <= j < h.len() && i != j implies h[i].pid != h[j].pid by {
                if i == 0 || j == 0 {
                    let k = if i == 0 {
                        j
                    } else {
                        i
                    };
                    let x = hr[k - 1];
                    let m = choose|m: int| 0 <= m < rest.len() && rest[m] == x;
                    assert(s[m + 1] == x);
                    assert(s[0].pid != s[m + 1].pid);
                } else {
                    assert(h[i] == hr[i - 1] && h[j] == hr[j - 1]);
                }
            }
        }
    }
}

/// The process lifecycle controller: wraps one OS process-table reader and
/// dispatches snapshots, the killability verdict and termination signals.
pub struct ProcessManager {
    system: sysinfo::System,
}

impl ProcessManager {
    /// A manager over a freshly read process table.
    pub fn new() -> Self {
        let mut system = new_system();
        refresh_all(&mut system);
        ProcessManager { system }
    }

    /// Re-reads the OS process table in full; cannot fail in a way the
    /// caller must handle.
    pub fn refresh(&mut self) {
        refresh_process_table(&mut self.system);
    }

    /// Refreshes, then returns one record per live process, sorted under
    /// the sort key; PIDs are pairwise distinct and every record carries
    /// the `is_system` flag its name derives to.
    pub fn get_processes(&mut self, sort_by: SortBy) -> (r: Vec<ProcessInfo>)
        ensures
            sorted_of(sort_by, r@),
            distinct_pids(r@),
            classified(r@),
    {
        self.refresh();
        let table = read_process_table(&self.system);
        build_snapshot(&table, sort_by)
    }

    /// Refreshes, then returns the records whose CPU usage lies strictly
    /// above the threshold, sorted under the sort key. The threshold is
    /// encoded as in [`ProcessInfo::cpu_usage`].
    pub fn get_high_cpu_processes(&mut self, threshold: u32, sort_by: SortBy) -> (r: Vec<
        ProcessInfo,
    >)
        ensures
            forall|k: int| 0 <= k < r@.len() ==> #[trigger] r@[k].cpu_usage > threshold,
            sorted_of(sort_by, r@),
            distinct_pids(r@),
            classified(r@),
    {
        let all = self.get_processes(sort_by);
        let filtered = filter_high_cpu(&all, threshold);
        proof {
            lemma_high_cpu_contains(all@, threshold);
            lemma_high_cpu_sorted(sort_by, all@, threshold);
            lemma_high_cpu_distinct(all@, threshold);
            assert forall|k: int|
                0 <= k < filtered@.len() implies #[trigger] filtered@[k].is_system == (
            spec_is_system_service(filtered@[k].name@) || spec_is_critical_process(
                filtered@[k].name@,
            )) by {
                let j = choose|j: int| 0 <= j < all@.len() && all@[j] == filtered@[k];
            }
        }
        filtered
    }

    /// Refreshes, then looks a single PID up: its record, or `None` when
    /// it is not currently running.
    pub fn get_process_by_pid(&mut self, pid: u32) -> (r: Option<ProcessInfo>)
        ensures
            match r {
                Some(rec) => rec.pid == pid && rec.is_system == (spec_is_system_service(rec.name@)
                    || spec_is_critical_process(rec.name@)),
                None => true,
            },
    {
        self.refresh();
        let table = read_process_table(&self.system);
        find_in_table(&table, pid)
    }

    /// The pre-flight policy check: `Protected` exactly when the record's
    /// name matches the critical-process set, success for any other name.
    /// Pure: no OS interaction, and the verdict depends on the name alone.
    pub fn can_kill_process(&self, process: &ProcessInfo) -> (r: ProcessResult<()>)
        ensures
            r == kill_verdict(process.name),
    {
        if is_critical_process(process.name.as_str()) {
            return Err(ProcessError::Protected(process.name.clone()));
        }
        Ok(())
    }

    /// Requests a clean exit (graceful termination) for the PID. The
    /// policy is not re-checked. A PID outside the OS's range is rejected
    /// as `SignalFailed` before any OS call; otherwise the outcome is
    /// success, `PermissionDenied` exactly when the OS refused for lack
    /// of privilege, or `SignalFailed` with the OS's detail.
    pub fn kill_process(&self, pid: u32) -> (r: ProcessResult<()>)
        ensures
            !pid_in_range(pid) ==> (r matches Err(e) && e matches ProcessError::SignalFailed(m)
                && m@ == "invalid PID"@),
            r is Ok || (r matches Err(e) && (e is SignalFailed || e is PermissionDenied)),
    {
        if pid == 0 || pid > i32::MAX as u32 {
            return Err(ProcessError::SignalFailed(String::from_str("invalid PID")));
        }
        signal_outcome(send_sigterm(pid))
    }

    /// Requests unconditional (forceful) termination for the PID. The
    /// policy is not re-checked. A PID outside the OS's range is rejected
    /// as `SignalFailed` before any OS call; otherwise the outcome is
    /// success, `PermissionDenied` exactly when the OS refused for lack
    /// of privilege, or `SignalFailed` with the OS's detail.
    pub fn force_kill_process(&self, pid: u32) -> (r: ProcessResult<()>)
        ensures
            !pid_in_range(pid) ==> (r matches Err(e) && e matches ProcessError::SignalFailed(m)
                && m@ == "invalid PID"@),
            r is Ok || (r matches Err(e) && (e is SignalFailed || e is PermissionDenied)),
    {
        if pid == 0 || pid > i32::MAX as u32 {
            return Err(ProcessError::SignalFailed(String::from_str("invalid PID")));
        }
        signal_outcome(send_sigkill(pid))
    }

    /// Dispatches the termination signal a request maps to: the forceful
    /// kind sends the unconditional signal, the graceful kind the
    /// clean-exit one.
    pub fn terminate(&self, pid: u32, forceful: bool) -> (r: ProcessResult<()>)
        ensures
            !pid_in_range(pid) ==> (r matches Err(e) && e matches ProcessError::SignalFailed(m)
                && m@ == "invalid PID"@),
            r is Ok || (r matches Err(e) && (e is SignalFailed || e is PermissionDenied)),
    {
        match signal_kind_for(forceful) {
            SignalKind::Forceful => self.force_kill_process(pid),
            SignalKind::Graceful => self.kill_process(pid),
        }
    }
}

impl Default for ProcessManager {
    fn default() -> Self {
        Self::new()
    }
}

} // verus!
