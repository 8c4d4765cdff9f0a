//! The kill-interaction state machine and the list-shaping steps a
//! presentation layer drives: search filtering and visible-row limiting.
//! The decisions live here, verified; performing the resulting action (the
//! signal send, the re-snapshot, the notification) is the caller's part.

use vstd::prelude::*;
use crate::policy::{is_critical_process, kill_verdict, ProcessError};
use crate::process::ProcessInfo;
use crate::text::{
    chars_contain_str, dec_rep, lower_of, seq_contains, to_char_vec, to_lowercase, u32_decimal,
};

verus! {

/// How many rows stay visible when the caller does not ask for all of them.
pub const VISIBLE_LIMIT: usize = 10;

/// Which confirmation a pending kill is waiting for.
#[derive(Debug, Clone, Copy, PartialEq, Eq, Structural)]
pub enum ConfirmationMode {
    Kill,
    ForceKill,
}

/// The state of a single kill interaction: idle, or holding exactly one
/// pending target until the user confirms or cancels.
#[derive(Debug, PartialEq)]
pub enum KillState {
    Idle,
    AwaitingConfirmation { target: ProcessInfo, mode: ConfirmationMode },
}

/// What the caller reports into the state machine.
#[derive(Debug, Clone, Copy, PartialEq)]
pub enum KillEvent {
    /// The user asked to kill the PID, gracefully or forcefully.
    Request { pid: u32, forceful: bool },
    /// The user dismissed the pending confirmation.
    Cancel,
    /// The user confirmed the pending kill.
    Confirm,
}

/// What the caller must do after a step.
#[derive(Debug, PartialEq)]
pub enum KillAction {
    /// Nothing: render the new state.
    DoNothing,
    /// Surface the error to the user.
    Notify(ProcessError),
    /// Dispatch the termination signal, then re-snapshot.
    Terminate { pid: u32, forceful: bool },
}

/// The first record carrying the PID, if any.
pub open spec fn find_pid(s: Seq<ProcessInfo>, pid: u32) -> Option<ProcessInfo>
    decreases s.len(),
{
    if s.len() == 0 {
        None
    } else if s[0].pid == pid {
        Some(s[0])
    } else {
        find_pid(s.drop_first(), pid)
    }
}

/// One transition of the kill interaction.
///
/// A request looks the PID up in the caller's snapshot and runs the
/// pre-flight policy check: an unknown PID or a protected name surfaces
/// the error and leaves the state — any pending confirmation included —
/// unchanged; a permitted request awaits confirmation, replacing any
/// pending target without side effects. Cancelling drops the pending
/// target; confirming hands the caller the termination to dispatch and
/// returns to idle.
pub open spec fn spec_kill_step(
    state: KillState,
    event: KillEvent,
    procs: Seq<ProcessInfo>,
) -> (KillState, KillAction) {
    match event {
        KillEvent::Request { pid, forceful } => match find_pid(procs, pid) {
            None => (state, KillAction::Notify(ProcessError::NotFound)),
            Some(rec) => match kill_verdict(rec.name) {
                Err(e) => (state, KillAction::Notify(e)),
                Ok(_) => (
                    KillState::AwaitingConfirmation {
                        target: rec,
                        mode: if forceful {
                            ConfirmationMode::ForceKill
                        } else {
                            ConfirmationMode::Kill
                        },
                    },
                    KillAction::DoNothing,
                ),
            },
        },
        KillEvent::Cancel => (KillState::Idle, KillAction::DoNothing),
        KillEvent::Confirm => match state {
            KillState::AwaitingConfirmation { target, mode } => (
                KillState::Idle,
                KillAction::Terminate { pid: target.pid, forceful: mode is ForceKill },
            ),
            KillState::Idle => (KillState::Idle, KillAction::DoNothing),
        },
    }
}

/// Runs one transition of the kill interaction over the caller's current
/// snapshot.
pub fn kill_step(state: KillState, event: KillEvent, processes: &Vec<ProcessInfo>) -> (r: (
    KillState,
    KillAction,
))
    ensures
        r == spec_kill_step(state, event, processes@),
{
    match event {
        KillEvent::Request { pid, forceful } => {
            let found = find_first(processes, pid);
            match found {
                None => (state, KillAction::Notify(ProcessError::NotFound)),
                Some(rec) => {
                    if is_critical_process(rec.name.as_str()) {
                        let name = rec.name;
                        (state, KillAction::Notify(ProcessError::Protected(name)))
                    } else {
                        let mode = if forceful {
                            ConfirmationMode::ForceKill
                        } else {
                            ConfirmationMode::Kill
                        };
                        (KillState::AwaitingConfirmation { target: rec, mode }, KillAction::DoNothing)
                    }
                },
            }
        },
        KillEvent::Cancel => (KillState::Idle, KillAction::DoNothing),
        KillEvent::Confirm => match state {
            KillState::AwaitingConfirmation { target, mode } => (
                KillState::Idle,
                KillAction::Terminate {
                    pid: target.pid,
                    forceful: matches!(mode, ConfirmationMode::ForceKill),
                },
            ),
            KillState::Idle => (KillState::Idle, KillAction::DoNothing),
        },
    }
}

/// The first record of the snapshot carrying the PID, cloned out.
fn find_first(processes: &Vec<ProcessInfo>, pid: u32) -> (r: Option<ProcessInfo>)
    ensures
        r == find_pid(processes@, pid),
{
    let n = processes.len();
    let mut i: usize = 0;
    proof {
        assert(processes@.skip(0) =~= processes@);
    }
    while i < n
        invariant
            n == processes@.len(),
            0 <= i <= n,
            find_pid(processes@, pid) == find_pid(processes@.skip(i as int), pid),
        decreases n - i,
    {
        proof {
            let rest = processes@.skip(i as int);
            assert(rest[0] == processes@[i as int]);
            assert(rest.drop_first() =~= processes@.skip(i + 1));
        }
        if processes[i].pid == pid {
            return Some(processes[i].clone());
        }
        i = i + 1;
    }
    proof {
        assert(processes@.skip(n as int) =~= Seq::<ProcessInfo>::empty());
    }
    None
}

/// A record matches a lowercased search needle when the needle occurs in
/// its lowercased name or in its decimal PID.
pub open spec fn matches_query(p: ProcessInfo, needle: Seq<char>) -> bool {
    seq_contains(lower_of(p.name@), needle) || seq_contains(dec_rep(p.pid as nat), needle)
}

/// The records matching a lowercased search needle, in order.
pub open spec fn query_filtered(s: Seq<ProcessInfo>, needle: Seq<char>) -> Seq<ProcessInfo>
    decreases s.len(),
{
    if s.len() == 0 {
        Seq::empty()
    } else if matches_query(s[0], needle) {
        seq![s[0]] + query_filtered(s.drop_first(), needle)
    } else {
        query_filtered(s.drop_first(), needle)
    }
}

/// Whether the record matches the already-lowercased search needle.
fn matches_query_exec(p: &ProcessInfo, needle: &str) -> (r: bool)
    ensures
        r == matches_query(*p, needle@),
{
    let lname = to_char_vec(to_lowercase(p.name.as_str()).as_str());
    if chars_contain_str(&lname, needle) {
        return true;
    }
    let digits = u32_decimal(p.pid);
    chars_contain_str(&digits, needle)
}

/// Keeps the records matching the search query, in order: an empty query
/// keeps everything; otherwise the query is lowercased and matched against
/// each record's lowercased name and decimal PID.
pub fn filter_processes(list: &Vec<ProcessInfo>, query: &str) -> (r: Vec<ProcessInfo>)
    ensures
        query@.len() == 0 ==> r@ == list@,
        query@.len() > 0 ==> r@ == query_filtered(list@, lower_of(query@)),
{
    if query.is_empty() {
        return copy_records(list);
    }
    let needle = to_lowercase(query);
    let mut out: Vec<ProcessInfo> = Vec::new();
    let n = list.len();
    let mut i: usize = 0;
    proof {
        assert(list@.skip(0) =~= list@);
    }
    while i < n
        invariant
            n == list@.len(),
            0 <= i <= n,
            needle@ == lower_of(query@),
            query_filtered(list@, needle@) == out@ + query_filtered(
                list@.skip(i as int),
                needle@,
            ),
        decreases n - i,
    {
        proof {
            let rest = list@.skip(i as int);
            assert(rest[0] == list@[i as int]);
            assert(rest.drop_first() =~= list@.skip(i + 1));
        }
        if matches_query_exec(&list[i], needle.as_str()) {
            out.push(list[i].clone());
            proof {
                assert(out@ + query_filtered(list@.skip(i + 1), needle@) =~= query_filtered(
                    list@,
                    needle@,
                ));
            }
        }
        i = i + 1;
    }
    proof {
        assert(list@.skip(n as int) =~= Seq::<ProcessInfo>::empty());
        assert(out@ =~= query_filtered(list@, needle@));
    }
    out
}

/// An element-wise copy of a snapshot.
fn copy_records(list: &Vec<ProcessInfo>) -> (r: Vec<ProcessInfo>)
    ensures
        r@ == list@,
{
    let mut out: Vec<ProcessInfo> = Vec::new();
    let n = list.len();
    let mut i: usize = 0;
    while i < n
        invariant
            n == list@.len(),
            0 <= i <= n,
            out@ == list@.subrange(0, i as int),
        decreases n - i,
    {
        out.push(list[i].clone());
        proof {
            assert(out@ =~= list@.subrange(0, i + 1));
        }
        i = i + 1;
    }
    proof {
        assert(list@.subrange(0, n as int) =~= list@);
    }
    out
}

/// Caps the snapshot at the visible-row limit unless the caller asked to
/// see everything.
pub fn limit_visible(list: Vec<ProcessInfo>, show_all: bool) -> (r: Vec<ProcessInfo>)
    ensures
        show_all ==> r@ == list@,
        !show_all ==> r@ == (if list@.len() <= VISIBLE_LIMIT {
            list@
        } else {
            list@.take(VISIBLE_LIMIT as int)
        }),
{
    let mut v = list;
    if !show_all {
        let ghost before = v@;
        v.truncate(VISIBLE_LIMIT);
        proof {
            if before.len() == VISIBLE_LIMIT {
                assert(before.subrange(0, VISIBLE_LIMIT as int) =~= before);
            }
        }
    }
    v
}

} // verus!
