//! The process data model and the pure snapshot logic: building records
//! from raw process-table rows, sorting them under a caller-chosen key,
//! looking a PID up, and filtering by CPU usage.

use vstd::prelude::*;
use crate::policy::{
    is_critical_process, is_system_service, spec_is_critical_process, spec_is_system_service,
};
use crate::text::{
    lemma_lex_le_total, lemma_lex_le_trans, lex_le, lower_of, str_lex_le, to_lowercase,
};

verus! {

broadcast use vstd::seq_lib::group_to_multiset_ensures, vstd::multiset::group_multiset_axioms;

/// One entry of a process snapshot.
///
/// `cpu_usage` holds the IEEE-754 bit pattern of the CPU percentage the OS
/// reported (an `f32`, not bounded by 100 on multi-core attribution). The
/// OS reports non-negative percentages, and on non-negative values the
/// unsigned order of the bit patterns is the numeric order, so comparisons
/// and sorting work on the patterns directly.
#[derive(Debug, PartialEq)]
pub struct ProcessInfo {
    pub pid: u32,
    pub name: String,
    pub cpu_usage: u32,
    pub memory: u64,
    pub status: String,
    pub is_system: bool,
}

impl Clone for ProcessInfo {
    fn clone(&self) -> (r: Self)
        ensures
            r == *self,
    {
        ProcessInfo {
            pid: self.pid,
            name: self.name.clone(),
            cpu_usage: self.cpu_usage,
            memory: self.memory,
            status: self.status.clone(),
            is_system: self.is_system,
        }
    }
}

/// The sort key for a snapshot; exactly one is active per call.
#[derive(Debug, Clone, Copy, PartialEq, Eq, Structural)]
pub enum SortBy {
    Cpu,
    Memory,
    Pid,
    Name,
}

/// A raw process-table row, before classification: the plain values the OS
/// reader hands over. `cpu_usage` is encoded as in [`ProcessInfo`].
#[derive(Debug)]
pub struct RawProcess {
    pub pid: u32,
    pub name: String,
    pub cpu_usage: u32,
    pub memory: u64,
    pub status: String,
}

/// The record a raw row classifies to: fields carried over, `is_system`
/// derived from the name.
pub open spec fn spec_record_of(raw: RawProcess) -> ProcessInfo {
    ProcessInfo {
        pid: raw.pid,
        name: raw.name,
        cpu_usage: raw.cpu_usage,
        memory: raw.memory,
        status: raw.status,
        is_system: spec_is_system_service(raw.name@) || spec_is_critical_process(raw.name@),
    }
}

/// The records of a whole table, row by row.
pub open spec fn records_of(t: Seq<RawProcess>) -> Seq<ProcessInfo> {
    t.map_values(|raw: RawProcess| spec_record_of(raw))
}

/// Classifies one raw row into a process record.
pub fn record_of(raw: &RawProcess) -> (r: ProcessInfo)
    ensures
        r == spec_record_of(*raw),
{
    let is_system = is_system_service(raw.name.as_str()) || is_critical_process(
        raw.name.as_str(),
    );
    ProcessInfo {
        pid: raw.pid,
        name: raw.name.clone(),
        cpu_usage: raw.cpu_usage,
        memory: raw.memory,
        status: raw.status.clone(),
        is_system,
    }
}

/// The snapshot order for a sort key: CPU and memory descending, PID
/// ascending, name ascending under Unicode lowercasing.
pub open spec fn record_le(by: SortBy, a: ProcessInfo, b: ProcessInfo) -> bool {
    match by {
        SortBy::Cpu => b.cpu_usage <= a.cpu_usage,
        SortBy::Memory => b.memory <= a.memory,
        SortBy::Pid => a.pid <= b.pid,
        SortBy::Name => lex_le(lower_of(a.name@), lower_of(b.name@)),
    }
}

/// The sequence is ordered under the sort key.
pub open spec fn sorted_of(by: SortBy, s: Seq<ProcessInfo>) -> bool {
    forall|i: int, j: int| 0 <= i < j < s.len() ==> record_le(by, s[i], s[j])
}

/// No two entries share a PID.
pub open spec fn distinct_pids(s: Seq<ProcessInfo>) -> bool {
    forall|i: int, j: int| 0 <= i < s.len() && 0 <= j < s.len() && i != j ==> s[i].pid != s[j].pid
}

/// No two rows share a PID.
pub open spec fn distinct_raw_pids(t: Seq<RawProcess>) -> bool {
    forall|i: int, j: int| 0 <= i < t.len() && 0 <= j < t.len() && i != j ==> t[i].pid != t[j].pid
}

/// Every record of a snapshot carries the `is_system` flag its name
/// derives to.
pub open spec fn classified(s: Seq<ProcessInfo>) -> bool {
    forall|k: int|
        0 <= k < s.len() ==> #[trigger] s[k].is_system == (spec_is_system_service(s[k].name@)
            || spec_is_critical_process(s[k].name@))
}

/// A permutation of classified records is classified.
pub proof fn lemma_classified_permutation(s1: Seq<ProcessInfo>, s2: Seq<ProcessInfo>)
    requires
        s1.to_multiset() == s2.to_multiset(),
        classified(s1),
    ensures
        classified(s2),
{
    assert forall|k: int|
        0 <= k < s2.len() implies #[trigger] s2[k].is_system == (spec_is_system_service(
        s2[k].name@,
    ) || spec_is_critical_process(s2[k].name@)) by {
        assert(s2.contains(s2[k]));
        assert(s1.to_multiset().count(s2[k]) > 0);
        assert(s1.contains(s2[k]));
        let j = choose|j: int| 0 <= j < s1.len() && s1[j] == s2[k];
        assert(s1[j].is_system == (spec_is_system_service(s1[j].name@)
            || spec_is_critical_process(s1[j].name@)));
    }
}

/// Compares two records under the sort key.
pub fn record_le_exec(by: SortBy, a: &ProcessInfo, b: &ProcessInfo) -> (r: bool)
    ensures
        r == record_le(by, *a, *b),
{
    match by {
        SortBy::Cpu => b.cpu_usage <= a.cpu_usage,
        SortBy::Memory => b.memory <= a.memory,
        SortBy::Pid => a.pid <= b.pid,
        SortBy::Name => {
            let la = to_lowercase(a.name.as_str());
            let lb = to_lowercase(b.name.as_str());
            str_lex_le(la.as_str(), lb.as_str())
        },
    }
}

/// The snapshot order is total.
pub proof fn lemma_record_le_total(by: SortBy, a: ProcessInfo, b: ProcessInfo)
    ensures
        record_le(by, a, b) || record_le(by, b, a),
{
    if by is Name {
        lemma_lex_le_total(lower_of(a.name@), lower_of(b.name@));
    }
}

/// The snapshot order is transitive.
pub proof fn lemma_record_le_trans(by: SortBy, a: ProcessInfo, b: ProcessInfo, c: ProcessInfo)
    requires
        record_le(by, a, b),
        record_le(by, b, c),
    ensures
        record_le(by, a, c),
{
    if by is Name {
        lemma_lex_le_trans(lower_of(a.name@), lower_of(b.name@), lower_of(c.name@));
    }
}

/// Inserting an element anywhere adds exactly it to the sequence's multiset.
proof fn lemma_insert_to_multiset<A>(s: Seq<A>, p: int, x: A)
    requires
        0 <= p <= s.len(),
    ensures
        s.insert(p, x).to_multiset() == s.to_multiset().insert(x),
{
    let t = s.insert(p, x);
    s.insert_ensures(p, x);
    assert(t.remove(p) =~= s);
    assert(t[p] == x);
    assert(t.remove(p).to_multiset() =~= t.to_multiset().remove(x));
    assert(t.contains(x));
    assert(t.to_multiset().count(x) > 0);
    assert(t.to_multiset() =~= s.to_multiset().insert(x));
}

/// A sorted sequence stays sorted when an element is inserted between the
/// entries it compares with.
proof fn lemma_sorted_insert(by: SortBy, s: Seq<ProcessInfo>, p: int, x: ProcessInfo)
    requires
        sorted_of(by, s),
        0 <= p <= s.len(),
        forall|k: int| 0 <= k < p ==> record_le(by, s[k], x),
        forall|k: int| p <= k < s.len() ==> record_le(by, x, s[k]),
    ensures
        sorted_of(by, s.insert(p, x)),
{
    let t = s.insert(p, x);
    s.insert_ensures(p, x);
    assert forall|a: int, b: int| 0 <= a < b < t.len() implies record_le(by, t[a], t[b]) by {
        if a < p && b < p {
            assert(t[a] == s[a] && t[b] == s[b]);
        } else if a < p && b == p {
            assert(t[a] == s[a] && t[b] == x);
        } else if a < p && b > p {
            assert(t[a] == s[a] && t[b] == s[b - 1]);
        } else if a == p && b > p {
            assert(t[a] == x && t[b] == s[b - 1]);
        } else {
            assert(t[a] == s[a - 1] && t[b] == s[b - 1]);
        }
    }
}

/// Sorts the records under the sort key; the result is a permutation of
/// the input.
pub fn sort_records(list: Vec<ProcessInfo>, by: SortBy) -> (r: Vec<ProcessInfo>)
    ensures
        r@.to_multiset() == list@.to_multiset(),
        r@.len() == list@.len(),
        sorted_of(by, r@),
{
    let mut v = list;
    let ghost v0 = v@;
    if v.len() <= 1 {
        return v;
    }
    let mut i: usize = 1;
    while i < v.len()
        invariant
            1 <= i <= v@.len(),
            v@.len() == v0.len(),
            v@.to_multiset() == v0.to_multiset(),
            sorted_of(by, v@.subrange(0, i as int)),
        decreases v@.len() - i,
    {
        let ghost prev = v@;
        let x = v.remove(i);
        let ghost w = v@;
        proof {
            assert(w.to_multiset() =~= prev.to_multiset().remove(x));
            assert(forall|k: int| 0 <= k < i ==> w[k] == prev[k]);
        }
        let mut p: usize = 0;
        loop
            invariant
                v@ == w,
                0 <= p <= i,
                i < prev.len(),
                w.len() == prev.len() - 1,
                sorted_of(by, w.subrange(0, i as int)),
                forall|k: int| 0 <= k < p ==> record_le(by, w[k], x),
            ensures
                v@ == w,
                0 <= p <= i,
                forall|k: int| 0 <= k < p ==> record_le(by, w[k], x),
                p < i ==> !record_le(by, w[p as int], x),
            decreases i - p,
        {
            if p >= i {
                break;
            }
            if !record_le_exec(by, &v[p], &x) {
                break;
            }
            proof {
                assert(record_le(by, w[p as int], x));
            }
            p = p + 1;
        }
        v.insert(p, x);
        proof {
            lemma_insert_to_multiset(w, p as int, x);
            assert(prev.to_multiset().count(x) > 0) by {
                assert(prev[i as int] == x);
                assert(prev.contains(x));
            }
            assert(v@.to_multiset() =~= prev.to_multiset());
            let sp = w.subrange(0, i as int);
            assert forall|k: int| p <= k < sp.len() implies record_le(by, x, sp[k]) by {
                lemma_record_le_total(by, w[p as int], x);
                if k > p {
                    lemma_record_le_trans(by, x, sp[p as int], sp[k]);
                }
            }
            lemma_sorted_insert(by, sp, p as int, x);
            assert(v@.subrange(0, i + 1 as int) =~= sp.insert(p as int, x)) by {
                w.insert_ensures(p as int, x);
                sp.insert_ensures(p as int, x);
            }
        }
        i = i + 1;
    }
    proof {
        assert(v@.subrange(0, v@.len() as int) =~= v@);
    }
    v
}

/// Builds the record for each table row, in table order.
pub fn build_records(table: &Vec<RawProcess>) -> (r: Vec<ProcessInfo>)
    ensures
        r@ == records_of(table@),
{
    let mut out: Vec<ProcessInfo> = Vec::new();
    let n = table.len();
    let mut i: usize = 0;
    while i < n
        invariant
            n == table@.len(),
            0 <= i <= n,
            out@.len() == i,
            forall|j: int| 0 <= j < i ==> out@[j] == spec_record_of(table@[j]),
        decreases n - i,
    {
        out.push(record_of(&table[i]));
        i = i + 1;
    }
    proof {
        assert(out@ =~= records_of(table@));
    }
    out
}

/// Turns a raw process table into a snapshot: one record per row, sorted
/// under the sort key. PIDs unique in the table stay unique in the
/// snapshot.
pub fn build_snapshot(table: &Vec<RawProcess>, sort_by: SortBy) -> (r: Vec<ProcessInfo>)
    ensures
        r@.to_multiset() == records_of(table@).to_multiset(),
        r@.len() == table@.len(),
        sorted_of(sort_by, r@),
        classified(r@),
        distinct_raw_pids(table@) ==> distinct_pids(r@),
{
    let records = build_records(table);
    let sorted = sort_records(records, sort_by);
    proof {
        assert(classified(records_of(table@))) by {
            assert(forall|k: int|
                0 <= k < table@.len() ==> records_of(table@)[k] == spec_record_of(table@[k]));
        }
        lemma_classified_permutation(records_of(table@), sorted@);
        if distinct_raw_pids(table@) {
            assert(distinct_pids(records_of(table@)));
            lemma_permutation_distinct_pids(records_of(table@), sorted@);
        }
    }
    sorted
}

/// A permutation of a snapshot with distinct PIDs has distinct PIDs.
pub proof fn lemma_permutation_distinct_pids(s1: Seq<ProcessInfo>, s2: Seq<ProcessInfo>)
    requires
        s1.to_multiset() == s2.to_multiset(),
        distinct_pids(s1),
    ensures
        distinct_pids(s2),
{
    assert(s1.no_duplicates());
    s1.lemma_multiset_has_no_duplicates();
    s2.lemma_multiset_has_no_duplicates_conv();
    assert forall|i: int, j: int|
        0 <= i < s2.len() && 0 <= j < s2.len() && i != j implies s2[i].pid != s2[j].pid by {
        if s2[i].pid == s2[j].pid {
            assert(s2[i] != s2[j]);
            assert(s2.contains(s2[i]) && s2.contains(s2[j]));
            assert(s1.to_multiset().count(s2[i]) > 0 && s1.to_multiset().count(s2[j]) > 0);
            assert(s1.contains(s2[i]) && s1.contains(s2[j]));
            let k = choose|k: int| 0 <= k < s1.len() && s1[k] == s2[i];
            let l = choose|l: int| 0 <= l < s1.len() && s1[l] == s2[j];
            assert(s1[k].pid == s1[l].pid);
            assert(k == l);
        }
    }
}

/// Sorting by PID, unique PIDs come out strictly ascending: no duplicates,
/// no inversions.
pub proof fn lemma_pid_sort_strictly_ascending(s: Seq<ProcessInfo>)
    requires
        sorted_of(SortBy::Pid, s),
        distinct_pids(s),
    ensures
        forall|i: int, j: int| 0 <= i < j < s.len() ==> s[i].pid < s[j].pid,
{
    assert forall|i: int, j: int| 0 <= i < j < s.len() implies s[i].pid < s[j].pid by {
        assert(record_le(SortBy::Pid, s[i], s[j]));
        assert(s[i].pid != s[j].pid);
    }
}

/// Sorting by name orders the records by case-insensitive comparison of
/// their names.
pub proof fn lemma_name_sort_case_insensitive(s: Seq<ProcessInfo>)
    requires
        sorted_of(SortBy::Name, s),
    ensures
        forall|i: int, j: int|
            0 <= i < j < s.len() ==> lex_le(lower_of(s[i].name@), lower_of(s[j].name@)),
{
    assert forall|i: int, j: int|
        0 <= i < j < s.len() implies lex_le(lower_of(s[i].name@), lower_of(s[j].name@)) by {
        assert(record_le(SortBy::Name, s[i], s[j]));
    }
}

/// The set of PIDs a snapshot exposes.
pub open spec fn pid_set(s: Seq<ProcessInfo>) -> Set<u32> {
    Set::new(|pid: u32| exists|i: int| 0 <= i < s.len() && s[i].pid == pid)
}

/// Two snapshots built from the same table expose the same set of PIDs,
/// whatever the sort keys and however ties were broken.
pub proof fn lemma_same_table_same_pids(
    t: Seq<RawProcess>,
    out1: Seq<ProcessInfo>,
    out2: Seq<ProcessInfo>,
)
    requires
        out1.to_multiset() == records_of(t).to_multiset(),
        out2.to_multiset() == records_of(t).to_multiset(),
    ensures
        pid_set(out1) == pid_set(out2),
{
    assert forall|pid: u32| pid_set(out1).contains(pid) == pid_set(out2).contains(pid) by {
        lemma_pid_set_from_multiset(out1, out2, pid);
        lemma_pid_set_from_multiset(out2, out1, pid);
    }
    assert(pid_set(out1) =~= pid_set(out2));
}

/// If two snapshots hold the same records, a PID exposed by the first is
/// exposed by the second.
proof fn lemma_pid_set_from_multiset(a: Seq<ProcessInfo>, b: Seq<ProcessInfo>, pid: u32)
    requires
        a.to_multiset() == b.to_multiset(),
    ensures
        pid_set(a).contains(pid) ==> pid_set(b).contains(pid),
{
    if pid_set(a).contains(pid) {
        let i = choose|i: int| 0 <= i < a.len() && a[i].pid == pid;
        assert(a.contains(a[i]));
        assert(b.to_multiset().count(a[i]) > 0);
        assert(b.contains(a[i]));
        let j = choose|j: int| 0 <= j < b.len() && b[j] == a[i];
        assert(b[j].pid == pid);
    }
}

/// The rows of a snapshot whose CPU usage lies strictly above a threshold,
/// in order. The threshold is encoded as in [`ProcessInfo::cpu_usage`].
pub open spec fn high_cpu_of(s: Seq<ProcessInfo>, threshold: u32) -> Seq<ProcessInfo>
    decreases s.len(),
{
    if s.len() == 0 {
        Seq::empty()
    } else if s[0].cpu_usage > threshold {
        seq![s[0]] + high_cpu_of(s.drop_first(), threshold)
    } else {
        high_cpu_of(s.drop_first(), threshold)
    }
}

/// Keeps the records whose CPU usage lies strictly above the threshold,
/// preserving their order.
pub fn filter_high_cpu(list: &Vec<ProcessInfo>, threshold: u32) -> (r: Vec<ProcessInfo>)
    ensures
        r@ == high_cpu_of(list@, threshold),
{
    let mut out: Vec<ProcessInfo> = Vec::new();
    let n = list.len();
    let mut i: usize = 0;
    proof {
        assert(list@.skip(0) =~= list@);
    }
    while i < n
        invariant
            n == list@.len(),
            0 <= i <= n,
            high_cpu_of(list@, threshold) == out@ + high_cpu_of(list@.skip(i as int), threshold),
        decreases n - i,
    {
        let ghost rest = list@.skip(i as int);
        proof {
            assert(rest[0] == list@[i as int]);
            assert(rest.drop_first() =~= list@.skip(i + 1));
        }
        if list[i].cpu_usage > threshold {
            out.push(list[i].clone());
            proof {
                assert(out@ + high_cpu_of(list@.skip(i + 1), threshold) =~= high_cpu_of(
                    list@,
                    threshold,
                ));
            }
        }
        i = i + 1;
    }
    proof {
        assert(list@.skip(n as int) =~= Seq::<ProcessInfo>::empty());
        assert(out@ =~= high_cpu_of(list@, threshold));
    }
    out
}

/// Looks a PID up in a raw table: the classified record of the first row
/// carrying it, or `None` when no row does.
pub fn find_in_table(table: &Vec<RawProcess>, pid: u32) -> (r: Option<ProcessInfo>)
    ensures
        r is Some <==> exists|i: int| 0 <= i < table@.len() && table@[i].pid == pid,
        match r {
            Some(rec) => exists|i: int|
                0 <= i < table@.len() && table@[i].pid == pid && rec == spec_record_of(table@[i]),
            None => true,
        },
{
    let n = table.len();
    let mut i: usize = 0;
    while i < n
        invariant
            n == table@.len(),
            0 <= i <= n,
            forall|j: int| 0 <= j < i ==> table@[j].pid != pid,
        decreases n - i,
    {
        if table[i].pid == pid {
            return Some(record_of(&table[i]));
        }
        i = i + 1;
    }
    None
}

} // verus!
