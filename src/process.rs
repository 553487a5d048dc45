//! Process records and their canonical ordering.

use vstd::prelude::*;
use vstd::string::StringExecFns;
use crate::store::{opt_seq, ChangeEvent, ChangeView};
use crate::text::{append_signed, join_texts, joined, signed_decimal, text_views};
use crate::trust::{
    assess_risk, is_trusted_location, lower_of, quick_trust_from_path, risk_of, TrustMetadata,
};

verus! {

/// One process as seen in a single collection cycle. Rates are fixed-point
/// integers: `cpu` and `gpu_percent` in hundredths of a percent,
/// `memory_mb` in hundredths of a megabyte (MiB), `disk_kbps` and
/// `network_kbps` in hundredths of a kilobyte per second.
#[derive(Clone, Debug)]
pub struct ProcessInfo {
    pub pid: i32,
    pub name: String,
    pub cpu: u64,
    pub memory_mb: u64,
    pub path: Option<String>,
    pub signed: bool,
    pub publisher: Option<String>,
    pub risk: String,
    pub command_line: Option<String>,
    pub parent_pid: Option<i32>,
    pub network_kbps: u64,
    pub gpu_percent: u64,
    pub disk_kbps: u64,
}

/// A copy of an optional text.
pub fn copy_opt_string(s: &Option<String>) -> (r: Option<String>)
    ensures
        r == *s,
{
    match s {
        Some(t) => Some(t.clone()),
        None => None,
    }
}

impl ProcessInfo {
    /// A record's CPU share never exceeds one full processor's worth.
    pub open spec fn wf(&self) -> bool {
        self.cpu <= CPU_CEILING
    }

    /// A field-for-field copy.
    pub fn duplicate(&self) -> (r: ProcessInfo)
        ensures
            r == *self,
    {
        ProcessInfo {
            pid: self.pid,
            name: self.name.clone(),
            cpu: self.cpu,
            memory_mb: self.memory_mb,
            path: copy_opt_string(&self.path),
            signed: self.signed,
            publisher: copy_opt_string(&self.publisher),
            risk: self.risk.clone(),
            command_line: copy_opt_string(&self.command_line),
            parent_pid: self.parent_pid,
            network_kbps: self.network_kbps,
            gpu_percent: self.gpu_percent,
            disk_kbps: self.disk_kbps,
        }
    }
}

/// A resource dimension by which processes are ranked.
#[derive(Clone, Copy, Debug, PartialEq, Eq, Structural)]
pub enum Metric {
    Cpu,
    Memory,
    Disk,
    Network,
}

/// The value of a process in one dimension.
pub open spec fn metric_of(p: ProcessInfo, m: Metric) -> u64 {
    match m {
        Metric::Cpu => p.cpu,
        Metric::Memory => p.memory_mb,
        Metric::Disk => p.disk_kbps,
        Metric::Network => p.network_kbps,
    }
}

/// The value of a process in one dimension.
pub fn metric_value(p: &ProcessInfo, m: Metric) -> (r: u64)
    ensures
        r == metric_of(*p, m),
{
    match m {
        Metric::Cpu => p.cpu,
        Metric::Memory => p.memory_mb,
        Metric::Disk => p.disk_kbps,
        Metric::Network => p.network_kbps,
    }
}

/// `s` with `x` placed after every element whose value is at least its own.
pub open spec fn insert_desc(s: Seq<ProcessInfo>, x: ProcessInfo, m: Metric) -> Seq<ProcessInfo>
    decreases s.len(),
{
    if s.len() == 0 {
        seq![x]
    } else if metric_of(s[0], m) < metric_of(x, m) {
        seq![x] + s
    } else {
        seq![s[0]] + insert_desc(s.drop_first(), x, m)
    }
}

/// `s` sorted by decreasing value, equal values kept in their order in `s`.
pub open spec fn sort_desc(s: Seq<ProcessInfo>, m: Metric) -> Seq<ProcessInfo>
    decreases s.len(),
{
    if s.len() == 0 {
        s
    } else {
        insert_desc(sort_desc(s.drop_last(), m), s.last(), m)
    }
}

/// Whether `s` is ordered by non-increasing value.
pub open spec fn sorted_desc(s: Seq<ProcessInfo>, m: Metric) -> bool {
    forall|i: int, j: int| 0 <= i < j < s.len() ==> metric_of(s[i], m) >= metric_of(s[j], m)
}

/// Placing `x` at the first position whose value is below its own is what
/// `insert_desc` does.
proof fn lemma_insert_at(s: Seq<ProcessInfo>, x: ProcessInfo, m: Metric, p: int)
    requires
        0 <= p <= s.len(),
        forall|k: int| 0 <= k < p ==> metric_of(s[k], m) >= metric_of(x, m),
        p == s.len() || metric_of(s[p], m) < metric_of(x, m),
    ensures
        insert_desc(s, x, m) == s.insert(p, x),
    decreases p,
{
    if s.len() == 0 {
        assert(s.insert(p, x) =~= seq![x]);
    } else if p == 0 {
        assert(s.insert(p, x) =~= seq![x] + s);
    } else {
        lemma_insert_at(s.drop_first(), x, m, p - 1);
        assert(s.insert(p, x) =~= seq![s[0]] + s.drop_first().insert(p - 1, x));
    }
}

/// Inserting keeps the length, the elements and the order.
pub proof fn lemma_insert_desc(s: Seq<ProcessInfo>, x: ProcessInfo, m: Metric)
    ensures
        insert_desc(s, x, m).len() == s.len() + 1,
        forall|i: int|
            0 <= i < insert_desc(s, x, m).len() ==> (insert_desc(s, x, m)[i] == x || s.contains(
                insert_desc(s, x, m)[i],
            )),
        insert_desc(s, x, m).contains(x),
        forall|y: ProcessInfo| s.contains(y) ==> insert_desc(s, x, m).contains(y),
        sorted_desc(s, m) ==> sorted_desc(insert_desc(s, x, m), m),
    decreases s.len(),
{
    let r = insert_desc(s, x, m);
    if s.len() == 0 {
        assert(r[0] == x);
    } else if metric_of(s[0], m) < metric_of(x, m) {
        assert(r[0] == x);
        assert forall|i: int| 0 <= i < r.len() implies (r[i] == x || s.contains(r[i])) by {
            if i > 0 {
                assert(r[i] == s[i - 1]);
            }
        }
        assert forall|y: ProcessInfo| s.contains(y) implies r.contains(y) by {
            let k = choose|k: int| 0 <= k < s.len() && s[k] == y;
            assert(r[k + 1] == y);
        }
    } else {
        let t = s.drop_first();
        lemma_insert_desc(t, x, m);
        let rt = insert_desc(t, x, m);
        assert(r == seq![s[0]] + rt);
        assert forall|i: int| 0 <= i < r.len() implies (r[i] == x || s.contains(r[i])) by {
            if i == 0 {
                assert(s[0] == r[0]);
            } else {
                assert(r[i] == rt[i - 1]);
                if rt[i - 1] != x {
                    let k = choose|k: int| 0 <= k < t.len() && t[k] == rt[i - 1];
                    assert(s[k + 1] == r[i]);
                }
            }
        }
        let kx = choose|k: int| 0 <= k < rt.len() && rt[k] == x;
        assert(r[kx + 1] == x);
        assert forall|y: ProcessInfo| s.contains(y) implies r.contains(y) by {
            let k = choose|k: int| 0 <= k < s.len() && s[k] == y;
            if k == 0 {
                assert(r[0] == y);
            } else {
                assert(t[k - 1] == y);
                assert(t.contains(y));
                let j = choose|j: int| 0 <= j < rt.len() && rt[j] == y;
                assert(r[j + 1] == y);
            }
        }
        if sorted_desc(s, m) {
            assert(sorted_desc(t, m));
            assert forall|i: int, j: int| 0 <= i < j < r.len() implies metric_of(r[i], m)
                >= metric_of(r[j], m) by {
                if i == 0 {
                    assert(r[j] == rt[j - 1]);
                    if rt[j - 1] != x {
                        let k = choose|k: int| 0 <= k < t.len() && t[k] == rt[j - 1];
                        assert(s[k + 1] == t[k]);
                    }
                } else {
                    assert(r[i] == rt[i - 1]);
                    assert(r[j] == rt[j - 1]);
                }
            }
        }
    }
}

/// Sorting keeps the length and the elements, and orders them.
pub proof fn lemma_sort_desc(s: Seq<ProcessInfo>, m: Metric)
    ensures
        sort_desc(s, m).len() == s.len(),
        forall|i: int| 0 <= i < s.len() ==> s.contains(#[trigger] sort_desc(s, m)[i]),
        forall|y: ProcessInfo| s.contains(y) ==> sort_desc(s, m).contains(y),
        sorted_desc(sort_desc(s, m), m),
    decreases s.len(),
{
    if s.len() > 0 {
        let init = s.drop_last();
        lemma_sort_desc(init, m);
        let si = sort_desc(init, m);
        lemma_insert_desc(si, s.last(), m);
        let r = sort_desc(s, m);
        assert forall|i: int| 0 <= i < s.len() implies s.contains(#[trigger] r[i]) by {
            if r[i] != s.last() {
                assert(si.contains(r[i]));
                let j = choose|j: int| 0 <= j < si.len() && si[j] == r[i];
                assert(init.contains(si[j]));
                let k = choose|k: int| 0 <= k < init.len() && init[k] == si[j];
                assert(s[k] == r[i]);
            } else {
                assert(s[s.len() - 1] == r[i]);
            }
        }
        assert forall|y: ProcessInfo| s.contains(y) implies r.contains(y) by {
            let k = choose|k: int| 0 <= k < s.len() && s[k] == y;
            if k < s.len() - 1 {
                assert(init[k] == y);
                assert(init.contains(y));
                assert(si.contains(y));
            }
        }
    }
}

/// `insert_desc` places `x` at some position of `s`.
proof fn lemma_insert_desc_position(s: Seq<ProcessInfo>, x: ProcessInfo, m: Metric) -> (p: int)
    ensures
        0 <= p <= s.len(),
        insert_desc(s, x, m) == s.insert(p, x),
    decreases s.len(),
{
    if s.len() == 0 {
        assert(s.insert(0, x) =~= seq![x]);
        0
    } else if metric_of(s[0], m) < metric_of(x, m) {
        assert(s.insert(0, x) =~= seq![x] + s);
        0
    } else {
        let q = lemma_insert_desc_position(s.drop_first(), x, m);
        assert(s.insert(q + 1, x) =~= seq![s[0]] + s.drop_first().insert(q, x));
        q + 1
    }
}

/// Sorting keeps every process exactly as often as it occurs.
pub proof fn lemma_sort_desc_multiset(s: Seq<ProcessInfo>, m: Metric)
    ensures
        sort_desc(s, m).to_multiset() == s.to_multiset(),
    decreases s.len(),
{
    if s.len() > 0 {
        let init = s.drop_last();
        lemma_sort_desc_multiset(init, m);
        let si = sort_desc(init, m);
        let x = s.last();
        let p = lemma_insert_desc_position(si, x, m);
        let r = si.insert(p, x);
        assert(r.remove(p) =~= si);
        r.to_multiset_ensures();
        assert(r[p] == x);
        assert(r.to_multiset() =~= si.to_multiset().insert(x));
        init.to_multiset_ensures();
        assert(init.push(x) =~= s);
    }
}

/// The processes sorted by decreasing value in one dimension; processes
/// with equal values keep their relative order.
pub fn sort_by_metric(v: &Vec<ProcessInfo>, m: Metric) -> (r: Vec<ProcessInfo>)
    ensures
        r@ == sort_desc(v@, m),
{
    let n = v.len();
    let mut out: Vec<ProcessInfo> = Vec::new();
    let mut i: usize = 0;
    while i < n
        invariant
            n == v@.len(),
            i <= n,
            out@ == sort_desc(v@.take(i as int), m),
        decreases n - i,
    {
        let x = v[i].duplicate();
        let key = metric_value(&x, m);
        let mut p: usize = 0;
        while p < out.len() && metric_value(&out[p], m) >= key
            invariant
                p <= out@.len(),
                key == metric_of(x, m),
                forall|k: int| 0 <= k < p ==> metric_of(out@[k], m) >= metric_of(x, m),
            decreases out@.len() - p,
        {
            p = p + 1;
        }
        proof {
            lemma_insert_at(out@, x, m, p as int);
            assert(v@.take(i + 1).drop_last() =~= v@.take(i as int));
            assert(v@.take(i + 1).last() == x);
        }
        out.insert(p, x);
        i = i + 1;
    }
    assert(v@.take(n as int) =~= v@);
    out
}

/// Bytes in one megabyte (MiB).
pub const BYTES_PER_MB: u64 = 1_048_576;

/// CPU share, in hundredths of a percent, that a record never exceeds.
pub const CPU_CEILING: u64 = 10_000;

/// A byte count in hundredths of a megabyte, rounded down.
pub open spec fn centi_mb(bytes: nat) -> nat {
    bytes * 100 / BYTES_PER_MB as nat
}

/// A byte count in hundredths of a megabyte, rounded down.
pub fn bytes_to_centi_mb(bytes: u64) -> (r: u64)
    ensures
        r == centi_mb(bytes as nat),
{
    let wide: u128 = bytes as u128 * 100;
    (wide / BYTES_PER_MB as u128) as u64
}

/// What the process table reports of one process. `cpu` is in hundredths of
/// a percent, as measured (it may exceed a single core's share).
#[derive(Clone, Debug)]
pub struct ProcessSample {
    pub pid: i32,
    pub name: String,
    pub path: Option<String>,
    pub cmd: Vec<String>,
    pub cpu: u64,
    pub memory_bytes: u64,
    pub parent_pid: Option<i32>,
}

/// The command line of a process: its arguments joined by spaces, or none
/// when there are no arguments.
pub open spec fn command_line_of(cmd: Seq<String>) -> Option<Seq<char>> {
    if cmd.len() == 0 {
        None
    } else {
        Some(joined(text_views(cmd), " "@))
    }
}

/// Whether `r` is the record built from sample `s`: CPU capped at
/// `CPU_CEILING`, memory in hundredths of a megabyte, the quick trust
/// verdict of its path and the risk that follows, and zero for the rates
/// that nothing measures yet.
pub open spec fn record_fits(r: ProcessInfo, s: ProcessSample) -> bool {
    let signed = match s.path {
        Some(p) => is_trusted_location(lower_of(p@)),
        None => false,
    };
    &&& r.pid == s.pid
    &&& r.name == s.name
    &&& r.cpu == if s.cpu > CPU_CEILING {
        CPU_CEILING
    } else {
        s.cpu
    }
    &&& r.memory_mb == centi_mb(s.memory_bytes as nat)
    &&& r.path == s.path
    &&& r.signed == signed
    &&& r.publisher is None
    &&& r.risk@ == risk_of(opt_seq(s.path), None, signed, Some(s.name@)).label_spec()
    &&& opt_seq(r.command_line) == command_line_of(s.cmd@)
    &&& r.parent_pid == s.parent_pid
    &&& r.network_kbps == 0
    &&& r.gpu_percent == 0
    &&& r.disk_kbps == 0
}

/// A text as an optional borrowed text.
fn as_opt_str(s: &Option<String>) -> (r: Option<&str>)
    ensures
        crate::trust::opt_view(r) == opt_seq(*s),
{
    match s {
        Some(t) => Some(t.as_str()),
        None => None,
    }
}

/// The record of one sampled process.
pub fn process_record(s: ProcessSample) -> (r: ProcessInfo)
    ensures
        record_fits(r, s),
{
    let ghost s0 = s;
    let trust = quick_trust_from_path(as_opt_str(&s.path));
    let risk = assess_risk(as_opt_str(&s.path), None, trust.signed, Some(s.name.as_str()));
    let command_line = if s.cmd.len() == 0 {
        None
    } else {
        Some(join_texts(&s.cmd, " "))
    };
    let cpu = if s.cpu > CPU_CEILING {
        CPU_CEILING
    } else {
        s.cpu
    };
    ProcessInfo {
        pid: s.pid,
        name: s.name,
        cpu,
        memory_mb: bytes_to_centi_mb(s.memory_bytes),
        path: s.path,
        signed: trust.signed,
        publisher: trust.publisher,
        risk,
        command_line,
        parent_pid: s.parent_pid,
        network_kbps: 0,
        gpu_percent: 0,
        disk_kbps: 0,
    }
}

/// The snapshot built from the sampled processes: one record per sample,
/// sorted by decreasing CPU (equal values in sampling order).
pub fn snapshot_from_samples(samples: Vec<ProcessSample>) -> (r: Vec<ProcessInfo>)
    ensures
        exists|recs: Seq<ProcessInfo>|
            {
                &&& recs.len() == samples@.len()
                &&& forall|i: int| 0 <= i < recs.len() ==> record_fits(#[trigger] recs[i], samples@[i])
                &&& r@ == sort_desc(recs, Metric::Cpu)
            },
        forall|i: int| 0 <= i < r@.len() ==> (#[trigger] r@[i]).wf(),
{
    let n = samples.len();
    let mut records: Vec<ProcessInfo> = Vec::new();
    let mut rest = samples;
    let ghost all = rest@;
    let mut i: usize = 0;
    while i < n
        invariant
            n == all.len(),
            i <= n,
            rest@ == all.subrange(i as int, n as int),
            records@.len() == i,
            forall|k: int| 0 <= k < i ==> record_fits(#[trigger] records@[k], all[k]),
        decreases n - i,
    {
        let s = rest.remove(0);
        assert(s == all[i as int]);
        records.push(process_record(s));
        i = i + 1;
        assert(rest@ =~= all.subrange(i as int, n as int));
    }
    let sorted = sort_by_metric(&records, Metric::Cpu);
    proof {
        lemma_sort_desc(records@, Metric::Cpu);
        assert forall|k: int| 0 <= k < sorted@.len() implies (#[trigger] sorted@[k]).wf() by {
            assert(records@.contains(sorted@[k]));
            let j = choose|j: int| 0 <= j < records@.len() && records@[j] == sorted@[k];
            assert(record_fits(records@[j], all[j]));
        }
    }
    assert(records@.len() == samples@.len());
    sorted
}

/// `p` with an authoritative trust verdict and the risk that follows from it.
pub fn apply_trust(p: ProcessInfo, trust: TrustMetadata) -> (r: ProcessInfo)
    ensures
        r.signed == trust.signed,
        r.publisher == trust.publisher,
        r.risk@ == risk_of(opt_seq(p.path), opt_seq(trust.publisher), trust.signed, Some(p.name@)).label_spec(),
        r.pid == p.pid,
        r.name == p.name,
        r.cpu == p.cpu,
        r.memory_mb == p.memory_mb,
        r.path == p.path,
        r.command_line == p.command_line,
        r.parent_pid == p.parent_pid,
        r.network_kbps == p.network_kbps,
        r.gpu_percent == p.gpu_percent,
        r.disk_kbps == p.disk_kbps,
{
    let risk = assess_risk(
        as_opt_str(&p.path),
        as_opt_str(&trust.publisher),
        trust.signed,
        Some(p.name.as_str()),
    );
    ProcessInfo { signed: trust.signed, publisher: trust.publisher, risk, ..p }
}

/// The first process of the snapshot with the given pid.
pub fn find_process(processes: &Vec<ProcessInfo>, pid: i32) -> (r: Option<ProcessInfo>)
    ensures
        match r {
            Some(p) => exists|i: int|
                0 <= i < processes@.len() && processes@[i] == p && p.pid == pid && forall|k: int|
                    0 <= k < i ==> (#[trigger] processes@[k]).pid != pid,
            None => forall|k: int| 0 <= k < processes@.len() ==> (#[trigger] processes@[k]).pid != pid,
        },
{
    let n = processes.len();
    let mut i: usize = 0;
    while i < n
        invariant
            n == processes@.len(),
            i <= n,
            forall|k: int| 0 <= k < i ==> (#[trigger] processes@[k]).pid != pid,
        decreases n - i,
    {
        if processes[i].pid == pid {
            return Some(processes[i].duplicate());
        }
        i = i + 1;
    }
    None
}

/// Every process of a snapshot, busiest first.
#[derive(Clone, Debug)]
pub struct ListProcessesResponse {
    pub processes: Vec<ProcessInfo>,
}

/// One process with its authoritative trust verdict, if it was found.
#[derive(Clone, Debug)]
pub struct ProcessDetailsResponse {
    pub process: Option<ProcessInfo>,
}

/// The outcome of a request to terminate a process.
#[derive(Clone, Debug)]
pub struct KillProcessResponse {
    pub success: bool,
    pub pid: i32,
    pub message: String,
}

/// The response to a kill request, given whether termination succeeded.
pub fn kill_response(pid: i32, killed: bool) -> (r: KillProcessResponse)
    ensures
        r.success == killed,
        r.pid == pid,
        r.message@ == if killed {
            "Process terminated."@
        } else {
            "Process not found or could not be terminated."@
        },
{
    let message = if killed {
        String::from_str("Process terminated.")
    } else {
        String::from_str("Process not found or could not be terminated.")
    };
    KillProcessResponse { success: killed, pid, message }
}

/// The change event that records a terminated process.
pub open spec fn kill_event(pid: i32, now: i64) -> ChangeView {
    ChangeView {
        id: None,
        detected_utc: now,
        category: "Process"@,
        change_type: "Removed"@,
        name: Some("PID "@ + signed_decimal(pid as int)),
        path: None,
        details: Some("Process terminated by user action"@),
        is_approved: false,
        is_ignored: false,
    }
}

/// The change event that records a process terminated at `now`.
pub fn kill_change_event(pid: i32, now: i64) -> (r: ChangeEvent)
    ensures
        r@ == kill_event(pid, now),
{
    let mut name = String::from_str("PID ");
    append_signed(&mut name, pid as i64);
    ChangeEvent {
        id: None,
        detected_utc: now,
        category: String::from_str("Process"),
        change_type: String::from_str("Removed"),
        name: Some(name),
        path: None,
        details: Some(String::from_str("Process terminated by user action")),
        is_approved: false,
        is_ignored: false,
    }
}

} // verus!
