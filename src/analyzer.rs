//! The analyzer: aggregate totals, top offenders per dimension, findings
//! about resource pressure and spike events.

use vstd::prelude::*;
use vstd::string::StringExecFns;
use crate::process::{
    lemma_sort_desc, lemma_sort_desc_multiset, metric_of, metric_value, sort_by_metric, sort_desc, sorted_desc, Metric,
    ProcessInfo,
};
use crate::store::{ChangeEvent, ChangeView, SpikeEvent, SpikeView};
use crate::process::{bytes_to_centi_mb, centi_mb};
use crate::store::opt_seq;
use crate::text::{
    append_decimal, append_fixed2, chars_of, decimal, fixed2, trim_bounds, trim_seq,
};

verus! {

/// How many processes a top-offender list holds at most.
pub const TOP_LIMIT: usize = 10;

/// Total CPU, in hundredths of a percent, above which a finding is raised.
pub const CPU_FINDING_THRESHOLD: u128 = 8000;

/// Total memory, in hundredths of a megabyte, above which a finding is raised.
pub const MEMORY_FINDING_THRESHOLD: u128 = 1_200_000;

/// Process CPU, in hundredths of a percent, from which a spike is recorded.
pub const PROCESS_SPIKE_THRESHOLD: u64 = 8000;

/// Total CPU, in hundredths of a percent, above which a system-wide spike is
/// recorded.
pub const SYSTEM_SPIKE_THRESHOLD: u128 = 8500;

/// How many process spikes one analysis records at most.
pub const SPIKE_CAP: usize = 3;

/// How many processes a finding's evidence names at most.
pub const EVIDENCE_LIMIT: usize = 5;

/// The smaller of two integers.
pub open spec fn min_int(a: int, b: int) -> int {
    if a < b {
        a
    } else {
        b
    }
}

/// The top offenders in one dimension: the processes sorted by decreasing
/// value (equal values in snapshot order), at most `TOP_LIMIT` of them.
pub open spec fn top_spec(s: Seq<ProcessInfo>, m: Metric) -> Seq<ProcessInfo> {
    sort_desc(s, m).take(min_int(TOP_LIMIT as int, s.len() as int))
}

/// The top offenders in one dimension.
pub fn top_by(processes: &Vec<ProcessInfo>, m: Metric) -> (r: Vec<ProcessInfo>)
    ensures
        r@ == top_spec(processes@, m),
{
    let mut list = sort_by_metric(processes, m);
    proof {
        lemma_sort_desc(processes@, m);
    }
    list.truncate(TOP_LIMIT);
    assert(list@ =~= top_spec(processes@, m));
    list
}

/// A top-offender list has `min(N, TOP_LIMIT)` entries, is ordered by
/// non-increasing value, and holds only processes of the snapshot, none
/// more often than the snapshot holds it.
pub proof fn lemma_top_offenders(s: Seq<ProcessInfo>, m: Metric)
    ensures
        top_spec(s, m).len() == min_int(s.len() as int, TOP_LIMIT as int),
        sorted_desc(top_spec(s, m), m),
        forall|i: int| 0 <= i < top_spec(s, m).len() ==> s.contains(#[trigger] top_spec(s, m)[i]),
        forall|p: ProcessInfo| #[trigger] top_spec(s, m).to_multiset().count(p) <= s.to_multiset().count(p),
{
    lemma_sort_desc(s, m);
    lemma_sort_desc_multiset(s, m);
    let sorted = sort_desc(s, m);
    let k = min_int(TOP_LIMIT as int, s.len() as int);
    assert(sorted =~= sorted.take(k) + sorted.skip(k));
    vstd::seq_lib::lemma_multiset_commutative(sorted.take(k), sorted.skip(k));
    let t = top_spec(s, m);
    assert forall|i: int| 0 <= i < t.len() implies s.contains(#[trigger] t[i]) by {
        assert(t[i] == sort_desc(s, m)[i]);
    }
}

/// The sum of the values of all processes in one dimension.
pub open spec fn total_spec(s: Seq<ProcessInfo>, m: Metric) -> nat
    decreases s.len(),
{
    if s.len() == 0 {
        0
    } else {
        (total_spec(s.drop_last(), m) + metric_of(s.last(), m)) as nat
    }
}

/// The sum stays within `len * u64::MAX`.
proof fn lemma_total_bound(s: Seq<ProcessInfo>, m: Metric)
    ensures
        total_spec(s, m) <= s.len() * 0xffff_ffff_ffff_ffff,
    decreases s.len(),
{
    if s.len() > 0 {
        lemma_total_bound(s.drop_last(), m);
        let n = s.len() as int;
        assert((n - 1) * 0xffff_ffff_ffff_ffff + 0xffff_ffff_ffff_ffff == n * 0xffff_ffff_ffff_ffff)
            by (nonlinear_arith);
    }
}

/// The sum of the values of all processes in one dimension.
pub fn total_by(processes: &Vec<ProcessInfo>, m: Metric) -> (r: u128)
    ensures
        r == total_spec(processes@, m),
{
    let n = processes.len();
    let mut acc: u128 = 0;
    let mut i: usize = 0;
    while i < n
        invariant
            n == processes@.len(),
            i <= n,
            acc == total_spec(processes@.take(i as int), m),
        decreases n - i,
    {
        let ghost t = processes@.take(i + 1);
        proof {
            assert(t.drop_last() =~= processes@.take(i as int));
            lemma_total_bound(t, m);
            assert(t.len() <= 0xffff_ffff_ffff_ffff) by {
                assert(i < n);
            }
            assert(t.len() * 0xffff_ffff_ffff_ffff <= 0xffff_ffff_ffff_ffff * 0xffff_ffff_ffff_ffff)
                by (nonlinear_arith)
                requires
                    t.len() <= 0xffff_ffff_ffff_ffff,
            ;
        }
        acc = acc + metric_value(&processes[i], m) as u128;
        i = i + 1;
    }
    assert(processes@.take(n as int) =~= processes@);
    acc
}

/// An advisory about current system health.
#[derive(Clone, Debug)]
pub struct AnalyzerFinding {
    pub title: String,
    pub category: String,
    pub severity: String,
    pub explanation: String,
    pub evidence: String,
    pub recommended_actions: Vec<String>,
}

/// The kinds of finding that an analysis raises.
#[derive(Clone, Copy, Debug, PartialEq, Eq, Structural)]
pub enum FindingKind {
    HighCpu,
    HighMemory,
    Healthy,
}

/// The findings raised for the given totals: high CPU and high memory where
/// their thresholds are passed, else the single healthy finding.
pub open spec fn finding_kinds(total_cpu: nat, total_mem: nat) -> Seq<FindingKind> {
    let raised = (if total_cpu > CPU_FINDING_THRESHOLD {
        seq![FindingKind::HighCpu]
    } else {
        Seq::empty()
    }) + (if total_mem > MEMORY_FINDING_THRESHOLD {
        seq![FindingKind::HighMemory]
    } else {
        Seq::empty()
    });
    if raised.len() == 0 {
        seq![FindingKind::Healthy]
    } else {
        raised
    }
}

impl FindingKind {
    pub open spec fn title(self) -> Seq<char> {
        match self {
            FindingKind::HighCpu => "High CPU usage"@,
            FindingKind::HighMemory => "High memory usage"@,
            FindingKind::Healthy => "No major issues detected"@,
        }
    }

    pub open spec fn category(self) -> Seq<char> {
        match self {
            FindingKind::HighCpu => "Cpu"@,
            FindingKind::HighMemory => "Memory"@,
            FindingKind::Healthy => "System"@,
        }
    }

    pub open spec fn severity(self) -> Seq<char> {
        match self {
            FindingKind::HighCpu => "warn"@,
            FindingKind::HighMemory => "warn"@,
            FindingKind::Healthy => "ok"@,
        }
    }

    pub open spec fn explanation(self) -> Seq<char> {
        match self {
            FindingKind::HighCpu => "Total CPU usage from top processes is high and may degrade responsiveness."@,
            FindingKind::HighMemory => "Total process memory is high and could trigger paging."@,
            FindingKind::Healthy => "Current CPU and memory conditions appear healthy."@,
        }
    }

    pub open spec fn actions(self) -> Seq<Seq<char>> {
        match self {
            FindingKind::HighCpu => seq![
                "Close or limit heavy applications."@,
                "Investigate repeated CPU spikes in History."@,
            ],
            FindingKind::HighMemory => seq![
                "Close unused applications."@,
                "Check for memory leaks in processes with rising usage."@,
            ],
            FindingKind::Healthy => seq!["Continue monitoring with History and Reports."@],
        }
    }
}

/// One process in a finding's evidence: its name and its value with two
/// decimals and the unit (`%` for CPU, `MB` for memory).
pub open spec fn entry_text(p: ProcessInfo, m: Metric) -> Seq<char> {
    if m == Metric::Cpu {
        p.name@ + " ("@ + fixed2(metric_of(p, m) as nat) + "%)"@
    } else {
        p.name@ + " ("@ + fixed2(metric_of(p, m) as nat) + " MB)"@
    }
}

/// The entries of `s`, separated by `, `.
pub open spec fn entries_text(s: Seq<ProcessInfo>, m: Metric) -> Seq<char>
    decreases s.len(),
{
    if s.len() == 0 {
        Seq::empty()
    } else if s.len() == 1 {
        entry_text(s[0], m)
    } else {
        entries_text(s.drop_last(), m) + ", "@ + entry_text(s.last(), m)
    }
}

/// The first `EVIDENCE_LIMIT` processes of a top list, as evidence text.
pub open spec fn evidence_entries(top: Seq<ProcessInfo>, m: Metric) -> Seq<char> {
    entries_text(top.take(min_int(EVIDENCE_LIMIT as int, top.len() as int)), m)
}

/// The evidence of a finding.
pub open spec fn evidence_text(
    k: FindingKind,
    total_cpu: nat,
    total_mem: nat,
    top_cpu: Seq<ProcessInfo>,
    top_mem: Seq<ProcessInfo>,
) -> Seq<char> {
    match k {
        FindingKind::HighCpu => "Total CPU "@ + fixed2(total_cpu) + "%. Top: "@ + evidence_entries(
            top_cpu,
            Metric::Cpu,
        ),
        FindingKind::HighMemory => "Total memory "@ + fixed2(total_mem) + " MB. Top: "@
            + evidence_entries(top_mem, Metric::Memory),
        FindingKind::Healthy => "System usage within expected range."@,
    }
}

/// Whether the texts of `v` are `expected`.
pub open spec fn texts_are(v: Seq<String>, expected: Seq<Seq<char>>) -> bool {
    v.len() == expected.len() && forall|i: int| 0 <= i < v.len() ==> #[trigger] v[i]@ == expected[i]
}

/// Whether `f` is the finding of kind `k` for the given totals and top lists.
pub open spec fn finding_fits(
    f: AnalyzerFinding,
    k: FindingKind,
    total_cpu: nat,
    total_mem: nat,
    top_cpu: Seq<ProcessInfo>,
    top_mem: Seq<ProcessInfo>,
) -> bool {
    &&& f.title@ == k.title()
    &&& f.category@ == k.category()
    &&& f.severity@ == k.severity()
    &&& f.explanation@ == k.explanation()
    &&& f.evidence@ == evidence_text(k, total_cpu, total_mem, top_cpu, top_mem)
    &&& texts_are(f.recommended_actions@, k.actions())
}

/// Appends the evidence entries of the first processes of `top`.
fn append_entries(s: &mut String, top: &Vec<ProcessInfo>, m: Metric)
    requires
        m == Metric::Cpu || m == Metric::Memory,
    ensures
        final(s)@ == old(s)@ + evidence_entries(top@, m),
{
    let k: usize = if top.len() < EVIDENCE_LIMIT {
        top.len()
    } else {
        EVIDENCE_LIMIT
    };
    let ghost start = s@;
    let mut i: usize = 0;
    while i < k
        invariant
            k == min_int(EVIDENCE_LIMIT as int, top@.len() as int),
            i <= k,
            s@ == start + entries_text(top@.take(i as int), m),
        decreases k - i,
    {
        let ghost before = s@;
        let p = &top[i];
        if i > 0 {
            s.append(", ");
        }
        s.append(p.name.as_str());
        s.append(" (");
        append_fixed2(s, metric_value(p, m) as u128);
        if m == Metric::Cpu {
            s.append("%)");
        } else {
            s.append(" MB)");
        }
        proof {
            let t = top@.take(i + 1);
            assert(t.drop_last() =~= top@.take(i as int));
            assert(t.last() == *p);
            if i > 0 {
                assert(s@ =~= start + (entries_text(top@.take(i as int), m) + ", "@ + entry_text(*p, m)));
            } else {
                assert(top@.take(i as int).len() == 0);
                assert(s@ =~= start + entry_text(*p, m));
            }
        }
        i = i + 1;
    }
    assert(top@.take(k as int) =~= top@.take(min_int(EVIDENCE_LIMIT as int, top@.len() as int)));
}

/// The texts of a list, as owned strings.
fn owned_texts(a: &str, b: Option<&str>) -> (r: Vec<String>)
    ensures
        r@.len() == if b is Some { 2int } else { 1int },
        r@[0]@ == a@,
        b is Some ==> r@[1]@ == b->0@,
{
    let mut r: Vec<String> = Vec::new();
    r.push(String::from_str(a));
    match b {
        Some(t) => r.push(String::from_str(t)),
        None => {},
    }
    r
}

/// The finding of one kind.
fn make_finding(
    k: FindingKind,
    total_cpu: u128,
    total_mem: u128,
    top_cpu: &Vec<ProcessInfo>,
    top_mem: &Vec<ProcessInfo>,
) -> (r: AnalyzerFinding)
    ensures
        finding_fits(r, k, total_cpu as nat, total_mem as nat, top_cpu@, top_mem@),
{
    match k {
        FindingKind::HighCpu => {
            let mut evidence = String::from_str("Total CPU ");
            append_fixed2(&mut evidence, total_cpu);
            evidence.append("%. Top: ");
            append_entries(&mut evidence, top_cpu, Metric::Cpu);
            let actions = owned_texts(
                "Close or limit heavy applications.",
                Some("Investigate repeated CPU spikes in History."),
            );
            let r = AnalyzerFinding {
                title: String::from_str("High CPU usage"),
                category: String::from_str("Cpu"),
                severity: String::from_str("warn"),
                explanation: String::from_str(
                    "Total CPU usage from top processes is high and may degrade responsiveness.",
                ),
                evidence,
                recommended_actions: actions,
            };
            assert(r.evidence@ =~= evidence_text(k, total_cpu as nat, total_mem as nat, top_cpu@, top_mem@));
            r
        },
        FindingKind::HighMemory => {
            let mut evidence = String::from_str("Total memory ");
            append_fixed2(&mut evidence, total_mem);
            evidence.append(" MB. Top: ");
            append_entries(&mut evidence, top_mem, Metric::Memory);
            let actions = owned_texts(
                "Close unused applications.",
                Some("Check for memory leaks in processes with rising usage."),
            );
            let r = AnalyzerFinding {
                title: String::from_str("High memory usage"),
                category: String::from_str("Memory"),
                severity: String::from_str("warn"),
                explanation: String::from_str(
                    "Total process memory is high and could trigger paging.",
                ),
                evidence,
                recommended_actions: actions,
            };
            assert(r.evidence@ =~= evidence_text(k, total_cpu as nat, total_mem as nat, top_cpu@, top_mem@));
            r
        },
        FindingKind::Healthy => {
            let actions = owned_texts("Continue monitoring with History and Reports.", None);
            AnalyzerFinding {
                title: String::from_str("No major issues detected"),
                category: String::from_str("System"),
                severity: String::from_str("ok"),
                explanation: String::from_str("Current CPU and memory conditions appear healthy."),
                evidence: String::from_str("System usage within expected range."),
                recommended_actions: actions,
            }
        },
    }
}

/// Whether `r` holds exactly the findings for the given totals and top lists.
pub open spec fn findings_fit(
    r: Seq<AnalyzerFinding>,
    total_cpu: nat,
    total_mem: nat,
    top_cpu: Seq<ProcessInfo>,
    top_mem: Seq<ProcessInfo>,
) -> bool {
    &&& r.len() == finding_kinds(total_cpu, total_mem).len()
    &&& forall|i: int|
        0 <= i < r.len() ==> finding_fits(
            #[trigger] r[i],
            finding_kinds(total_cpu, total_mem)[i],
            total_cpu,
            total_mem,
            top_cpu,
            top_mem,
        )
}

/// The findings for the given totals: a high-CPU finding when total CPU is
/// above `CPU_FINDING_THRESHOLD`, a high-memory finding when total memory is
/// above `MEMORY_FINDING_THRESHOLD`, each naming the first processes of its
/// top list; when neither is raised, the single healthy finding.
pub fn build_findings(
    total_cpu: u128,
    total_mem: u128,
    top_cpu: &Vec<ProcessInfo>,
    top_mem: &Vec<ProcessInfo>,
) -> (r: Vec<AnalyzerFinding>)
    ensures
        findings_fit(r@, total_cpu as nat, total_mem as nat, top_cpu@, top_mem@),
{
    let ghost kinds = finding_kinds(total_cpu as nat, total_mem as nat);
    let mut findings: Vec<AnalyzerFinding> = Vec::new();
    if total_cpu > CPU_FINDING_THRESHOLD {
        findings.push(make_finding(FindingKind::HighCpu, total_cpu, total_mem, top_cpu, top_mem));
    }
    if total_mem > MEMORY_FINDING_THRESHOLD {
        findings.push(make_finding(FindingKind::HighMemory, total_cpu, total_mem, top_cpu, top_mem));
    }
    if findings.len() == 0 {
        findings.push(make_finding(FindingKind::Healthy, total_cpu, total_mem, top_cpu, top_mem));
    }
    proof {
        if total_cpu > CPU_FINDING_THRESHOLD && total_mem > MEMORY_FINDING_THRESHOLD {
            assert(kinds =~= seq![FindingKind::HighCpu, FindingKind::HighMemory]);
        } else if total_cpu > CPU_FINDING_THRESHOLD {
            assert(kinds =~= seq![FindingKind::HighCpu]);
        } else if total_mem > MEMORY_FINDING_THRESHOLD {
            assert(kinds =~= seq![FindingKind::HighMemory]);
        } else {
            assert(kinds =~= seq![FindingKind::Healthy]);
        }
    }
    findings
}

/// The processes of `s` at or above the process spike threshold, in order.
pub open spec fn hot_processes(s: Seq<ProcessInfo>) -> Seq<ProcessInfo>
    decreases s.len(),
{
    if s.len() == 0 {
        s
    } else if s.last().cpu >= PROCESS_SPIKE_THRESHOLD {
        hot_processes(s.drop_last()).push(s.last())
    } else {
        hot_processes(s.drop_last())
    }
}

/// The spike recorded for a busy process at `now`.
pub open spec fn process_spike(p: ProcessInfo, now: i64) -> SpikeView {
    SpikeView {
        id: None,
        start_utc: now,
        end_utc: now,
        pid: Some(p.pid),
        process_name: Some(p.name@),
        metric: "Cpu"@,
        peak_value: p.cpu as u128,
        duration_seconds: 1,
        context: Some("High process CPU detected during scan"@),
        possible_leak: false,
    }
}

/// The spikes for a top-CPU list: one for each of the first `SPIKE_CAP`
/// processes at or above the threshold.
pub open spec fn process_spikes(top_cpu: Seq<ProcessInfo>, now: i64) -> Seq<SpikeView> {
    let hot = hot_processes(top_cpu);
    hot.take(min_int(SPIKE_CAP as int, hot.len() as int)).map_values(|p: ProcessInfo| process_spike(p, now))
}

/// The views of a list of spike events.
pub open spec fn spike_views(v: Seq<SpikeEvent>) -> Seq<SpikeView> {
    v.map_values(|e: SpikeEvent| e@)
}

/// The spike event of a busy process.
fn make_process_spike(p: &ProcessInfo, now: i64) -> (r: SpikeEvent)
    ensures
        r@ == process_spike(*p, now),
{
    SpikeEvent {
        id: None,
        start_utc: now,
        end_utc: now,
        pid: Some(p.pid),
        process_name: Some(p.name.clone()),
        metric: String::from_str("Cpu"),
        peak_value: p.cpu as u128,
        duration_seconds: 1,
        context: Some(String::from_str("High process CPU detected during scan")),
        possible_leak: false,
    }
}

/// The spike events of the busiest processes.
pub fn detect_spikes(top_cpu: &Vec<ProcessInfo>, now: i64) -> (r: Vec<SpikeEvent>)
    ensures
        spike_views(r@) == process_spikes(top_cpu@, now),
{
    let n = top_cpu.len();
    let mut out: Vec<SpikeEvent> = Vec::new();
    let mut i: usize = 0;
    while i < n
        invariant
            n == top_cpu@.len(),
            i <= n,
            out@.len() == min_int(
                SPIKE_CAP as int,
                hot_processes(top_cpu@.take(i as int)).len() as int,
            ),
            spike_views(out@) == process_spikes(top_cpu@.take(i as int), now),
        decreases n - i,
    {
        let ghost before = top_cpu@.take(i as int);
        let ghost after = top_cpu@.take(i + 1);
        assert(after.drop_last() =~= before);
        let p = &top_cpu[i];
        if p.cpu >= PROCESS_SPIKE_THRESHOLD && out.len() < SPIKE_CAP {
            let ghost old_out = out@;
            out.push(make_process_spike(p, now));
            proof {
                let h = hot_processes(before);
                assert(hot_processes(after) == h.push(*p));
                assert(h.push(*p).take(h.len() + 1int) =~= h.take(h.len() as int).push(*p));
                assert(h.take(h.len() as int) =~= h);
                assert(spike_views(out@) =~= spike_views(old_out).push(process_spike(*p, now)));
                assert(spike_views(out@) =~= process_spikes(after, now));
            }
        } else {
            proof {
                let h = hot_processes(before);
                if p.cpu >= PROCESS_SPIKE_THRESHOLD {
                    assert(hot_processes(after) == h.push(*p));
                    assert(h.push(*p).take(SPIKE_CAP as int) =~= h.take(SPIKE_CAP as int));
                } else {
                    assert(hot_processes(after) == h);
                }
            }
        }
        i = i + 1;
    }
    assert(top_cpu@.take(n as int) =~= top_cpu@);
    out
}

/// The system-wide spike recorded at `now` when total CPU is high.
pub open spec fn system_spike(total_cpu: nat, now: i64) -> SpikeView {
    SpikeView {
        id: None,
        start_utc: now,
        end_utc: now,
        pid: None,
        process_name: Some("System"@),
        metric: "Cpu"@,
        peak_value: total_cpu as u128,
        duration_seconds: 1,
        context: Some("High total CPU usage during analysis"@),
        possible_leak: false,
    }
}

/// All spikes of one analysis: those of the busiest processes, then a
/// system-wide one when total CPU is above `SYSTEM_SPIKE_THRESHOLD`.
pub open spec fn all_spikes(top_cpu: Seq<ProcessInfo>, total_cpu: nat, now: i64) -> Seq<SpikeView> {
    process_spikes(top_cpu, now) + if total_cpu > SYSTEM_SPIKE_THRESHOLD {
        seq![system_spike(total_cpu, now)]
    } else {
        Seq::empty()
    }
}

/// The busy processes are processes of the list, and there are none when
/// every process is below the threshold.
proof fn lemma_hot_processes(s: Seq<ProcessInfo>)
    ensures
        forall|i: int| 0 <= i < hot_processes(s).len() ==> s.contains(#[trigger] hot_processes(s)[i]),
        (forall|i: int| 0 <= i < s.len() ==> (#[trigger] s[i]).cpu < PROCESS_SPIKE_THRESHOLD)
            ==> hot_processes(s).len() == 0,
    decreases s.len(),
{
    if s.len() > 0 {
        let init = s.drop_last();
        lemma_hot_processes(init);
        let h = hot_processes(s);
        assert forall|i: int| 0 <= i < h.len() implies s.contains(#[trigger] h[i]) by {
            if i < hot_processes(init).len() {
                assert(h[i] == hot_processes(init)[i]);
                assert(init.contains(h[i]));
                let k = choose|k: int| 0 <= k < init.len() && init[k] == h[i];
                assert(s[k] == h[i]);
            } else {
                assert(h[i] == s.last());
                assert(s[s.len() - 1] == h[i]);
            }
        }
        if forall|i: int| 0 <= i < s.len() ==> (#[trigger] s[i]).cpu < PROCESS_SPIKE_THRESHOLD {
            assert forall|i: int| 0 <= i < init.len() implies (#[trigger] init[i]).cpu
                < PROCESS_SPIKE_THRESHOLD by {
                assert(init[i] == s[i]);
            }
            assert(s[s.len() - 1].cpu < PROCESS_SPIKE_THRESHOLD);
        }
    }
}

/// How spikes are attributed. Process spikes number at most `SPIKE_CAP`,
/// each with a pid, and none when no process reaches the threshold. At or
/// below `SYSTEM_SPIKE_THRESHOLD` total CPU they are all the spikes; above
/// it exactly one more follows, the system-wide spike, with no pid and the
/// name `System`.
pub proof fn lemma_spike_attribution(top_cpu: Seq<ProcessInfo>, total_cpu: nat, now: i64)
    ensures
        process_spikes(top_cpu, now).len() <= SPIKE_CAP,
        forall|i: int|
            0 <= i < process_spikes(top_cpu, now).len() ==> (#[trigger] process_spikes(top_cpu, now)[i]).pid is Some,
        (forall|i: int| 0 <= i < top_cpu.len() ==> (#[trigger] top_cpu[i]).cpu < PROCESS_SPIKE_THRESHOLD)
            ==> process_spikes(top_cpu, now).len() == 0,
        total_cpu <= SYSTEM_SPIKE_THRESHOLD ==> all_spikes(top_cpu, total_cpu, now) == process_spikes(
            top_cpu,
            now,
        ),
        total_cpu > SYSTEM_SPIKE_THRESHOLD ==> ({
            let a = all_spikes(top_cpu, total_cpu, now);
            &&& a.len() == process_spikes(top_cpu, now).len() + 1
            &&& a.last().pid is None
            &&& a.last().process_name == Some("System"@)
        }),
{
    lemma_hot_processes(top_cpu);
    let a = all_spikes(top_cpu, total_cpu, now);
    if total_cpu <= SYSTEM_SPIKE_THRESHOLD {
        assert(a =~= process_spikes(top_cpu, now));
    }
}

/// At or below `SYSTEM_SPIKE_THRESHOLD` total CPU, no spike is attributed
/// to `System`, provided no process of the list bears that name itself.
pub proof fn lemma_no_system_spike(top_cpu: Seq<ProcessInfo>, total_cpu: nat, now: i64)
    requires
        total_cpu <= SYSTEM_SPIKE_THRESHOLD,
        forall|i: int| 0 <= i < top_cpu.len() ==> (#[trigger] top_cpu[i]).name@ != "System"@,
    ensures
        forall|i: int|
            0 <= i < all_spikes(top_cpu, total_cpu, now).len() ==> (#[trigger] all_spikes(
                top_cpu,
                total_cpu,
                now,
            )[i]).process_name != Some("System"@),
{
    lemma_spike_attribution(top_cpu, total_cpu, now);
    lemma_hot_processes(top_cpu);
    let h = hot_processes(top_cpu);
    let a = all_spikes(top_cpu, total_cpu, now);
    assert forall|i: int| 0 <= i < a.len() implies (#[trigger] a[i]).process_name != Some(
        "System"@,
    ) by {
        assert(a[i] == process_spike(h[i], now));
        assert(top_cpu.contains(h[i]));
        let k = choose|k: int| 0 <= k < top_cpu.len() && top_cpu[k] == h[i];
        assert(top_cpu[k].name@ != "System"@);
    }
}

/// The top offenders in each dimension.
#[derive(Clone, Debug)]
pub struct TopOffenders {
    pub cpu: Vec<ProcessInfo>,
    pub memory: Vec<ProcessInfo>,
    pub disk: Vec<ProcessInfo>,
    pub network: Vec<ProcessInfo>,
}

/// What one analysis of a snapshot computes. Totals are in hundredths of a
/// percent (CPU) and of a megabyte (memory).
#[derive(Clone, Debug)]
pub struct Analysis {
    pub total_cpu: u128,
    pub total_mem: u128,
    pub top_offenders: TopOffenders,
    pub findings: Vec<AnalyzerFinding>,
    pub spikes: Vec<SpikeEvent>,
}

/// Analyzes a snapshot taken at `now`: totals over every process, the top
/// offenders per dimension, the findings, and the spike events.
pub fn analyze(processes: &Vec<ProcessInfo>, now: i64) -> (r: Analysis)
    ensures
        r.total_cpu == total_spec(processes@, Metric::Cpu),
        r.total_mem == total_spec(processes@, Metric::Memory),
        r.top_offenders.cpu@ == top_spec(processes@, Metric::Cpu),
        r.top_offenders.memory@ == top_spec(processes@, Metric::Memory),
        r.top_offenders.disk@ == top_spec(processes@, Metric::Disk),
        r.top_offenders.network@ == top_spec(processes@, Metric::Network),
        findings_fit(
            r.findings@,
            r.total_cpu as nat,
            r.total_mem as nat,
            r.top_offenders.cpu@,
            r.top_offenders.memory@,
        ),
        spike_views(r.spikes@) == all_spikes(r.top_offenders.cpu@, r.total_cpu as nat, now),
{
    let total_cpu = total_by(processes, Metric::Cpu);
    let total_mem = total_by(processes, Metric::Memory);
    let top_cpu = top_by(processes, Metric::Cpu);
    let top_mem = top_by(processes, Metric::Memory);
    let top_disk = top_by(processes, Metric::Disk);
    let top_network = top_by(processes, Metric::Network);
    let findings = build_findings(total_cpu, total_mem, &top_cpu, &top_mem);
    let mut spikes = detect_spikes(&top_cpu, now);
    if total_cpu > SYSTEM_SPIKE_THRESHOLD {
        let ghost before = spikes@;
        spikes.push(
            SpikeEvent {
                id: None,
                start_utc: now,
                end_utc: now,
                pid: None,
                process_name: Some(String::from_str("System")),
                metric: String::from_str("Cpu"),
                peak_value: total_cpu,
                duration_seconds: 1,
                context: Some(String::from_str("High total CPU usage during analysis")),
                possible_leak: false,
            },
        );
        assert(spike_views(spikes@) =~= spike_views(before).push(system_spike(total_cpu as nat, now)));
    }
    assert(spike_views(spikes@) =~= all_spikes(top_cpu@, total_cpu as nat, now));
    Analysis {
        total_cpu,
        total_mem,
        top_offenders: TopOffenders {
            cpu: top_cpu,
            memory: top_mem,
            disk: top_disk,
            network: top_network,
        },
        findings,
        spikes,
    }
}

/// The details text of a completed scan.
pub open spec fn scan_details(finding_count: nat, total_cpu: nat, total_mem: nat) -> Seq<char> {
    decimal(finding_count) + " finding(s), total CPU "@ + fixed2(total_cpu) + "%, total memory "@
        + fixed2(total_mem) + " MB"@
}

/// The change event that records a completed scan.
pub open spec fn scan_event(finding_count: nat, total_cpu: nat, total_mem: nat, now: i64) -> ChangeView {
    ChangeView {
        id: None,
        detected_utc: now,
        category: "Scan"@,
        change_type: "Completed"@,
        name: Some("Analysis"@),
        path: None,
        details: Some(scan_details(finding_count, total_cpu, total_mem)),
        is_approved: false,
        is_ignored: false,
    }
}

/// The change event that records a completed scan at `now`.
pub fn scan_completed_event(finding_count: usize, total_cpu: u128, total_mem: u128, now: i64) -> (r:
    ChangeEvent)
    ensures
        r@ == scan_event(finding_count as nat, total_cpu as nat, total_mem as nat, now),
{
    let mut details = String::new();
    append_decimal(&mut details, finding_count as u128);
    details.append(" finding(s), total CPU ");
    append_fixed2(&mut details, total_cpu);
    details.append("%, total memory ");
    append_fixed2(&mut details, total_mem);
    details.append(" MB");
    assert(details@ =~= scan_details(finding_count as nat, total_cpu as nat, total_mem as nat));
    ChangeEvent {
        id: None,
        detected_utc: now,
        category: String::from_str("Scan"),
        change_type: String::from_str("Completed"),
        name: Some(String::from_str("Analysis")),
        path: None,
        details: Some(details),
        is_approved: false,
        is_ignored: false,
    }
}

/// The machine an analysis ran on. Memory is in hundredths of a megabyte.
#[derive(Clone, Debug)]
pub struct SystemSnapshot {
    pub machine_name: String,
    pub os_version: String,
    pub total_physical_memory_mb: u64,
    pub available_memory_mb: u64,
    pub processor_count: usize,
}

/// The operating-system description: its name (or `Unknown OS`), a space
/// and its version (or nothing), trimmed.
pub open spec fn os_description(os_name: Option<Seq<char>>, os_version: Option<Seq<char>>) -> Seq<char> {
    let name = match os_name {
        Some(n) => n,
        None => "Unknown OS"@,
    };
    let version = match os_version {
        Some(v) => v,
        None => Seq::empty(),
    };
    trim_seq(name + " "@ + version)
}

/// The snapshot of the machine from what the system reports: the host name
/// (or `Unknown`), the operating system, memory converted from bytes, and
/// the processor count.
pub fn build_snapshot(
    host_name: Option<String>,
    os_name: Option<String>,
    os_version: Option<String>,
    total_memory_bytes: u64,
    available_memory_bytes: u64,
    processor_count: usize,
) -> (r: SystemSnapshot)
    ensures
        r.machine_name@ == match host_name {
            Some(h) => h@,
            None => "Unknown"@,
        },
        r.os_version@ == os_description(opt_seq(os_name), opt_seq(os_version)),
        r.total_physical_memory_mb == centi_mb(total_memory_bytes as nat),
        r.available_memory_mb == centi_mb(available_memory_bytes as nat),
        r.processor_count == processor_count,
{
    let machine_name = match host_name {
        Some(h) => h,
        None => String::from_str("Unknown"),
    };
    let mut full = match &os_name {
        Some(n) => n.clone(),
        None => String::from_str("Unknown OS"),
    };
    full.append(" ");
    match &os_version {
        Some(v) => full.append(v.as_str()),
        None => {},
    }
    let v = chars_of(full.as_str());
    let (a, b) = trim_bounds(&v, 0, v.len());
    assert(v@.subrange(0, v@.len() as int) =~= v@);
    let os_text = String::from_str(full.as_str().substring_char(a, b));
    assert(os_text@ =~= os_description(opt_seq(os_name), opt_seq(os_version)));
    SystemSnapshot {
        machine_name,
        os_version: os_text,
        total_physical_memory_mb: bytes_to_centi_mb(total_memory_bytes),
        available_memory_mb: bytes_to_centi_mb(available_memory_bytes),
        processor_count,
    }
}

/// The report of one analysis.
#[derive(Clone, Debug)]
pub struct AnalyzeSystemResponse {
    pub generated_utc: String,
    pub app_version: String,
    pub system_snapshot: SystemSnapshot,
    pub top_offenders: TopOffenders,
    pub findings: Vec<AnalyzerFinding>,
    pub recent_spikes: Vec<SpikeEvent>,
    pub report_path: String,
}

/// The report of an analysis, stamped with its time and the path it is
/// saved under.
pub fn build_report(
    analysis: Analysis,
    system_snapshot: SystemSnapshot,
    generated_utc: String,
    report_path: String,
) -> (r: AnalyzeSystemResponse)
    ensures
        r.generated_utc == generated_utc,
        r.app_version@ == "0.1.0"@,
        r.system_snapshot == system_snapshot,
        r.top_offenders == analysis.top_offenders,
        r.findings == analysis.findings,
        r.recent_spikes == analysis.spikes,
        r.report_path == report_path,
{
    AnalyzeSystemResponse {
        generated_utc,
        app_version: String::from_str("0.1.0"),
        system_snapshot,
        top_offenders: analysis.top_offenders,
        findings: analysis.findings,
        recent_spikes: analysis.spikes,
        report_path,
    }
}

/// The spike and change events of a history query.
#[derive(Clone, Debug)]
pub struct SpikeEventsResponse {
    pub spike_events: Vec<SpikeEvent>,
    pub change_events: Vec<ChangeEvent>,
}

/// Where an export was written.
#[derive(Clone, Debug)]
pub struct ExportReportResponse {
    pub export_path: String,
}

} // verus!
