use sentinel::analyzer::{
    analyze, build_findings, build_report, build_snapshot, detect_spikes, scan_completed_event,
    top_by, total_by,
};
use sentinel::process::{
    apply_trust, bytes_to_centi_mb, find_process, kill_change_event, kill_response, process_record,
    snapshot_from_samples, sort_by_metric, Metric, ProcessInfo, ProcessSample,
};
use sentinel::trust::TrustMetadata;

fn proc_with(pid: i32, name: &str, cpu: u64, memory_mb: u64) -> ProcessInfo {
    ProcessInfo {
        pid,
        name: name.to_string(),
        cpu,
        memory_mb,
        path: None,
        signed: false,
        publisher: None,
        risk: "unknown".to_string(),
        command_line: None,
        parent_pid: None,
        network_kbps: 0,
        gpu_percent: 0,
        disk_kbps: 0,
    }
}

#[test]
fn top_list_is_sorted_truncated_and_stable() {
    let mut v = Vec::new();
    for i in 0..12 {
        v.push(proc_with(i, &format!("p{i}"), (i as u64 % 4) * 100, 0));
    }
    let top = top_by(&v, Metric::Cpu);
    assert_eq!(top.len(), 10);
    for w in top.windows(2) {
        assert!(w[0].cpu >= w[1].cpu);
    }
    let pids: Vec<i32> = top.iter().map(|p| p.pid).collect();
    assert_eq!(pids, vec![3, 7, 11, 2, 6, 10, 1, 5, 9, 0]);
}

#[test]
fn top_list_of_few_records_keeps_all() {
    let v = vec![proc_with(1, "a", 0, 5), proc_with(2, "b", 0, 9)];
    let top = top_by(&v, Metric::Memory);
    assert_eq!(top.len(), 2);
    assert_eq!(top[0].pid, 2);
    assert!(top_by(&Vec::new(), Metric::Disk).is_empty());
}

#[test]
fn totals_cover_every_process() {
    let v: Vec<ProcessInfo> = (0..15).map(|i| proc_with(i, "x", 100, 250)).collect();
    assert_eq!(total_by(&v, Metric::Cpu), 1500);
    assert_eq!(total_by(&v, Metric::Memory), 3750);
}

#[test]
fn high_cpu_finding_only() {
    let top = vec![proc_with(1, "a", 5000, 0), proc_with(2, "b", 3100, 0)];
    let f = build_findings(8100, 10000, &top, &top);
    assert_eq!(f.len(), 1);
    assert_eq!(f[0].title, "High CPU usage");
    assert_eq!(f[0].severity, "warn");
    assert_eq!(f[0].category, "Cpu");
    assert_eq!(f[0].evidence, "Total CPU 81.00%. Top: a (50.00%), b (31.00%)");
    assert_eq!(f[0].recommended_actions.len(), 2);
}

#[test]
fn healthy_finding_when_below_thresholds() {
    let f = build_findings(8000, 1_200_000, &Vec::new(), &Vec::new());
    assert_eq!(f.len(), 1);
    assert_eq!(f[0].severity, "ok");
    assert_eq!(f[0].title, "No major issues detected");
    assert_eq!(f[0].evidence, "System usage within expected range.");
}

#[test]
fn both_findings_and_evidence_limit() {
    let top: Vec<ProcessInfo> =
        (0..7).map(|i| proc_with(i, &format!("m{i}"), 0, 200_000 + i as u64)).collect();
    let f = build_findings(9000, 1_400_007, &top, &top);
    assert_eq!(f.len(), 2);
    assert_eq!(f[0].title, "High CPU usage");
    assert_eq!(f[1].title, "High memory usage");
    assert_eq!(
        f[1].evidence,
        "Total memory 14000.07 MB. Top: m0 (2000.00 MB), m1 (2000.01 MB), m2 (2000.02 MB), m3 (2000.03 MB), m4 (2000.04 MB)"
    );
}

#[test]
fn spike_cap_of_three() {
    let top = vec![
        proc_with(1, "a", 9500, 0),
        proc_with(2, "b", 9000, 0),
        proc_with(3, "c", 8500, 0),
        proc_with(4, "d", 8200, 0),
    ];
    let s = detect_spikes(&top, 1_000);
    assert_eq!(s.len(), 3);
    assert!(s.iter().all(|e| e.process_name.as_deref() != Some("System")));
    assert_eq!(s[0].pid, Some(1));
    assert_eq!(s[2].peak_value, 8500);
    assert_eq!(s[0].duration_seconds, 1);
    assert_eq!(s[0].start_utc, 1_000);
    assert_eq!(s[0].end_utc, 1_000);
    assert_eq!(s[0].metric, "Cpu");
    assert_eq!(s[0].context.as_deref(), Some("High process CPU detected during scan"));
    assert!(!s[0].possible_leak);
    assert!(s[0].id.is_none());
}

#[test]
fn spike_threshold_is_inclusive() {
    let top = vec![proc_with(1, "a", 8000, 0), proc_with(2, "b", 7999, 0)];
    let s = detect_spikes(&top, 0);
    assert_eq!(s.len(), 1);
    assert_eq!(s[0].pid, Some(1));
}

#[test]
fn system_spike_alone() {
    let v = vec![proc_with(1, "a", 4300, 0), proc_with(2, "b", 4300, 0)];
    let a = analyze(&v, 77);
    assert_eq!(a.total_cpu, 8600);
    assert_eq!(a.spikes.len(), 1);
    assert_eq!(a.spikes[0].pid, None);
    assert_eq!(a.spikes[0].process_name.as_deref(), Some("System"));
    assert_eq!(a.spikes[0].peak_value, 8600);
    assert_eq!(a.findings.len(), 1);
    assert_eq!(a.findings[0].title, "High CPU usage");
}

#[test]
fn no_system_spike_at_threshold() {
    let v = vec![proc_with(1, "a", 8500, 0)];
    let a = analyze(&v, 0);
    assert_eq!(a.spikes.len(), 1);
    assert_eq!(a.spikes[0].pid, Some(1));
}

#[test]
fn analysis_ranks_every_dimension() {
    let mut v: Vec<ProcessInfo> = (0..11).map(|i| proc_with(i, "x", i as u64, 100 - i as u64)).collect();
    v[3].disk_kbps = 50;
    v[4].network_kbps = 70;
    let a = analyze(&v, 0);
    assert_eq!(a.top_offenders.cpu.len(), 10);
    assert_eq!(a.top_offenders.cpu[0].pid, 10);
    assert_eq!(a.top_offenders.memory[0].pid, 0);
    assert_eq!(a.top_offenders.disk[0].pid, 3);
    assert_eq!(a.top_offenders.network[0].pid, 4);
    assert_eq!(a.findings[0].severity, "ok");
    assert!(a.spikes.is_empty());
}

#[test]
fn scan_event_details() {
    let e = scan_completed_event(2, 8100, 1_200_001, 5);
    assert_eq!(e.details.as_deref(), Some("2 finding(s), total CPU 81.00%, total memory 12000.01 MB"));
    assert_eq!(e.category, "Scan");
    assert_eq!(e.change_type, "Completed");
    assert_eq!(e.name.as_deref(), Some("Analysis"));
    assert_eq!(e.detected_utc, 5);
    let z = scan_completed_event(0, 5, 0, 0);
    assert_eq!(z.details.as_deref(), Some("0 finding(s), total CPU 0.05%, total memory 0.00 MB"));
}

#[test]
fn process_record_from_sample() {
    let s = ProcessSample {
        pid: 42,
        name: "svch0st.exe".to_string(),
        path: Some("C:\\Windows\\svch0st.exe".to_string()),
        cmd: vec!["svch0st.exe".to_string(), "-k".to_string(), "net".to_string()],
        cpu: 25_000,
        memory_bytes: 3 * 1_048_576 / 2,
        parent_pid: Some(4),
    };
    let r = process_record(s);
    assert_eq!(r.cpu, 10_000);
    assert_eq!(r.memory_mb, 150);
    assert!(r.signed);
    assert_eq!(r.risk, "suspicious");
    assert_eq!(r.command_line.as_deref(), Some("svch0st.exe -k net"));
    assert_eq!(r.parent_pid, Some(4));
    assert_eq!(r.disk_kbps, 0);
    let bare = process_record(ProcessSample {
        pid: 7,
        name: "init".to_string(),
        path: None,
        cmd: Vec::new(),
        cpu: 12,
        memory_bytes: 0,
        parent_pid: None,
    });
    assert_eq!(bare.cpu, 12);
    assert!(bare.command_line.is_none());
    assert_eq!(bare.risk, "unknown");
}

#[test]
fn snapshot_sorted_by_cpu() {
    let mk = |pid: i32, cpu: u64| ProcessSample {
        pid,
        name: format!("p{pid}"),
        path: Some("/home/u/p".to_string()),
        cmd: Vec::new(),
        cpu,
        memory_bytes: 0,
        parent_pid: None,
    };
    let snap = snapshot_from_samples(vec![mk(1, 10), mk(2, 300), mk(3, 10), mk(4, 90)]);
    let pids: Vec<i32> = snap.iter().map(|p| p.pid).collect();
    assert_eq!(pids, vec![2, 4, 1, 3]);
    assert_eq!(snap[0].risk, "medium");
    let again = sort_by_metric(&snap, Metric::Cpu);
    assert_eq!(again.iter().map(|p| p.pid).collect::<Vec<_>>(), pids);
}

#[test]
fn memory_conversion() {
    assert_eq!(bytes_to_centi_mb(1_048_576), 100);
    assert_eq!(bytes_to_centi_mb(10_485), 0);
    assert_eq!(bytes_to_centi_mb(10_486), 1);
    assert_eq!(bytes_to_centi_mb(u64::MAX), 1_759_218_604_441_599);
}

#[test]
fn detail_view_uses_authoritative_verdict() {
    let mut p = proc_with(9, "tool", 0, 0);
    p.path = Some("/tmp/tool".to_string());
    let found = find_process(&vec![proc_with(1, "a", 0, 0), p], 9).unwrap();
    let t = apply_trust(found, TrustMetadata { signed: true, publisher: Some("Acme".to_string()) });
    assert!(t.signed);
    assert_eq!(t.publisher.as_deref(), Some("Acme"));
    assert_eq!(t.risk, "low");
    assert!(find_process(&Vec::new(), 3).is_none());
}

#[test]
fn kill_outcomes() {
    let ok = kill_response(12, true);
    assert!(ok.success);
    assert_eq!(ok.message, "Process terminated.");
    let no = kill_response(12, false);
    assert!(!no.success);
    assert_eq!(no.message, "Process not found or could not be terminated.");
    let e = kill_change_event(1234, 9);
    assert_eq!(e.name.as_deref(), Some("PID 1234"));
    assert_eq!(e.category, "Process");
    assert_eq!(e.change_type, "Removed");
    assert_eq!(kill_change_event(-5, 0).name.as_deref(), Some("PID -5"));
    assert_eq!(kill_change_event(0, 0).name.as_deref(), Some("PID 0"));
}

#[test]
fn machine_snapshot_and_report() {
    let s = build_snapshot(None, Some("Ubuntu".to_string()), None, 2 * 1_048_576, 1_048_576, 8);
    assert_eq!(s.machine_name, "Unknown");
    assert_eq!(s.os_version, "Ubuntu");
    assert_eq!(s.total_physical_memory_mb, 200);
    assert_eq!(s.available_memory_mb, 100);
    let t = build_snapshot(Some("host".to_string()), None, Some("22.04".to_string()), 0, 0, 1);
    assert_eq!(t.os_version, "Unknown OS 22.04");
    assert_eq!(t.machine_name, "host");
    let a = analyze(&vec![proc_with(1, "a", 10, 10)], 0);
    let r = build_report(a, s, "2026-01-01T00:00:00+00:00".to_string(), "/r/latest.json".to_string());
    assert_eq!(r.app_version, "0.1.0");
    assert_eq!(r.report_path, "/r/latest.json");
    assert_eq!(r.findings.len(), 1);
}
