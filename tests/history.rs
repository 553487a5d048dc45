use sentinel::analyzer::SpikeEventsResponse;
use sentinel::state::{archive_log_name, is_log_extension, log_line, AppState};
use sentinel::store::{history_days, select_changes, select_spikes, window_start, ChangeEvent, SpikeEvent, MILLIS_PER_DAY};

fn spike(id: i64, start: i64) -> SpikeEvent {
    SpikeEvent {
        id: Some(id),
        start_utc: start,
        end_utc: start,
        pid: Some(10),
        process_name: Some("busy".to_string()),
        metric: "Cpu".to_string(),
        peak_value: 9100,
        duration_seconds: 1,
        context: Some("High process CPU detected during scan".to_string()),
        possible_leak: false,
    }
}

fn change(id: i64, at: i64) -> ChangeEvent {
    ChangeEvent {
        id: Some(id),
        detected_utc: at,
        category: "Scan".to_string(),
        change_type: "Completed".to_string(),
        name: None,
        path: None,
        details: None,
        is_approved: false,
        is_ignored: false,
    }
}

const NOW: i64 = 1_800_000_000_000;

#[test]
fn stored_spike_comes_back_unchanged() {
    let rows = vec![spike(1, NOW - 5)];
    let out = select_spikes(rows, NOW, 1);
    assert_eq!(out.len(), 1);
    let e = &out[0];
    assert_eq!(e.id, Some(1));
    assert_eq!(e.start_utc, NOW - 5);
    assert_eq!(e.pid, Some(10));
    assert_eq!(e.process_name.as_deref(), Some("busy"));
    assert_eq!(e.peak_value, 9100);
    assert_eq!(e.context.as_deref(), Some("High process CPU detected during scan"));
}

#[test]
fn window_edge_at_ten_days() {
    let edge = NOW - 10 * MILLIS_PER_DAY;
    assert!(select_spikes(vec![spike(1, edge)], NOW, 7).is_empty());
    assert_eq!(select_spikes(vec![spike(1, edge)], NOW, 10).len(), 1);
    assert!(select_changes(vec![change(1, edge)], NOW, 7).is_empty());
    assert_eq!(select_changes(vec![change(1, edge)], NOW, 10).len(), 1);
}

#[test]
fn days_back_below_one_means_one_day() {
    assert_eq!(window_start(NOW, 0), NOW - MILLIS_PER_DAY);
    assert_eq!(window_start(NOW, -4), NOW - MILLIS_PER_DAY);
    assert_eq!(window_start(NOW, 3), NOW - 3 * MILLIS_PER_DAY);
    assert_eq!(window_start(0, i64::MAX), i64::MIN);
    let rows = vec![spike(1, NOW - MILLIS_PER_DAY), spike(2, NOW - MILLIS_PER_DAY - 1)];
    let out = select_spikes(rows, NOW, 0);
    assert_eq!(out.len(), 1);
    assert_eq!(out[0].id, Some(1));
}

#[test]
fn newest_first_with_ties_in_storage_order() {
    let rows = vec![spike(1, NOW - 300), spike(2, NOW - 100), spike(3, NOW - 300), spike(4, NOW - 200)];
    let out = select_spikes(rows, NOW, 7);
    let ids: Vec<Option<i64>> = out.iter().map(|e| e.id).collect();
    assert_eq!(ids, vec![Some(2), Some(4), Some(1), Some(3)]);
    let changes = select_changes(vec![change(1, NOW - 2), change(2, NOW - 1)], NOW, 7);
    assert_eq!(changes[0].id, Some(2));
}

#[test]
fn history_defaults_to_a_week() {
    assert_eq!(history_days(None), 7);
    assert_eq!(history_days(Some(30)), 30);
    let r = SpikeEventsResponse { spike_events: Vec::new(), change_events: Vec::new() };
    assert!(r.spike_events.is_empty());
}

#[test]
fn data_layout() {
    let s = AppState::initialize("/home/u/.local/share");
    assert_eq!(s.logs_dir, "/home/u/.local/share/Sentinel/logs");
    assert_eq!(s.reports_dir, "/home/u/.local/share/Sentinel/reports");
    assert_eq!(s.exports_dir, "/home/u/.local/share/Sentinel/exports");
    assert_eq!(s.db_path, "/home/u/.local/share/Sentinel/Data/sentinel.db");
    assert_eq!(s.latest_report_path(), "/home/u/.local/share/Sentinel/reports/latest.json");
    assert_eq!(s.log_file_path("2026-10-19"), "/home/u/.local/share/Sentinel/logs/2026-10-19.log");
    assert_eq!(
        s.export_path("2026-10-19_10-30"),
        "/home/u/.local/share/Sentinel/exports/Sentinel_Report_2026-10-19_10-30.zip"
    );
    let dirs = s.required_dirs();
    assert_eq!(dirs.len(), 5);
    assert_eq!(dirs[0], "/home/u/.local/share/Sentinel");
    assert_eq!(dirs[4], "/home/u/.local/share/Sentinel/Data");
}

#[test]
fn log_and_archive_names() {
    assert_eq!(log_line("2026-10-19T10:00:00+00:00", "hello"), "[2026-10-19T10:00:00+00:00] hello");
    assert!(is_log_extension(Some("LOG")));
    assert!(is_log_extension(Some("log")));
    assert!(!is_log_extension(Some("txt")));
    assert!(!is_log_extension(None));
    assert_eq!(archive_log_name(Some("2026-10-19.log")), "logs/2026-10-19.log");
    assert_eq!(archive_log_name(None), "logs/sentinel.log");
}
