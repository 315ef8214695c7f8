use repo_saver::protected::ObservedPath;
use repo_saver::watcher::{
    format_duration, run, start_monitoring, FsEventKind, MonitorAction, MonitorState, WatchEvent,
};

const MS: u128 = 1_000_000;

fn fs(kind: FsEventKind, path: &str) -> WatchEvent {
    WatchEvent::Fs {
        kind,
        need_rescan: false,
        saves_is_dir: true,
        paths: vec![ObservedPath { path: path.to_string(), is_dir: false }],
    }
}

#[test]
fn write_refreshes_and_cancels() {
    let s = MonitorState { last_save_ns: 0, pending_restore_at: Some(5 * MS) };
    let (s2, acts) = run(s, &fs(FsEventKind::Write, "/r/MetaSave.es3"), 7 * MS, 3000, "/r");
    assert_eq!(s2, MonitorState { last_save_ns: 7 * MS, pending_restore_at: None });
    assert_eq!(acts, vec![MonitorAction::RefreshBackup]);
    let (s3, acts) = run(s, &fs(FsEventKind::Write, "/r/notes.txt"), 7 * MS, 3000, "/r");
    assert_eq!(s3, s);
    assert!(acts.is_empty());
}

#[test]
fn late_deletion_restores_now() {
    let s = start_monitoring(0).0;
    let (s2, acts) = run(s, &fs(FsEventKind::Remove, "/r/saves"), 3001 * MS, 3000, "/r");
    assert_eq!(acts, vec![MonitorAction::RestoreNow(3001 * MS)]);
    assert_eq!(s2, MonitorState { last_save_ns: 3001 * MS, pending_restore_at: None });
    assert_eq!(format_duration(3001 * MS + 999_999), "3001 ms");
}

#[test]
fn early_deletion_is_held_then_restored_after_quiet() {
    let s = start_monitoring(0).0;
    let (s1, acts) = run(s, &fs(FsEventKind::Remove, "/r/saves"), 3000 * MS, 3000, "/r");
    assert_eq!(acts, vec![MonitorAction::HoldRestore(3000 * MS)]);
    assert_eq!(s1, MonitorState { last_save_ns: 0, pending_restore_at: Some(3000 * MS) });
    let (s2, acts) = run(s1, &fs(FsEventKind::Remove, "/r/x"), 3100 * MS, 3000, "/r");
    assert_eq!(s2, s1);
    assert!(acts.is_empty());
    let (s3, acts) = run(s1, &WatchEvent::Heartbeat, 5999 * MS, 3000, "/r");
    assert_eq!(s3, s1);
    assert!(acts.is_empty());
    let (s4, acts) = run(s1, &WatchEvent::Heartbeat, 6000 * MS, 3000, "/r");
    assert_eq!(acts, vec![MonitorAction::RestoreAfterQuiet]);
    assert_eq!(s4, MonitorState { last_save_ns: 6000 * MS, pending_restore_at: None });
}

#[test]
fn rewrite_within_window_prevents_restore() {
    let s = start_monitoring(0).0;
    let (s1, _) = run(s, &fs(FsEventKind::Remove, "/r/saves"), 10 * MS, 3000, "/r");
    let (s2, acts) = run(s1, &fs(FsEventKind::Write, "/r/SettingsData.es3"), 20 * MS, 3000, "/r");
    assert_eq!(acts, vec![MonitorAction::RefreshBackup]);
    let (_, acts) = run(s2, &WatchEvent::Heartbeat, 100_000 * MS, 3000, "/r");
    assert!(acts.is_empty());
}

#[test]
fn rescan_errors_and_disconnection() {
    let s = start_monitoring(0).0;
    let ev = WatchEvent::Fs {
        kind: FsEventKind::Other,
        need_rescan: true,
        saves_is_dir: true,
        paths: vec![],
    };
    assert_eq!(run(s, &ev, 1, 3000, "/r").1, vec![MonitorAction::ReportRescan, MonitorAction::RefreshBackup]);
    let ev = WatchEvent::Fs {
        kind: FsEventKind::Other,
        need_rescan: true,
        saves_is_dir: false,
        paths: vec![],
    };
    assert_eq!(run(s, &ev, 1, 3000, "/r").1, vec![MonitorAction::ReportRescan]);
    assert_eq!(run(s, &WatchEvent::WatcherError, 1, 3000, "/r").1, vec![MonitorAction::ReportWatcherError]);
    assert_eq!(run(s, &WatchEvent::Disconnected, 1, 3000, "/r").1, vec![MonitorAction::Stop]);
    let held = MonitorState { last_save_ns: 0, pending_restore_at: Some(1) };
    assert_eq!(run(held, &WatchEvent::StopRequested, 1, 3000, "/r"), (held, vec![MonitorAction::Stop]));
}

#[test]
fn monitoring_starts_with_a_backup() {
    let (s, acts) = start_monitoring(42);
    assert_eq!(s, MonitorState { last_save_ns: 42, pending_restore_at: None });
    assert_eq!(acts, vec![MonitorAction::RefreshBackup]);
}

#[test]
fn save_write_inside_saves_refreshes() {
    let s = MonitorState { last_save_ns: 0, pending_restore_at: Some(5 * MS) };
    let ev = fs(FsEventKind::Write, "/s/saves/REPO_SAVE_1/REPO_SAVE_1.es3");
    let (s2, acts) = run(s, &ev, 9 * MS, 3000, "/s");
    assert_eq!(s2, MonitorState { last_save_ns: 9 * MS, pending_restore_at: None });
    assert_eq!(acts, vec![MonitorAction::RefreshBackup]);
}

#[test]
fn clock_going_backwards_counts_as_no_time() {
    let s = MonitorState { last_save_ns: 50 * MS, pending_restore_at: None };
    let (_, acts) = run(s, &fs(FsEventKind::Remove, "/r/saves"), 10 * MS, 0, "/r");
    assert_eq!(acts, vec![MonitorAction::HoldRestore(0)]);
}
