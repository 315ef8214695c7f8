use repo_saver::backup::{
    copy_dir_entry, copy_step, create_backup, create_backup_into, first_try, pick_restore_source,
    refresh_backup, restore_extras, restore_from_backup, CopyStep, EntryInfo, EntryKind, FileOp,
    PlanStep, RefreshPlan, RefreshThrottle, RestoreError, TreeCopyStep, TreeEntryKind,
};
use repo_saver::config::Config;

fn cfg() -> Config {
    Config { save_dir: "/s".to_string(), backup_dir: "/b".to_string(), debounce_ms: 3000 }
}

fn st(x: &str) -> String {
    x.to_string()
}

fn snapshot(save: &str, target: &str) -> Vec<FileOp> {
    let j = |d: &str, n: &str| format!("{d}/{n}");
    vec![
        FileOp::CreateDirAll(st(target)),
        FileOp::CopyFileIfPresent(j(save, "MetaSave.es3"), j(target, "MetaSave.es3")),
        FileOp::CopyFileIfPresent(j(save, "MetaSave.bak"), j(target, "MetaSave.bak")),
        FileOp::CopyFileIfPresent(j(save, "SettingsData.es3"), j(target, "SettingsData.es3")),
        FileOp::CopyDirIfPresent(j(save, "saves"), j(target, "saves")),
    ]
}

#[test]
fn snapshot_copies_the_protected_state() {
    assert_eq!(create_backup_into("/s", "/t"), snapshot("/s", "/t"));
}

#[test]
fn rolling_backup_plan() {
    let plan = create_backup(&cfg(), "00001_02_03_04");
    assert_eq!(plan.path, "/b/rolled-00001_02_03_04");
    let mut copy = vec![FileOp::RemoveExistingDir(st("/b/rolled-00001_02_03_04"))];
    copy.extend(snapshot("/s", "/b/rolled-00001_02_03_04"));
    assert_eq!(
        plan.steps,
        vec![
            PlanStep::Required(vec![FileOp::CreateDirAll(st("/s")), FileOp::CreateDirAll(st("/b"))]),
            PlanStep::Required(copy),
            PlanStep::RemoveOldBackups,
        ]
    );
}

fn restore_ops(src: &str) -> Vec<FileOp> {
    vec![
        FileOp::CreateDirAll(st("/s")),
        FileOp::ClearDir(st("/s/saves")),
        FileOp::ClearFile(st("/s/MetaSave.es3")),
        FileOp::ClearFile(st("/s/MetaSave.bak")),
        FileOp::ClearFile(st("/s/SettingsData.es3")),
        FileOp::CopyDirIfPresent(format!("{src}/saves"), st("/s/saves")),
        FileOp::CopyFileIfPresent(format!("{src}/MetaSave.es3"), st("/s/MetaSave.es3")),
        FileOp::CopyFileIfPresent(format!("{src}/MetaSave.bak"), st("/s/MetaSave.bak")),
        FileOp::CopyFileIfPresent(format!("{src}/SettingsData.es3"), st("/s/SettingsData.es3")),
    ]
}

#[test]
fn restore_snapshots_then_clears_then_copies_back() {
    let steps = restore_from_backup(&cfg(), Some(st("/b/rolled-1")), true, "00009_00_00_00").unwrap();
    assert_eq!(
        steps,
        vec![
            PlanStep::BestEffort(snapshot("/s", "/b/pre-restore-00009_00_00_00")),
            PlanStep::Required(restore_ops("/b/rolled-1")),
            PlanStep::CopyOtherEntries(st("/b/rolled-1")),
        ]
    );
}

#[test]
fn restore_without_a_usable_source_does_not_start() {
    assert_eq!(restore_from_backup(&cfg(), None, false, "t").unwrap_err(), RestoreError::NoBackup);
    assert_eq!(restore_from_backup(&cfg(), None, true, "t").unwrap_err(), RestoreError::NoBackup);
    assert_eq!(
        restore_from_backup(&cfg(), Some(st("/gone")), false, "t").unwrap_err(),
        RestoreError::NotADirectory(st("/gone"))
    );
}

#[test]
fn restore_round_trip_mirrors_the_snapshot() {
    let snap = create_backup_into("/s", "/t");
    let steps = restore_from_backup(&cfg(), Some(st("/t")), true, "00000_00_00_01").unwrap();
    let rest = match &steps[1] {
        PlanStep::Required(ops) => ops,
        _ => panic!("restore step missing"),
    };
    let mirror = |op: &FileOp| match op {
        FileOp::CopyFileIfPresent(a, b) => FileOp::CopyFileIfPresent(b.clone(), a.clone()),
        FileOp::CopyDirIfPresent(a, b) => FileOp::CopyDirIfPresent(b.clone(), a.clone()),
        _ => panic!("not a copy"),
    };
    assert_eq!(rest[5], mirror(&snap[4]));
    assert_eq!(rest[6], mirror(&snap[1]));
    assert_eq!(rest[7], mirror(&snap[2]));
    assert_eq!(rest[8], mirror(&snap[3]));
}

#[test]
fn restore_extras_skip_protected_and_snapshots() {
    let e = |n: &str, k: EntryKind| EntryInfo { name: st(n), kind: k };
    let entries = vec![
        e("saves", EntryKind::Dir),
        e("MetaSave.es3", EntryKind::File),
        e("SettingsData.es3", EntryKind::File),
        e("pre-restore-00001_00_00_00", EntryKind::Dir),
        e("Player.log", EntryKind::File),
        e("profiles", EntryKind::Dir),
        e("link", EntryKind::Other),
        e("MetaSave.bak", EntryKind::Dir),
    ];
    assert_eq!(
        restore_extras(&cfg(), "/b/r", &entries),
        vec![
            FileOp::CopyFile(st("/b/r/Player.log"), st("/s/Player.log")),
            FileOp::CopyDir(st("/b/r/profiles"), st("/s/profiles")),
        ]
    );
    assert!(restore_extras(&cfg(), "/b/r", &vec![]).is_empty());
}

#[test]
fn restore_source_prefers_the_chosen_backup() {
    assert_eq!(pick_restore_source(Some(st("/x")), Some(st("/y"))), Some(st("/x")));
    assert_eq!(pick_restore_source(None, Some(st("/y"))), Some(st("/y")));
    assert_eq!(pick_restore_source(None, None), None);
}

#[test]
fn refresh_is_throttled_for_one_second() {
    let mut t = RefreshThrottle::new();
    assert_eq!(refresh_backup(&t, 5), RefreshPlan::CreateBackup);
    t.refresh_done(1_000_000_000, true);
    assert_eq!(refresh_backup(&t, 1_000_000_000), RefreshPlan::CreateBackupIfNoneExists);
    assert_eq!(refresh_backup(&t, 1_999_999_999), RefreshPlan::CreateBackupIfNoneExists);
    assert_eq!(refresh_backup(&t, 2_000_000_000), RefreshPlan::CreateBackup);
    assert_eq!(refresh_backup(&t, 10), RefreshPlan::CreateBackupIfNoneExists);
    t.refresh_done(5_000_000_000, false);
    assert_eq!(refresh_backup(&t, 5_000_000_001), RefreshPlan::CreateBackup);
    let mut fresh = RefreshThrottle::new();
    fresh.refresh_done(7, false);
    assert_eq!(refresh_backup(&fresh, 8), RefreshPlan::CreateBackup);
}

#[test]
fn copies_are_retried_three_times() {
    assert_eq!(copy_step(0, 3, true), CopyStep::Done);
    assert_eq!(copy_step(0, 3, false), CopyStep::PauseAndRetry);
    assert_eq!(copy_step(1, 3, false), CopyStep::PauseAndRetry);
    assert_eq!(copy_step(2, 3, false), CopyStep::GiveUp);
    assert_eq!(copy_step(2, 3, true), CopyStep::Done);
    assert_eq!(copy_step(0, 1, false), CopyStep::GiveUp);
    assert!(first_try(3));
    assert!(!first_try(0));
}

#[test]
fn tree_copy_steps() {
    assert_eq!(copy_dir_entry("/d", "a", TreeEntryKind::Dir), TreeCopyStep::Recurse(st("/d/a")));
    assert_eq!(copy_dir_entry("/d", "l", TreeEntryKind::Symlink), TreeCopyStep::Relink(st("/d/l")));
    assert_eq!(copy_dir_entry("/d/", "f", TreeEntryKind::File), TreeCopyStep::Copy(st("/d/f")));
    assert_eq!(copy_dir_entry("/d", "p", TreeEntryKind::Other), TreeCopyStep::Skip);
}
