use repo_saver::clock::format_timestamp;
use repo_saver::selection::{
    find_latest_backup, list_backups, prune_old_backups, remove_old_rolled_backups, BackupEntry,
};

fn e(n: &str, d: bool) -> BackupEntry {
    BackupEntry { name: n.to_string(), is_dir: d }
}

fn sample() -> Vec<BackupEntry> {
    vec![
        e("rolled-00002", true),
        e("manual", true),
        e("rolled-00001", true),
        e("pre-restore-00003", true),
        e("rolled-00009", false),
        e("rolled-00000", true),
    ]
}

#[test]
fn list_sorts_all_folders_by_name() {
    assert_eq!(list_backups(&sample()), vec![1, 3, 5, 2, 0]);
    assert!(list_backups(&vec![]).is_empty());
}

#[test]
fn latest_rolling_backup() {
    assert_eq!(find_latest_backup(&sample()), Some(0));
    assert_eq!(find_latest_backup(&vec![e("manual", true), e("rolled-1", false)]), None);
}

#[test]
fn prune_keeps_only_the_latest_rolling_backup() {
    let entries = sample();
    let pruned = prune_old_backups(&entries);
    assert_eq!(pruned, vec![5, 2]);
    let latest = find_latest_backup(&entries).unwrap();
    assert!(!pruned.contains(&latest));
    assert!(prune_old_backups(&vec![e("rolled-1", true)]).is_empty());
}

#[test]
fn removal_after_backup_also_counts_pre_restore_snapshots() {
    assert_eq!(remove_old_rolled_backups(&sample()), vec![3, 5, 2]);
    let only_pre = vec![e("pre-restore-2", true), e("pre-restore-1", true)];
    assert_eq!(remove_old_rolled_backups(&only_pre), vec![1]);
}

#[test]
fn newest_backup_is_latest() {
    let names: Vec<BackupEntry> = [1725029870u64, 1725029869, 1725116269, 86400]
        .iter()
        .map(|t| e(&format!("rolled-{}", format_timestamp(*t)), true))
        .collect();
    assert_eq!(find_latest_backup(&names), Some(2));
    assert_eq!(prune_old_backups(&names), vec![3, 1, 0]);
}

#[test]
fn equal_names_keep_listing_order() {
    let entries = vec![e("rolled-1", true), e("rolled-1", true)];
    assert_eq!(list_backups(&entries), vec![0, 1]);
    assert_eq!(find_latest_backup(&entries), Some(1));
}
