//! Backups: what is copied where when a backup is taken or restored, which
//! backups are kept, which one is the latest, and when the rolling backup is
//! refreshed.  The program carries out the file operations these functions
//! return, in order.

use vstd::prelude::*;
use crate::config::Config;
use crate::paths::{join, join_spec};
use crate::protected::{tracked_dir_names, tracked_dirs, tracked_file_names, tracked_files};
use crate::text::{has_prefix, same_text, text_starts_with};

verus! {

/// Prefix of the rolling backups' directory names.
pub const ROLLED_PREFIX: &'static str = "rolled-";

/// Prefix of the snapshots taken just before a restore.
pub const PRE_RESTORE_PREFIX: &'static str = "pre-restore-";

/// A file system operation.
#[derive(Debug, PartialEq, Eq)]
pub enum FileOp {
    /// Create the directory and its parents (`fs::create_dir_all`); an
    /// error ends the operations.
    CreateDirAll(String),
    /// If the path exists, remove it with everything in it
    /// (`fs::remove_dir_all`); an error ends the operations.
    RemoveExistingDir(String),
    /// If the path is a directory (not following a symbolic link), remove it
    /// with everything in it; an error is ignored.
    ClearDir(String),
    /// Remove the file (`fs::remove_file`); an error is ignored.
    ClearFile(String),
    /// If the first path is a regular file (following symbolic links), copy
    /// it to the second, trying three times; an error ends the operations.
    CopyFileIfPresent(String, String),
    /// If the first path is a directory (following symbolic links), copy the
    /// tree to the second; an error ends the operations.
    CopyDirIfPresent(String, String),
    /// Copy the file to the second path, trying three times; an error ends
    /// the operations.
    CopyFile(String, String),
    /// Copy the directory tree to the second path; an error ends the
    /// operations.
    CopyDir(String, String),
}

/// A file system operation, with its paths as text.
pub enum OpView {
    CreateDirAll(Seq<char>),
    RemoveExistingDir(Seq<char>),
    ClearDir(Seq<char>),
    ClearFile(Seq<char>),
    CopyFileIfPresent(Seq<char>, Seq<char>),
    CopyDirIfPresent(Seq<char>, Seq<char>),
    CopyFile(Seq<char>, Seq<char>),
    CopyDir(Seq<char>, Seq<char>),
}

impl View for FileOp {
    type V = OpView;

    open spec fn view(&self) -> OpView {
        match self {
            FileOp::CreateDirAll(p) => OpView::CreateDirAll(p@),
            FileOp::RemoveExistingDir(p) => OpView::RemoveExistingDir(p@),
            FileOp::ClearDir(p) => OpView::ClearDir(p@),
            FileOp::ClearFile(p) => OpView::ClearFile(p@),
            FileOp::CopyFileIfPresent(a, b) => OpView::CopyFileIfPresent(a@, b@),
            FileOp::CopyDirIfPresent(a, b) => OpView::CopyDirIfPresent(a@, b@),
            FileOp::CopyFile(a, b) => OpView::CopyFile(a@, b@),
            FileOp::CopyDir(a, b) => OpView::CopyDir(a@, b@),
        }
    }
}

/// The views of a list of operations.
pub open spec fn ops_view(v: Seq<FileOp>) -> Seq<OpView> {
    v.map_values(|o: FileOp| o@)
}

/// Copy the file `name` from one directory to another, if it is there.
pub open spec fn copy_file_op(from_dir: Seq<char>, to_dir: Seq<char>, name: Seq<char>) -> OpView {
    OpView::CopyFileIfPresent(join_spec(from_dir, name), join_spec(to_dir, name))
}

/// Copy the folder `name` from one directory to another, if it is there.
pub open spec fn copy_dir_op(from_dir: Seq<char>, to_dir: Seq<char>, name: Seq<char>) -> OpView {
    OpView::CopyDirIfPresent(join_spec(from_dir, name), join_spec(to_dir, name))
}

/// The operations that copy the protected state of `save_dir` into
/// `target`: create `target`, copy each protected file that is present,
/// then the `saves` folder if present.
pub open spec fn snapshot_ops(save_dir: Seq<char>, target: Seq<char>) -> Seq<OpView> {
    let f = tracked_file_names();
    seq![
        OpView::CreateDirAll(target),
        copy_file_op(save_dir, target, f[0]),
        copy_file_op(save_dir, target, f[1]),
        copy_file_op(save_dir, target, f[2]),
        copy_dir_op(save_dir, target, tracked_dir_names()[0]),
    ]
}

/// The name of the rolling backup taken at timestamp `ts`.
pub open spec fn rolled_name(ts: Seq<char>) -> Seq<char> {
    ROLLED_PREFIX@ + ts
}

/// The name of the snapshot taken before a restore at timestamp `ts`.
pub open spec fn pre_restore_name(ts: Seq<char>) -> Seq<char> {
    PRE_RESTORE_PREFIX@ + ts
}

fn copy_file_if_present(from_dir: &str, to_dir: &str, name: &str) -> (r: FileOp)
    ensures
        r@ == copy_file_op(from_dir@, to_dir@, name@),
{
    FileOp::CopyFileIfPresent(join(from_dir, name), join(to_dir, name))
}

fn copy_dir_if_present(from_dir: &str, to_dir: &str, name: &str) -> (r: FileOp)
    ensures
        r@ == copy_dir_op(from_dir@, to_dir@, name@),
{
    FileOp::CopyDirIfPresent(join(from_dir, name), join(to_dir, name))
}

/// The operations that copy the protected state of `save_dir` into the
/// directory `target`.
pub fn create_backup_into(save_dir: &str, target: &str) -> (r: Vec<FileOp>)
    ensures
        ops_view(r@) == snapshot_ops(save_dir@, target@),
{
    let files = tracked_files();
    let dirs = tracked_dirs();
    let mut ops: Vec<FileOp> = Vec::new();
    ops.push(FileOp::CreateDirAll(String::from_str(target)));
    ops.push(copy_file_if_present(save_dir, target, files[0]));
    ops.push(copy_file_if_present(save_dir, target, files[1]));
    ops.push(copy_file_if_present(save_dir, target, files[2]));
    ops.push(copy_dir_if_present(save_dir, target, dirs[0]));
    assert(ops_view(ops@) =~= snapshot_ops(save_dir@, target@));
    ops
}

fn prefixed(prefix: &str, ts: &str) -> (r: String)
    ensures
        r@ == prefix@ + ts@,
{
    let mut r = String::from_str(prefix);
    r.append(ts);
    r
}

/// One step of a plan.  The steps of a plan are carried out in order.
#[derive(Debug, PartialEq, Eq)]
pub enum PlanStep {
    /// Carry out the operations in order; an error that ends them ends the
    /// whole plan with that error.
    Required(Vec<FileOp>),
    /// Carry out the operations in order; an error that ends them is only
    /// reported as a warning, and the plan goes on with its next step.
    BestEffort(Vec<FileOp>),
    /// List the directory; if it can be listed, carry out the operations
    /// that `restore_extras` gives for its entries, as a `Required` step; if
    /// it cannot, do nothing.
    CopyOtherEntries(String),
    /// List the backup directory and remove, ignoring errors, the rolling
    /// backups and pre-restore snapshots that `remove_old_rolled_backups`
    /// selects (all but the latest).
    RemoveOldBackups,
}

/// A plan step, with its paths as text.
pub enum StepView {
    Required(Seq<OpView>),
    BestEffort(Seq<OpView>),
    CopyOtherEntries(Seq<char>),
    RemoveOldBackups,
}

impl View for PlanStep {
    type V = StepView;

    open spec fn view(&self) -> StepView {
        match self {
            PlanStep::Required(ops) => StepView::Required(ops_view(ops@)),
            PlanStep::BestEffort(ops) => StepView::BestEffort(ops_view(ops@)),
            PlanStep::CopyOtherEntries(p) => StepView::CopyOtherEntries(p@),
            PlanStep::RemoveOldBackups => StepView::RemoveOldBackups,
        }
    }
}

/// The views of a list of plan steps.
pub open spec fn steps_view(v: Seq<PlanStep>) -> Seq<StepView> {
    v.map_values(|st: PlanStep| st@)
}

/// Create the save and the backup directory.
pub open spec fn ensure_dirs_ops(save_dir: Seq<char>, backup_dir: Seq<char>) -> Seq<OpView> {
    seq![OpView::CreateDirAll(save_dir), OpView::CreateDirAll(backup_dir)]
}

/// The steps of taking the rolling backup `path`: create the directories;
/// replace `path` with a copy of the protected state; then, only if all of
/// that succeeded, remove the older rolling backups and pre-restore
/// snapshots.
pub open spec fn backup_steps(save_dir: Seq<char>, backup_dir: Seq<char>, path: Seq<char>) -> Seq<
    StepView,
> {
    seq![
        StepView::Required(ensure_dirs_ops(save_dir, backup_dir)),
        StepView::Required(seq![OpView::RemoveExistingDir(path)] + snapshot_ops(save_dir, path)),
        StepView::RemoveOldBackups,
    ]
}

/// A backup to take: where it goes and the steps that take it.
pub struct BackupPlan {
    pub path: String,
    pub steps: Vec<PlanStep>,
}

fn ensure_dirs_step(config: &Config) -> (r: PlanStep)
    ensures
        r@ == StepView::Required(ensure_dirs_ops(config.save_dir@, config.backup_dir@)),
{
    let mut ops: Vec<FileOp> = Vec::new();
    ops.push(FileOp::CreateDirAll(config.save_dir.clone()));
    ops.push(FileOp::CreateDirAll(config.backup_dir.clone()));
    assert(ops_view(ops@) =~= ensure_dirs_ops(config.save_dir@, config.backup_dir@));
    PlanStep::Required(ops)
}

/// The rolling backup taken at timestamp `ts`: it goes to
/// `backup_dir/rolled-<ts>`, replacing whatever is there, and holds a copy
/// of the protected state; after it, the older rolling backups and
/// pre-restore snapshots are removed.
pub fn create_backup(config: &Config, ts: &str) -> (r: BackupPlan)
    ensures
        r.path@ == join_spec(config.backup_dir@, rolled_name(ts@)),
        steps_view(r.steps@) == backup_steps(config.save_dir@, config.backup_dir@, r.path@),
{
    let name = prefixed(ROLLED_PREFIX, ts);
    let path = join(config.backup_dir.as_str(), name.as_str());
    let mut ops: Vec<FileOp> = Vec::new();
    ops.push(FileOp::RemoveExistingDir(path.clone()));
    let mut snap = create_backup_into(config.save_dir.as_str(), path.as_str());
    ops.append(&mut snap);
    assert(ops_view(ops@) =~= seq![OpView::RemoveExistingDir(path@)] + snapshot_ops(
        config.save_dir@,
        path@,
    ));
    let mut steps: Vec<PlanStep> = Vec::new();
    steps.push(ensure_dirs_step(config));
    steps.push(PlanStep::Required(ops));
    steps.push(PlanStep::RemoveOldBackups);
    assert(steps_view(steps@) =~= backup_steps(config.save_dir@, config.backup_dir@, path@));
    BackupPlan { path, steps }
}

/// The operations of a restore from `backup`: make sure the save directory
/// exists, remove the protected state there (the `saves` folder if it is a
/// real folder, and each protected file), then copy the `saves` folder and
/// each protected file back from the backup where present.
pub open spec fn restore_ops(save_dir: Seq<char>, backup: Seq<char>) -> Seq<OpView> {
    let f = tracked_file_names();
    let d = tracked_dir_names()[0];
    seq![
        OpView::CreateDirAll(save_dir),
        OpView::ClearDir(join_spec(save_dir, d)),
        OpView::ClearFile(join_spec(save_dir, f[0])),
        OpView::ClearFile(join_spec(save_dir, f[1])),
        OpView::ClearFile(join_spec(save_dir, f[2])),
        copy_dir_op(backup, save_dir, d),
        copy_file_op(backup, save_dir, f[0]),
        copy_file_op(backup, save_dir, f[1]),
        copy_file_op(backup, save_dir, f[2]),
    ]
}

/// Why a restore does not start.  Nothing is changed and no snapshot is
/// taken in either case.
#[derive(Debug, PartialEq, Eq)]
pub enum RestoreError {
    /// No backup was chosen and there is no rolling backup.
    NoBackup,
    /// The backup to restore from is not a directory.
    NotADirectory(String),
}

/// The steps of a restore from the backup `source` at timestamp `ts`:
/// first a snapshot of the protected state into
/// `backup_dir/pre-restore-<ts>`, whose failure does not stop the restore;
/// then the restore of the protected state; then the copy of the backup's
/// other entries.
pub open spec fn restore_steps(
    save_dir: Seq<char>,
    backup_dir: Seq<char>,
    source: Seq<char>,
    ts: Seq<char>,
) -> Seq<StepView> {
    seq![
        StepView::BestEffort(snapshot_ops(save_dir, join_spec(backup_dir, pre_restore_name(ts)))),
        StepView::Required(restore_ops(save_dir, source)),
        StepView::CopyOtherEntries(source),
    ]
}

fn restore_tracked_ops(config: &Config, backup_path: &str) -> (r: Vec<FileOp>)
    ensures
        ops_view(r@) == restore_ops(config.save_dir@, backup_path@),
{
    let save = config.save_dir.as_str();
    let files = tracked_files();
    let dirs = tracked_dirs();
    let mut ops: Vec<FileOp> = Vec::new();
    ops.push(FileOp::CreateDirAll(config.save_dir.clone()));
    ops.push(FileOp::ClearDir(join(save, dirs[0])));
    ops.push(FileOp::ClearFile(join(save, files[0])));
    ops.push(FileOp::ClearFile(join(save, files[1])));
    ops.push(FileOp::ClearFile(join(save, files[2])));
    ops.push(copy_dir_if_present(backup_path, save, dirs[0]));
    ops.push(copy_file_if_present(backup_path, save, files[0]));
    ops.push(copy_file_if_present(backup_path, save, files[1]));
    ops.push(copy_file_if_present(backup_path, save, files[2]));
    assert(ops_view(ops@) =~= restore_ops(config.save_dir@, backup_path@));
    ops
}

/// A restore from `source` (the backup the user chose, or else the latest
/// rolling backup: `pick_restore_source`), which is a directory exactly when
/// `source_is_dir`, at timestamp `ts`: without a source, or when it is not
/// a directory, the restore does not start; otherwise its steps.
pub fn restore_from_backup(
    config: &Config,
    source: Option<String>,
    source_is_dir: bool,
    ts: &str,
) -> (r: Result<Vec<PlanStep>, RestoreError>)
    ensures
        match source {
            None => r == Err::<Vec<PlanStep>, RestoreError>(RestoreError::NoBackup),
            Some(p) => if source_is_dir {
                r matches Ok(steps) && steps_view(steps@) == restore_steps(
                    config.save_dir@,
                    config.backup_dir@,
                    p@,
                    ts@,
                )
            } else {
                r matches Err(RestoreError::NotADirectory(q)) && q@ == p@
            },
        },
{
    let p = match source {
        None => return Err(RestoreError::NoBackup),
        Some(p) => p,
    };
    if !source_is_dir {
        return Err(RestoreError::NotADirectory(p));
    }
    let name = prefixed(PRE_RESTORE_PREFIX, ts);
    let pre = join(config.backup_dir.as_str(), name.as_str());
    let snapshot = create_backup_into(config.save_dir.as_str(), pre.as_str());
    let restore = restore_tracked_ops(config, p.as_str());
    let mut steps: Vec<PlanStep> = Vec::new();
    steps.push(PlanStep::BestEffort(snapshot));
    steps.push(PlanStep::Required(restore));
    steps.push(PlanStep::CopyOtherEntries(p));
    assert(steps_view(steps@) =~= restore_steps(
        config.save_dir@,
        config.backup_dir@,
        source->0@,
        ts@,
    ));
    Ok(steps)
}

/// What kind of thing a directory entry is (its own type, not following a
/// symbolic link).
#[derive(Clone, Copy, Debug, PartialEq, Eq, Structural)]
pub enum EntryKind {
    Dir,
    File,
    Other,
}

/// An entry of a directory listing: its name and kind.
pub struct EntryInfo {
    pub name: String,
    pub kind: EntryKind,
}

/// Entries of a backup that the restore leaves to the protected-state
/// operations or never copies: the `saves` folder, the protected files, and
/// pre-restore snapshots.
pub open spec fn extra_skipped(name: Seq<char>) -> bool {
    name == tracked_dir_names()[0] || tracked_file_names().contains(name) || has_prefix(
        name,
        PRE_RESTORE_PREFIX@,
    )
}

/// The operations that copy one other entry of the backup into the save
/// directory: a folder as a tree, a file as a file, nothing else.
pub open spec fn extra_op(backup: Seq<char>, save_dir: Seq<char>, e: EntryInfo) -> Seq<OpView> {
    if extra_skipped(e.name@) {
        Seq::empty()
    } else {
        match e.kind {
            EntryKind::Dir => seq![
                OpView::CopyDir(join_spec(backup, e.name@), join_spec(save_dir, e.name@)),
            ],
            EntryKind::File => seq![
                OpView::CopyFile(join_spec(backup, e.name@), join_spec(save_dir, e.name@)),
            ],
            EntryKind::Other => Seq::empty(),
        }
    }
}

/// The operations for all the other entries of the backup, in listing order.
pub open spec fn extra_ops(backup: Seq<char>, save_dir: Seq<char>, es: Seq<EntryInfo>) -> Seq<
    OpView,
>
    decreases es.len(),
{
    if es.len() == 0 {
        Seq::empty()
    } else {
        extra_ops(backup, save_dir, es.drop_last()) + extra_op(backup, save_dir, es.last())
    }
}

fn is_extra_skipped(name: &str) -> (r: bool)
    ensures
        r == extra_skipped(name@),
{
    let files = tracked_files();
    let dirs = tracked_dirs();
    let r = same_text(name, dirs[0]) || same_text(name, files[0]) || same_text(name, files[1])
        || same_text(name, files[2]) || text_starts_with(name, PRE_RESTORE_PREFIX);
    proof {
        let f = tracked_file_names();
        if f.contains(name@) {
            let k = choose|k: int| 0 <= k < f.len() && f[k] == name@;
            assert(k == 0 || k == 1 || k == 2);
        }
        if name@ == f[0] || name@ == f[1] || name@ == f[2] {
            assert(f.contains(name@));
        }
    }
    r
}

/// The operations that copy the backup's other entries (listed in
/// `entries`, in listing order) into the save directory: everything but the
/// protected state and pre-restore snapshots, folders as trees and files as
/// files.
pub fn restore_extras(config: &Config, backup_path: &str, entries: &Vec<EntryInfo>) -> (r: Vec<
    FileOp,
>)
    ensures
        ops_view(r@) == extra_ops(backup_path@, config.save_dir@, entries@),
{
    let save = config.save_dir.as_str();
    let mut ops: Vec<FileOp> = Vec::new();
    let mut i: usize = 0;
    while i < entries.len()
        invariant
            save@ == config.save_dir@,
            i <= entries@.len(),
            ops_view(ops@) == extra_ops(
                backup_path@,
                config.save_dir@,
                entries@.subrange(0, i as int),
            ),
        decreases entries@.len() - i,
    {
        let e = &entries[i];
        let ghost before = ops@;
        if !is_extra_skipped(e.name.as_str()) {
            match e.kind {
                EntryKind::Dir => {
                    let op = FileOp::CopyDir(
                        join(backup_path, e.name.as_str()),
                        join(save, e.name.as_str()),
                    );
                    assert(seq![op@] =~= extra_op(backup_path@, config.save_dir@, entries@[i as int]));
                    ops.push(op);
                    assert(ops_view(ops@) =~= ops_view(before) + seq![op@]);
                },
                EntryKind::File => {
                    let op = FileOp::CopyFile(
                        join(backup_path, e.name.as_str()),
                        join(save, e.name.as_str()),
                    );
                    assert(seq![op@] =~= extra_op(backup_path@, config.save_dir@, entries@[i as int]));
                    ops.push(op);
                    assert(ops_view(ops@) =~= ops_view(before) + seq![op@]);
                },
                EntryKind::Other => {
                    assert(ops_view(ops@) =~= ops_view(before) + extra_op(backup_path@, config.save_dir@, entries@[i as int]));
                },
            }
        } else {
            assert(ops_view(ops@) =~= ops_view(before) + extra_op(backup_path@, config.save_dir@, entries@[i as int]));
        }
        proof {
            let pre = entries@.subrange(0, i as int);
            let post = entries@.subrange(0, i + 1);
            assert(post.drop_last() =~= pre);
        }
        i = i + 1;
    }
    assert(entries@.subrange(0, i as int) =~= entries@);
    ops
}

/// Where a restore takes its state from: the backup the user chose, else
/// the latest rolling backup, else nowhere.
pub fn pick_restore_source(chosen: Option<String>, latest: Option<String>) -> (r: Option<String>)
    ensures
        r == (match chosen {
            Some(c) => Some(c),
            None => latest,
        }),
{
    match chosen {
        Some(c) => Some(c),
        None => latest,
    }
}

/// How long after a refresh of the rolling backup another one is skipped
/// when a rolling backup exists, in nanoseconds (one second).
pub const REFRESH_INTERVAL_NS: u128 = 1_000_000_000;

/// When the rolling backup was last refreshed.
pub struct RefreshThrottle {
    /// The time of the last successful refresh (nanoseconds on the
    /// program's monotonic clock), if there has been one.
    pub last_refresh_ns: Option<u128>,
}

/// What a refresh request does.
#[derive(Clone, Copy, Debug, PartialEq, Eq, Structural)]
pub enum RefreshPlan {
    /// Take a rolling backup.
    CreateBackup,
    /// Take a rolling backup only if none exists (`find_latest_backup`
    /// finds none); otherwise do nothing.
    CreateBackupIfNoneExists,
}

/// Time elapsed from `since` to `now`, zero if `now` is earlier (as
/// `Instant::elapsed` saturates).
pub open spec fn elapsed_ns(now: u128, since: u128) -> int {
    if now >= since {
        now - since
    } else {
        0
    }
}

/// What a refresh request at `now` does, given the last refresh: within
/// `REFRESH_INTERVAL_NS` of it, only create a backup when none exists.
pub open spec fn refresh_plan(last: Option<u128>, now: u128) -> RefreshPlan {
    match last {
        Some(l) => if elapsed_ns(now, l) < REFRESH_INTERVAL_NS {
            RefreshPlan::CreateBackupIfNoneExists
        } else {
            RefreshPlan::CreateBackup
        },
        None => RefreshPlan::CreateBackup,
    }
}

impl RefreshThrottle {
    /// No refresh yet.
    pub fn new() -> (r: RefreshThrottle)
        ensures
            r.last_refresh_ns is None,
    {
        RefreshThrottle { last_refresh_ns: None }
    }

    /// Notes how a refresh attempt that finished at `now_ns` went: a
    /// successful backup starts a new throttle window; a failed one leaves
    /// the throttle as it was, so the next request tries again.
    pub fn refresh_done(&mut self, now_ns: u128, succeeded: bool)
        ensures
            succeeded ==> final(self).last_refresh_ns == Some(now_ns),
            !succeeded ==> final(self).last_refresh_ns == old(self).last_refresh_ns,
    {
        if succeeded {
            self.last_refresh_ns = Some(now_ns);
        }
    }
}

/// Decides what a request to refresh the rolling backup does at `now_ns`
/// (`refresh_backup`); the program then reports the attempt's outcome with
/// `refresh_done`.
pub fn refresh_backup(throttle: &RefreshThrottle, now_ns: u128) -> (r: RefreshPlan)
    ensures
        r == refresh_plan(throttle.last_refresh_ns, now_ns),
{
    match throttle.last_refresh_ns {
        Some(l) => {
            let el: u128 = if now_ns >= l { now_ns - l } else { 0 };
            if el < REFRESH_INTERVAL_NS {
                RefreshPlan::CreateBackupIfNoneExists
            } else {
                RefreshPlan::CreateBackup
            }
        },
        None => RefreshPlan::CreateBackup,
    }
}

/// The refresh is throttled: within `REFRESH_INTERVAL_NS` after a refresh
/// that finished at `t`, a request creates a backup only if none exists;
/// from then on every request creates one.
pub proof fn lemma_refresh_throttled(t: u128, now: u128)
    requires
        t <= now,
    ensures
        (refresh_plan(Some(t), now) == RefreshPlan::CreateBackupIfNoneExists) <==> now - t
            < REFRESH_INTERVAL_NS,
        (refresh_plan(Some(t), now) == RefreshPlan::CreateBackup) <==> now - t
            >= REFRESH_INTERVAL_NS,
        refresh_plan(None, now) == RefreshPlan::CreateBackup,
{
}

/// How many times a file copy is tried.
pub const COPY_ATTEMPTS: usize = 3;

/// What follows one try of a file copy.
#[derive(Clone, Copy, Debug, PartialEq, Eq, Structural)]
pub enum CopyStep {
    /// The copy succeeded: stop with success.
    Done,
    /// The copy failed and tries are left: pause briefly, then try again.
    PauseAndRetry,
    /// The copy failed on the last try: stop with the last error.
    GiveUp,
}

/// What follows try number `attempt` (counting from zero) of `attempts`,
/// which succeeded exactly when `copied` (file copies retry around
/// transient file locks).
pub fn copy_step(attempt: usize, attempts: usize, copied: bool) -> (r: CopyStep)
    ensures
        r == copy_step_spec(attempt, attempts, copied),
        copied ==> r is Done,
        !copied ==> (r is PauseAndRetry <==> attempt + 1 < attempts),
        !copied && attempt + 1 >= attempts ==> r is GiveUp,
{
    if copied {
        CopyStep::Done
    } else if attempt < attempts && attempts - attempt > 1 {
        CopyStep::PauseAndRetry
    } else {
        CopyStep::GiveUp
    }
}

/// Whether a copy with `attempts` tries is tried at all; with none it fails
/// at once.
pub fn first_try(attempts: usize) -> (r: bool)
    ensures
        r == (attempts > 0),
{
    attempts > 0
}

/// A copy with `attempts` tries: with none, nothing is tried; otherwise try
/// `k` is made exactly when the tries before it all failed, and the copy
/// succeeds as soon as one try does, or fails after `attempts` failed tries.
pub proof fn lemma_copy_tries(attempts: usize, k: usize)
    requires
        k < attempts,
    ensures
        k + 1 < attempts ==> copy_step_spec(k, attempts, false) == CopyStep::PauseAndRetry,
        k + 1 == attempts ==> copy_step_spec(k, attempts, false) == CopyStep::GiveUp,
        copy_step_spec(k, attempts, true) == CopyStep::Done,
{
}

/// What `copy_step` returns.
pub open spec fn copy_step_spec(attempt: usize, attempts: usize, copied: bool) -> CopyStep {
    if copied {
        CopyStep::Done
    } else if attempt + 1 < attempts {
        CopyStep::PauseAndRetry
    } else {
        CopyStep::GiveUp
    }
}

/// The kind of an entry met while copying a folder tree (its own type).
#[derive(Clone, Copy, Debug, PartialEq, Eq, Structural)]
pub enum TreeEntryKind {
    Dir,
    Symlink,
    File,
    Other,
}

/// What copying a folder tree does with one entry.
#[derive(Debug, PartialEq, Eq)]
pub enum TreeCopyStep {
    /// Copy the sub-folder into this path.
    Recurse(String),
    /// Make a symbolic link here with the same target.
    Relink(String),
    /// Copy the file here, trying three times.
    Copy(String),
    /// Leave the entry out.
    Skip,
}

/// What copying a folder tree into `dst` does with the entry `name` of kind
/// `kind`: folders are copied recursively, symbolic links re-created, files
/// copied, anything else left out; each goes to `dst` joined with `name`.
pub fn copy_dir_entry(dst: &str, name: &str, kind: TreeEntryKind) -> (r: TreeCopyStep)
    ensures
        match kind {
            TreeEntryKind::Dir => r matches TreeCopyStep::Recurse(p) && p@ == join_spec(
                dst@,
                name@,
            ),
            TreeEntryKind::Symlink => r matches TreeCopyStep::Relink(p) && p@ == join_spec(
                dst@,
                name@,
            ),
            TreeEntryKind::File => r matches TreeCopyStep::Copy(p) && p@ == join_spec(
                dst@,
                name@,
            ),
            TreeEntryKind::Other => r is Skip,
        },
{
    let dest = join(dst, name);
    match kind {
        TreeEntryKind::Dir => TreeCopyStep::Recurse(dest),
        TreeEntryKind::Symlink => TreeCopyStep::Relink(dest),
        TreeEntryKind::File => TreeCopyStep::Copy(dest),
        TreeEntryKind::Other => TreeCopyStep::Skip,
    }
}


/// The same copy in the other direction.
pub open spec fn reversed(op: OpView) -> OpView {
    match op {
        OpView::CopyFileIfPresent(a, b) => OpView::CopyFileIfPresent(b, a),
        OpView::CopyDirIfPresent(a, b) => OpView::CopyDirIfPresent(b, a),
        _ => op,
    }
}

/// Where an operation writes or removes.
pub open spec fn destination(op: OpView) -> Seq<char> {
    match op {
        OpView::CreateDirAll(p) => p,
        OpView::RemoveExistingDir(p) => p,
        OpView::ClearDir(p) => p,
        OpView::ClearFile(p) => p,
        OpView::CopyFileIfPresent(_, b) => b,
        OpView::CopyDirIfPresent(_, b) => b,
        OpView::CopyFile(_, b) => b,
        OpView::CopyDir(_, b) => b,
    }
}

/// Restoring from a snapshot gives back what the snapshot took: the four
/// copies that end a restore from `target` (positions 5 to 8) are the
/// snapshot's copies of the save directory into `target` (the `saves`
/// folder, then the three files) in the other direction; and each of them
/// writes where an earlier step of the same restore (positions 1 to 4) has
/// cleared, so nothing of the state being replaced is left behind.
pub proof fn lemma_restore_reverses_snapshot(save_dir: Seq<char>, target: Seq<char>)
    ensures
        ({
            let snap = snapshot_ops(save_dir, target);
            let rest = restore_ops(save_dir, target);
            &&& snap.len() == 5 && rest.len() == 9
            &&& rest[5] == reversed(snap[4])
            &&& rest[6] == reversed(snap[1])
            &&& rest[7] == reversed(snap[2])
            &&& rest[8] == reversed(snap[3])
            &&& rest[1] is ClearDir && destination(rest[1]) == destination(rest[5])
            &&& rest[2] is ClearFile && destination(rest[2]) == destination(rest[6])
            &&& rest[3] is ClearFile && destination(rest[3]) == destination(rest[7])
            &&& rest[4] is ClearFile && destination(rest[4]) == destination(rest[8])
        }),
{
}

/// The other entries a restore copies never include the protected state or
/// a pre-restore snapshot: every such copy takes an entry `n` of the backup
/// to `n` in the save directory, for a name `n` that is not skipped.
pub proof fn lemma_extras_skip_protected(backup: Seq<char>, save_dir: Seq<char>, es: Seq<EntryInfo>)
    ensures
        forall|j: int|
            0 <= j < extra_ops(backup, save_dir, es).len() ==> exists|n: Seq<char>|
                !extra_skipped(n) && (#[trigger] extra_ops(backup, save_dir, es)[j] == OpView::CopyDir(
                    join_spec(backup, n),
                    join_spec(save_dir, n),
                ) || extra_ops(backup, save_dir, es)[j] == OpView::CopyFile(
                    join_spec(backup, n),
                    join_spec(save_dir, n),
                )),
    decreases es.len(),
{
    if es.len() > 0 {
        lemma_extras_skip_protected(backup, save_dir, es.drop_last());
        let prev = extra_ops(backup, save_dir, es.drop_last());
        let last = extra_op(backup, save_dir, es.last());
        let all = extra_ops(backup, save_dir, es);
        assert(all == prev + last);
        assert forall|j: int| 0 <= j < all.len() implies exists|n: Seq<char>|
            !extra_skipped(n) && (#[trigger] all[j] == OpView::CopyDir(
                join_spec(backup, n),
                join_spec(save_dir, n),
            ) || all[j] == OpView::CopyFile(join_spec(backup, n), join_spec(save_dir, n))) by {
            if j < prev.len() {
                assert(all[j] == prev[j]);
            } else {
                let n = es.last().name@;
                assert(all[j] == last[j - prev.len()]);
                assert(!extra_skipped(n));
            }
        }
    }
}

} // verus!
