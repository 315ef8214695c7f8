//! The monitor's decisions.  The program watches the save directory and
//! hands each event (or a quiet heartbeat every 250 ms) to `run`, which says
//! how the monitor's state changes and what to do: refresh the rolling
//! backup, restore the saves, or stop.  A deletion that comes within the
//! debounce window of the last save write is held back: if the game writes
//! its saves again before the window has passed, nothing is restored.

use vstd::prelude::*;
use crate::backup::elapsed_ns;
use crate::protected::{is_tracked_any, tracked_under, ObservedPath};
use crate::text::{decimal, decimal_text};

verus! {

/// Nanoseconds in a millisecond.
pub const NANOS_PER_MILLI: u128 = 1_000_000;

/// The monitor's memory, in nanoseconds on the program's monotonic clock.
#[derive(Clone, Copy, Debug, PartialEq, Eq, Structural)]
pub struct MonitorState {
    /// When the game last wrote its saves (or the monitor last acted).
    pub last_save_ns: u128,
    /// When a held-back deletion was seen, if one is waiting.
    pub pending_restore_at: Option<u128>,
}

/// The kind of a filesystem event.
#[derive(Clone, Copy, Debug, PartialEq, Eq, Structural)]
pub enum FsEventKind {
    /// Something was created, or a file's data was modified.
    Write,
    /// Something was removed.
    Remove,
    /// Anything else (access, metadata, renames, ...).
    Other,
}

/// What the monitor is told.
pub enum WatchEvent {
    /// The monitor has been asked to stop (checked before each wait for an
    /// event).
    StopRequested,
    /// No event for 250 ms.
    Heartbeat,
    /// The watcher reported an error.
    WatcherError,
    /// The watcher has gone away.
    Disconnected,
    /// A filesystem event: its kind, whether the watcher asks for a rescan
    /// (and whether the `saves` folder is then a folder), and the paths it
    /// names.
    Fs { kind: FsEventKind, need_rescan: bool, saves_is_dir: bool, paths: Vec<ObservedPath> },
}

/// What the monitor does, in order.
#[derive(Clone, Copy, Debug, PartialEq, Eq, Structural)]
pub enum MonitorAction {
    /// Warn about the watcher's error.
    ReportWatcherError,
    /// Warn that the watcher lost events and the state was rescanned.
    ReportRescan,
    /// Refresh the rolling backup (`refresh_backup`).
    RefreshBackup,
    /// The saves were deleted this long (ns) after the last write, past the
    /// debounce window: warn, and restore from the latest backup now.
    RestoreNow(u128),
    /// The saves were deleted this long (ns) after the last write, within
    /// the window: note it, and wait to see whether the game rewrites them.
    HoldRestore(u128),
    /// A held-back deletion was not followed by a save write within the
    /// window: restore from the latest backup now.
    RestoreAfterQuiet,
    /// Stop monitoring.
    Stop,
}

/// How the monitor starts at `now`, once it watches the save directory:
/// with no deletion held back, and by taking a rolling backup so that a
/// death right after the start is protected.
pub fn start_monitoring(now_ns: u128) -> (r: (MonitorState, Vec<MonitorAction>))
    ensures
        r.0 == (MonitorState { last_save_ns: now_ns, pending_restore_at: None }),
        r.1@ == seq![MonitorAction::RefreshBackup],
{
    let mut actions: Vec<MonitorAction> = Vec::new();
    actions.push(MonitorAction::RefreshBackup);
    assert(actions@ =~= seq![MonitorAction::RefreshBackup]);
    (MonitorState { last_save_ns: now_ns, pending_restore_at: None }, actions)
}

/// The debounce window in nanoseconds.
pub open spec fn window_ns(debounce_ms: u64) -> int {
    debounce_ms * NANOS_PER_MILLI
}

/// The monitor's response to a filesystem event whose paths touch protected
/// state in the save directory exactly when `touches`.
pub open spec fn fs_step(
    s: MonitorState,
    kind: FsEventKind,
    need_rescan: bool,
    saves_is_dir: bool,
    touches: bool,
    now: u128,
    debounce_ms: u64,
) -> (MonitorState, Seq<MonitorAction>) {
    let pre = if need_rescan {
        if saves_is_dir {
            seq![MonitorAction::ReportRescan, MonitorAction::RefreshBackup]
        } else {
            seq![MonitorAction::ReportRescan]
        }
    } else {
        Seq::empty()
    };
    match kind {
        FsEventKind::Write => if touches {
            (
                MonitorState { last_save_ns: now, pending_restore_at: None },
                pre.push(MonitorAction::RefreshBackup),
            )
        } else {
            (s, pre)
        },
        FsEventKind::Remove => if s.pending_restore_at is Some {
            (s, pre)
        } else {
            let el: int = elapsed_ns(now, s.last_save_ns);
            if el > window_ns(debounce_ms) {
                (
                    MonitorState { last_save_ns: now, pending_restore_at: None },
                    pre.push(MonitorAction::RestoreNow(el as u128)),
                )
            } else {
                (
                    MonitorState { last_save_ns: s.last_save_ns, pending_restore_at: Some(now) },
                    pre.push(MonitorAction::HoldRestore(el as u128)),
                )
            }
        },
        FsEventKind::Other => (s, pre),
    }
}

/// The monitor's response to a heartbeat: restore once a held-back deletion
/// is at least the debounce window old.
pub open spec fn heartbeat_step(s: MonitorState, now: u128, debounce_ms: u64) -> (
    MonitorState,
    Seq<MonitorAction>,
) {
    match s.pending_restore_at {
        Some(at) => if elapsed_ns(now, at) >= window_ns(debounce_ms) {
            (
                MonitorState { last_save_ns: now, pending_restore_at: None },
                seq![MonitorAction::RestoreAfterQuiet],
            )
        } else {
            (s, Seq::empty())
        },
        None => (s, Seq::empty()),
    }
}

/// The event's paths touch protected state inside `save_dir`.
pub open spec fn touches_protected(paths: Seq<ObservedPath>, save_dir: Seq<char>) -> bool {
    exists|i: int| 0 <= i < paths.len() && #[trigger] tracked_under(paths[i], save_dir)
}

/// The monitor's response to `ev` at `now`.
pub open spec fn monitor_step(
    s: MonitorState,
    ev: WatchEvent,
    now: u128,
    debounce_ms: u64,
    save_dir: Seq<char>,
) -> (MonitorState, Seq<MonitorAction>) {
    match ev {
        WatchEvent::StopRequested => (s, seq![MonitorAction::Stop]),
        WatchEvent::Heartbeat => heartbeat_step(s, now, debounce_ms),
        WatchEvent::WatcherError => (s, seq![MonitorAction::ReportWatcherError]),
        WatchEvent::Disconnected => (s, seq![MonitorAction::Stop]),
        WatchEvent::Fs { kind, need_rescan, saves_is_dir, paths } => fs_step(
            s,
            kind,
            need_rescan,
            saves_is_dir,
            touches_protected(paths@, save_dir),
            now,
            debounce_ms,
        ),
    }
}

/// One turn of the monitor's loop (`run`): given its state, the event (or
/// heartbeat) and the time, the new state and the actions to carry out.
pub fn run(state: MonitorState, ev: &WatchEvent, now_ns: u128, debounce_ms: u64, save_dir: &str) -> (r: (
    MonitorState,
    Vec<MonitorAction>,
))
    ensures
        (r.0, r.1@) == monitor_step(state, *ev, now_ns, debounce_ms, save_dir@),
{
    let window: u128 = debounce_ms as u128 * NANOS_PER_MILLI;
    let mut actions: Vec<MonitorAction> = Vec::new();
    match ev {
        WatchEvent::StopRequested => {
            actions.push(MonitorAction::Stop);
            assert(actions@ =~= seq![MonitorAction::Stop]);
            (state, actions)
        },
        WatchEvent::Heartbeat => {
            match state.pending_restore_at {
                Some(at) => {
                    let el: u128 = if now_ns >= at { now_ns - at } else { 0 };
                    if el >= window {
                        actions.push(MonitorAction::RestoreAfterQuiet);
                        assert(actions@ =~= seq![MonitorAction::RestoreAfterQuiet]);
                        return (MonitorState { last_save_ns: now_ns, pending_restore_at: None }, actions);
                    }
                },
                None => {},
            }
            assert(actions@ =~= Seq::<MonitorAction>::empty());
            (state, actions)
        },
        WatchEvent::WatcherError => {
            actions.push(MonitorAction::ReportWatcherError);
            assert(actions@ =~= seq![MonitorAction::ReportWatcherError]);
            (state, actions)
        },
        WatchEvent::Disconnected => {
            actions.push(MonitorAction::Stop);
            assert(actions@ =~= seq![MonitorAction::Stop]);
            (state, actions)
        },
        WatchEvent::Fs { kind, need_rescan, saves_is_dir, paths } => {
            if *need_rescan {
                actions.push(MonitorAction::ReportRescan);
                if *saves_is_dir {
                    actions.push(MonitorAction::RefreshBackup);
                }
            }
            let ghost pre = actions@;
            assert(pre =~= (if *need_rescan {
                if *saves_is_dir {
                    seq![MonitorAction::ReportRescan, MonitorAction::RefreshBackup]
                } else {
                    seq![MonitorAction::ReportRescan]
                }
            } else {
                Seq::empty()
            }));
            match kind {
                FsEventKind::Write => {
                    if is_tracked_any(paths, save_dir) {
                        actions.push(MonitorAction::RefreshBackup);
                        return (MonitorState { last_save_ns: now_ns, pending_restore_at: None }, actions);
                    }
                    (state, actions)
                },
                FsEventKind::Remove => {
                    if state.pending_restore_at.is_some() {
                        return (state, actions);
                    }
                    let last: u128 = state.last_save_ns;
                    let el: u128 = if now_ns >= last { now_ns - last } else { 0 };
                    if el > window {
                        actions.push(MonitorAction::RestoreNow(el));
                        (MonitorState { last_save_ns: now_ns, pending_restore_at: None }, actions)
                    } else {
                        actions.push(MonitorAction::HoldRestore(el));
                        (MonitorState { last_save_ns: last, pending_restore_at: Some(now_ns) }, actions)
                    }
                },
                FsEventKind::Other => (state, actions),
            }
        },
    }
}

/// How an elapsed time is reported: whole milliseconds, then ` ms`
/// (`format_duration`).
pub fn format_duration(elapsed_ns: u128) -> (r: String)
    ensures
        r@ == decimal((elapsed_ns / NANOS_PER_MILLI) as nat) + " ms"@,
{
    let mut r = decimal_text(elapsed_ns / NANOS_PER_MILLI);
    r.append(" ms");
    r
}


/// The actions restore the saves.
pub open spec fn restores(acts: Seq<MonitorAction>) -> bool {
    exists|i: int|
        0 <= i < acts.len() && (#[trigger] acts[i] is RestoreNow || acts[i] is RestoreAfterQuiet)
}

proof fn lemma_pre_actions_do_not_restore(need_rescan: bool, saves_is_dir: bool)
    ensures
        !restores(
            if need_rescan {
                if saves_is_dir {
                    seq![MonitorAction::ReportRescan, MonitorAction::RefreshBackup]
                } else {
                    seq![MonitorAction::ReportRescan]
                }
            } else {
                Seq::<MonitorAction>::empty()
            },
        ),
{
}

/// A write to protected state in the save directory cancels a held-back
/// deletion, records the write, and refreshes the rolling backup.
pub proof fn lemma_write_cancels_pending(
    s: MonitorState,
    need_rescan: bool,
    saves_is_dir: bool,
    now: u128,
    debounce_ms: u64,
)
    ensures
        ({
            let (s2, acts) = fs_step(
                s,
                FsEventKind::Write,
                need_rescan,
                saves_is_dir,
                true,
                now,
                debounce_ms,
            );
            &&& s2 == MonitorState { last_save_ns: now, pending_restore_at: None }
            &&& acts.last() == MonitorAction::RefreshBackup
            &&& !restores(acts)
        }),
{
    let (s2, acts) = fs_step(s, FsEventKind::Write, need_rescan, saves_is_dir, true, now, debounce_ms);
    lemma_pre_actions_do_not_restore(need_rescan, saves_is_dir);
    if restores(acts) {
        let i = choose|i: int|
            0 <= i < acts.len() && (#[trigger] acts[i] is RestoreNow || acts[i] is RestoreAfterQuiet);
        if i < acts.len() - 1 {
            let pre = acts.drop_last();
            assert(pre[i] == acts[i]);
        }
    }
}

/// A deletion more than the debounce window after the last save write, with
/// no deletion held back, restores at once.
pub proof fn lemma_late_deletion_restores(
    s: MonitorState,
    need_rescan: bool,
    saves_is_dir: bool,
    touches: bool,
    now: u128,
    debounce_ms: u64,
)
    requires
        s.pending_restore_at is None,
        elapsed_ns(now, s.last_save_ns) > window_ns(debounce_ms),
    ensures
        ({
            let (s2, acts) = fs_step(
                s,
                FsEventKind::Remove,
                need_rescan,
                saves_is_dir,
                touches,
                now,
                debounce_ms,
            );
            &&& s2 == MonitorState { last_save_ns: now, pending_restore_at: None }
            &&& acts.last() == MonitorAction::RestoreNow(elapsed_ns(now, s.last_save_ns) as u128)
        }),
{
}

/// A deletion within the debounce window after the last save write, with no
/// deletion held back, is held back: nothing is restored yet, and the time
/// of the deletion is remembered.
pub proof fn lemma_early_deletion_held(
    s: MonitorState,
    need_rescan: bool,
    saves_is_dir: bool,
    touches: bool,
    now: u128,
    debounce_ms: u64,
)
    requires
        s.pending_restore_at is None,
        elapsed_ns(now, s.last_save_ns) <= window_ns(debounce_ms),
    ensures
        ({
            let (s2, acts) = fs_step(
                s,
                FsEventKind::Remove,
                need_rescan,
                saves_is_dir,
                touches,
                now,
                debounce_ms,
            );
            &&& s2 == MonitorState { last_save_ns: s.last_save_ns, pending_restore_at: Some(now) }
            &&& !restores(acts)
        }),
{
    let (s2, acts) = fs_step(s, FsEventKind::Remove, need_rescan, saves_is_dir, touches, now, debounce_ms);
    lemma_pre_actions_do_not_restore(need_rescan, saves_is_dir);
    if restores(acts) {
        let i = choose|i: int|
            0 <= i < acts.len() && (#[trigger] acts[i] is RestoreNow || acts[i] is RestoreAfterQuiet);
        if i < acts.len() - 1 {
            let pre = acts.drop_last();
            assert(pre[i] == acts[i]);
        }
    }
}

/// While a deletion is held back, further deletions change nothing and
/// restore nothing.
pub proof fn lemma_deletion_while_held(
    s: MonitorState,
    need_rescan: bool,
    saves_is_dir: bool,
    touches: bool,
    now: u128,
    debounce_ms: u64,
)
    requires
        s.pending_restore_at is Some,
    ensures
        ({
            let (s2, acts) = fs_step(
                s,
                FsEventKind::Remove,
                need_rescan,
                saves_is_dir,
                touches,
                now,
                debounce_ms,
            );
            s2 == s && !restores(acts)
        }),
{
    lemma_pre_actions_do_not_restore(need_rescan, saves_is_dir);
}

/// A held-back deletion is restored at the first heartbeat at least the
/// debounce window after it, and not before.
pub proof fn lemma_held_deletion_restored_after_window(
    s: MonitorState,
    now: u128,
    debounce_ms: u64,
)
    requires
        s.pending_restore_at is Some,
    ensures
        ({
            let (s2, acts) = heartbeat_step(s, now, debounce_ms);
            if elapsed_ns(now, s.pending_restore_at->0) >= window_ns(debounce_ms) {
                s2 == MonitorState { last_save_ns: now, pending_restore_at: None } && acts
                    == seq![MonitorAction::RestoreAfterQuiet]
            } else {
                s2 == s && acts.len() == 0
            }
        }),
{
}

/// Without a held-back deletion, heartbeats do nothing.
pub proof fn lemma_quiet_heartbeat(s: MonitorState, now: u128, debounce_ms: u64)
    requires
        s.pending_restore_at is None,
    ensures
        heartbeat_step(s, now, debounce_ms) == (s, Seq::<MonitorAction>::empty()),
{
}

/// The game deleting its saves and writing them again within the debounce
/// window (as it does when it rewrites a save) restores nothing: after the
/// deletion at `t1` and the write at `t2`, no heartbeat restores.
pub proof fn lemma_rewrite_prevents_restore(
    s0: MonitorState,
    t1: u128,
    t2: u128,
    t3: u128,
    debounce_ms: u64,
    rescan1: bool,
    saves1: bool,
    touches1: bool,
    rescan2: bool,
    saves2: bool,
)
    requires
        s0.pending_restore_at is None,
        elapsed_ns(t1, s0.last_save_ns) <= window_ns(debounce_ms),
    ensures
        ({
            let (s1, a1) = fs_step(s0, FsEventKind::Remove, rescan1, saves1, touches1, t1, debounce_ms);
            let (s2, a2) = fs_step(s1, FsEventKind::Write, rescan2, saves2, true, t2, debounce_ms);
            let (s3, a3) = heartbeat_step(s2, t3, debounce_ms);
            !restores(a1) && !restores(a2) && !restores(a3) && s3 == s2
        }),
{
    lemma_early_deletion_held(s0, rescan1, saves1, touches1, t1, debounce_ms);
    let (s1, a1) = fs_step(s0, FsEventKind::Remove, rescan1, saves1, touches1, t1, debounce_ms);
    lemma_write_cancels_pending(s1, rescan2, saves2, t2, debounce_ms);
    let (s2, a2) = fs_step(s1, FsEventKind::Write, rescan2, saves2, true, t2, debounce_ms);
    lemma_quiet_heartbeat(s2, t3, debounce_ms);
}

/// A deletion within the debounce window that the game does not follow with
/// a write is restored at the first heartbeat a full window after it.
pub proof fn lemma_unanswered_deletion_restored(
    s0: MonitorState,
    t1: u128,
    t3: u128,
    debounce_ms: u64,
    rescan1: bool,
    saves1: bool,
    touches1: bool,
)
    requires
        s0.pending_restore_at is None,
        elapsed_ns(t1, s0.last_save_ns) <= window_ns(debounce_ms),
        t3 >= t1 + window_ns(debounce_ms),
    ensures
        ({
            let (s1, a1) = fs_step(s0, FsEventKind::Remove, rescan1, saves1, touches1, t1, debounce_ms);
            let (s3, a3) = heartbeat_step(s1, t3, debounce_ms);
            a3 == seq![MonitorAction::RestoreAfterQuiet] && s3.pending_restore_at is None
        }),
{
    lemma_early_deletion_held(s0, rescan1, saves1, touches1, t1, debounce_ms);
}

/// A stop request ends the monitor: the step's only action is `Stop`, and
/// nothing else happens; so does the loss of the watcher.
pub proof fn lemma_stop_request_stops(s: MonitorState, now: u128, debounce_ms: u64, save_dir: Seq<char>)
    ensures
        monitor_step(s, WatchEvent::StopRequested, now, debounce_ms, save_dir) == (s, seq![
            MonitorAction::Stop,
        ]),
        monitor_step(s, WatchEvent::Disconnected, now, debounce_ms, save_dir) == (s, seq![
            MonitorAction::Stop,
        ]),
{
}

/// A filesystem event as the monitor's decision sees it.
pub struct FsEventInfo {
    pub kind: FsEventKind,
    pub need_rescan: bool,
    pub saves_is_dir: bool,
    /// Its paths touch protected state in the save directory.
    pub touches: bool,
    /// When it arrives.
    pub now: u128,
}

/// The event is a write to protected state: the only kind of event that
/// tells the monitor the game has written its saves again.
pub open spec fn is_protected_write(ev: FsEventInfo) -> bool {
    ev.kind == FsEventKind::Write && ev.touches
}

/// The monitor's state after the events `evs`, in order.
pub open spec fn after_events(s: MonitorState, evs: Seq<FsEventInfo>, debounce_ms: u64) -> MonitorState
    decreases evs.len(),
{
    if evs.len() == 0 {
        s
    } else {
        let ev = evs[0];
        after_events(
            fs_step(s, ev.kind, ev.need_rescan, ev.saves_is_dir, ev.touches, ev.now, debounce_ms).0,
            evs.drop_first(),
            debounce_ms,
        )
    }
}

/// An event that is not a write to protected state never changes the
/// monitor's state while a deletion is held back, and never restores: it
/// only reports a rescan (and refreshes the backup when a rescan finds the
/// `saves` folder).
pub proof fn lemma_non_write_keeps_hold(s: MonitorState, ev: FsEventInfo, debounce_ms: u64)
    requires
        s.pending_restore_at is Some,
        !is_protected_write(ev),
    ensures
        ({
            let (s2, acts) = fs_step(
                s,
                ev.kind,
                ev.need_rescan,
                ev.saves_is_dir,
                ev.touches,
                ev.now,
                debounce_ms,
            );
            &&& s2 == s
            &&& !restores(acts)
            &&& forall|i: int|
                0 <= i < acts.len() ==> (#[trigger] acts[i] == MonitorAction::ReportRescan
                    || (acts[i] == MonitorAction::RefreshBackup && ev.need_rescan
                    && ev.saves_is_dir))
        }),
{
    lemma_pre_actions_do_not_restore(ev.need_rescan, ev.saves_is_dir);
}

/// A held-back deletion survives any run of events that are not writes to
/// protected state (renames, attribute changes, further deletions, writes
/// elsewhere): the state is exactly as before them.
pub proof fn lemma_hold_survives_non_writes(s: MonitorState, evs: Seq<FsEventInfo>, debounce_ms: u64)
    requires
        s.pending_restore_at is Some,
        forall|i: int| 0 <= i < evs.len() ==> !is_protected_write(#[trigger] evs[i]),
    ensures
        after_events(s, evs, debounce_ms) == s,
    decreases evs.len(),
{
    if evs.len() > 0 {
        lemma_non_write_keeps_hold(s, evs[0], debounce_ms);
        assert forall|i: int| 0 <= i < evs.drop_first().len() implies !is_protected_write(
            #[trigger] evs.drop_first()[i],
        ) by {
            assert(evs.drop_first()[i] == evs[i + 1]);
        }
        lemma_hold_survives_non_writes(s, evs.drop_first(), debounce_ms);
    }
}

/// A deletion of the saves within the debounce window after the last write,
/// followed by any events that are not writes to protected state, is
/// restored at the first heartbeat a full window after the deletion.
pub proof fn lemma_held_deletion_restored_after_non_writes(
    s0: MonitorState,
    t1: u128,
    rescan: bool,
    saves_is_dir: bool,
    touches: bool,
    evs: Seq<FsEventInfo>,
    t3: u128,
    debounce_ms: u64,
)
    requires
        s0.pending_restore_at is None,
        elapsed_ns(t1, s0.last_save_ns) <= window_ns(debounce_ms),
        forall|i: int| 0 <= i < evs.len() ==> !is_protected_write(#[trigger] evs[i]),
        t3 >= t1 + window_ns(debounce_ms),
    ensures
        ({
            let s1 = fs_step(s0, FsEventKind::Remove, rescan, saves_is_dir, touches, t1, debounce_ms).0;
            let (s3, acts) = heartbeat_step(after_events(s1, evs, debounce_ms), t3, debounce_ms);
            acts == seq![MonitorAction::RestoreAfterQuiet] && s3.pending_restore_at is None
        }),
{
    lemma_early_deletion_held(s0, rescan, saves_is_dir, touches, t1, debounce_ms);
    let s1 = fs_step(s0, FsEventKind::Remove, rescan, saves_is_dir, touches, t1, debounce_ms).0;
    lemma_hold_survives_non_writes(s1, evs, debounce_ms);
}

} // verus!
