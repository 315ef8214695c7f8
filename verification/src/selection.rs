//! Which entries of the backup directory count as backups of each sort, in
//! what order they are listed, which one is the latest, and which ones are
//! pruned.  Entries are ordered by name, as the paths of one directory sort.

use vstd::prelude::*;
use crate::backup::{rolled_name, PRE_RESTORE_PREFIX, ROLLED_PREFIX};
use crate::clock::{lemma_text_lt_common_prefix, lemma_timestamp_order, timestamp_text};
use crate::text::{
    has_prefix, lemma_text_lt_irreflexive, lemma_text_lt_total, lemma_text_lt_transitive,
    same_text, text_less, text_lt, text_starts_with,
};

verus! {

/// An entry of the backup directory: its name and whether it is a folder.
pub struct BackupEntry {
    pub name: String,
    pub is_dir: bool,
}

/// Which folders count.
#[derive(Clone, Copy, Debug, PartialEq, Eq, Structural)]
pub enum Selection {
    /// Every folder (all backups, rolling or not).
    AnyDir,
    /// Rolling backups: folders named `rolled-...`.
    Rolled,
    /// Rolling backups and pre-restore snapshots.
    RolledOrPreRestore,
}

/// Entry `i` is a folder that `sel` counts.
pub open spec fn selected(e: Seq<BackupEntry>, sel: Selection, i: int) -> bool {
    0 <= i < e.len() && e[i].is_dir && match sel {
        Selection::AnyDir => true,
        Selection::Rolled => has_prefix(e[i].name@, ROLLED_PREFIX@),
        Selection::RolledOrPreRestore => has_prefix(e[i].name@, ROLLED_PREFIX@) || has_prefix(
            e[i].name@,
            PRE_RESTORE_PREFIX@,
        ),
    }
}

/// Entry `i` sorts before entry `j`: by name, and by listing position
/// between equal names.
pub open spec fn entry_before(e: Seq<BackupEntry>, i: int, j: int) -> bool {
    text_lt(e[i].name@, e[j].name@) || (e[i].name@ == e[j].name@ && i < j)
}

/// The indices `v` are in strictly increasing `entry_before` order.
pub open spec fn sorted_by_name(e: Seq<BackupEntry>, v: Seq<usize>) -> bool {
    forall|a: int, b: int|
        0 <= a < b < v.len() ==> #[trigger] entry_before(e, v[a] as int, v[b] as int)
}

/// Index `i` occurs in `v`.
pub open spec fn has_index(v: Seq<usize>, i: int) -> bool {
    exists|k: int| 0 <= k < v.len() && v[k] as int == i
}

/// `v` lists exactly the entries that `sel` counts, in name order.
pub open spec fn lists_selection(e: Seq<BackupEntry>, sel: Selection, v: Seq<usize>) -> bool {
    &&& sorted_by_name(e, v)
    &&& forall|k: int| 0 <= k < v.len() ==> selected(e, sel, #[trigger] v[k] as int)
    &&& forall|i: int| selected(e, sel, i) ==> has_index(v, i)
}

/// Entry `m` is the latest that `sel` counts: every other counted entry
/// sorts before it.
pub open spec fn is_latest(e: Seq<BackupEntry>, sel: Selection, m: int) -> bool {
    selected(e, sel, m) && forall|c: int|
        selected(e, sel, c) && c != m ==> #[trigger] entry_before(e, c, m)
}

proof fn lemma_before_irreflexive(e: Seq<BackupEntry>, i: int)
    ensures
        !entry_before(e, i, i),
{
    lemma_text_lt_irreflexive(e[i].name@);
}

proof fn lemma_before_transitive(e: Seq<BackupEntry>, i: int, j: int, k: int)
    requires
        entry_before(e, i, j),
        entry_before(e, j, k),
    ensures
        entry_before(e, i, k),
{
    let (a, b, c) = (e[i].name@, e[j].name@, e[k].name@);
    if text_lt(a, b) && text_lt(b, c) {
        lemma_text_lt_transitive(a, b, c);
    }
}

proof fn lemma_before_total(e: Seq<BackupEntry>, i: int, j: int)
    requires
        i != j,
    ensures
        entry_before(e, i, j) || entry_before(e, j, i),
{
    lemma_text_lt_total(e[i].name@, e[j].name@);
}

proof fn lemma_before_asymmetric(e: Seq<BackupEntry>, i: int, j: int)
    requires
        entry_before(e, i, j),
    ensures
        !entry_before(e, j, i),
{
    if entry_before(e, j, i) {
        lemma_before_transitive(e, i, j, i);
        lemma_before_irreflexive(e, i);
    }
}

proof fn lemma_insert_sorted(e: Seq<BackupEntry>, old_v: Seq<usize>, p: int, x: usize)
    requires
        sorted_by_name(e, old_v),
        0 <= p <= old_v.len(),
        forall|k: int| 0 <= k < p ==> entry_before(e, #[trigger] old_v[k] as int, x as int),
        p < old_v.len() ==> entry_before(e, x as int, old_v[p] as int),
    ensures
        sorted_by_name(e, old_v.insert(p, x)),
{
    let v = old_v.insert(p, x);
    old_v.insert_ensures(p, x);
    assert forall|a: int, b: int| 0 <= a < b < v.len() implies #[trigger] entry_before(
        e,
        v[a] as int,
        v[b] as int,
    ) by {
        if b < p {
        } else if a < p && b == p {
        } else if a < p {
            assert(v[b] == old_v[b - 1]);
            assert(entry_before(e, old_v[a] as int, old_v[b - 1] as int));
        } else if a == p {
            assert(v[b] == old_v[b - 1]);
            if b - 1 > p {
                assert(entry_before(e, old_v[p] as int, old_v[b - 1] as int));
                lemma_before_transitive(e, x as int, old_v[p] as int, old_v[b - 1] as int);
            }
        } else {
            assert(v[a] == old_v[a - 1]);
            assert(v[b] == old_v[b - 1]);
            assert(entry_before(e, old_v[a - 1] as int, old_v[b - 1] as int));
        }
    }
}

fn is_selected(entries: &Vec<BackupEntry>, sel: Selection, i: usize) -> (r: bool)
    requires
        i < entries@.len(),
    ensures
        r == selected(entries@, sel, i as int),
{
    let e = &entries[i];
    if !e.is_dir {
        return false;
    }
    match sel {
        Selection::AnyDir => true,
        Selection::Rolled => text_starts_with(e.name.as_str(), ROLLED_PREFIX),
        Selection::RolledOrPreRestore => text_starts_with(e.name.as_str(), ROLLED_PREFIX)
            || text_starts_with(e.name.as_str(), PRE_RESTORE_PREFIX),
    }
}

fn before(entries: &Vec<BackupEntry>, i: usize, j: usize) -> (r: bool)
    requires
        i < entries@.len(),
        j < entries@.len(),
    ensures
        r == entry_before(entries@, i as int, j as int),
{
    let a = entries[i].name.as_str();
    let b = entries[j].name.as_str();
    text_less(a, b) || (same_text(a, b) && i < j)
}

/// The indices of the entries that `sel` counts, in name order.
pub fn sorted_selection(entries: &Vec<BackupEntry>, sel: Selection) -> (r: Vec<usize>)
    ensures
        lists_selection(entries@, sel, r@),
{
    let ghost e = entries@;
    let mut v: Vec<usize> = Vec::new();
    let mut i: usize = 0;
    while i < entries.len()
        invariant
            e == entries@,
            i <= e.len(),
            sorted_by_name(e, v@),
            forall|k: int| 0 <= k < v@.len() ==> selected(e, sel, #[trigger] v@[k] as int) && v@[k]
                < i,
            forall|j: int| 0 <= j < i && selected(e, sel, j) ==> has_index(v@, j),
        decreases e.len() - i,
    {
        if is_selected(entries, sel, i) {
            let mut p: usize = 0;
            while p < v.len() && !before(entries, i, v[p])
                invariant
                    e == entries@,
                    i < e.len(),
                    p <= v@.len(),
                    forall|k: int| 0 <= k < v@.len() ==> #[trigger] v@[k] < i,
                    forall|k: int| 0 <= k < p ==> entry_before(e, #[trigger] v@[k] as int, i as int),
                decreases v@.len() - p,
            {
                proof {
                    lemma_before_total(e, v@[p as int] as int, i as int);
                }
                p = p + 1;
            }
            let ghost old_v = v@;
            v.insert(p, i);
            proof {
                old_v.insert_ensures(p as int, i);
                lemma_insert_sorted(e, old_v, p as int, i);
                assert forall|j: int| 0 <= j < i + 1 && selected(e, sel, j) implies has_index(
                    v@,
                    j,
                ) by {
                    if j == i {
                        assert(v@[p as int] as int == i);
                    } else {
                        assert(has_index(old_v, j));
                        let k = choose|k: int| 0 <= k < old_v.len() && old_v[k] as int == j;
                        if k < p {
                            assert(v@[k] as int == j);
                        } else {
                            assert(v@[k + 1] as int == j);
                        }
                    }
                }
                assert forall|k: int| 0 <= k < v@.len() implies selected(
                    e,
                    sel,
                    #[trigger] v@[k] as int,
                ) && v@[k] < i + 1 by {
                    if k > p {
                        assert(v@[k] == old_v[k - 1]);
                    }
                }
            }
        }
        i = i + 1;
    }
    v
}


/// `v` lists, in name order, every entry that `sel` counts except the
/// latest.
pub open spec fn lists_all_but_latest(e: Seq<BackupEntry>, sel: Selection, v: Seq<usize>) -> bool {
    &&& sorted_by_name(e, v)
    &&& forall|k: int|
        0 <= k < v.len() ==> selected(e, sel, #[trigger] v[k] as int) && !is_latest(
            e,
            sel,
            v[k] as int,
        )
    &&& forall|i: int| selected(e, sel, i) && !is_latest(e, sel, i) ==> has_index(v, i)
}

/// There is at most one latest entry.
pub proof fn lemma_latest_unique(e: Seq<BackupEntry>, sel: Selection, m1: int, m2: int)
    requires
        is_latest(e, sel, m1),
        is_latest(e, sel, m2),
    ensures
        m1 == m2,
{
    if m1 != m2 {
        assert(entry_before(e, m1, m2));
        assert(entry_before(e, m2, m1));
        lemma_before_asymmetric(e, m1, m2);
    }
}

/// The latest entry of a name-ordered list of the selection is its last.
proof fn lemma_last_is_latest(e: Seq<BackupEntry>, sel: Selection, v: Seq<usize>)
    requires
        lists_selection(e, sel, v),
        v.len() > 0,
    ensures
        is_latest(e, sel, v.last() as int),
        forall|k: int| 0 <= k < v.len() - 1 ==> !is_latest(e, sel, #[trigger] v[k] as int),
{
    let m: int = v.last() as int;
    assert(selected(e, sel, v[v.len() - 1] as int));
    assert forall|c: int| selected(e, sel, c) && c != m implies #[trigger] entry_before(e, c, m) by {
        assert(has_index(v, c));
        let k = choose|k: int| 0 <= k < v.len() && v[k] as int == c;
        assert(k != v.len() - 1);
        assert(entry_before(e, v[k] as int, v[v.len() - 1] as int));
    }
    assert forall|k: int| 0 <= k < v.len() - 1 implies !is_latest(e, sel, #[trigger] v[k] as int) by {
        assert(entry_before(e, v[k] as int, v[v.len() - 1] as int));
        lemma_before_asymmetric(e, v[k] as int, m);
        if is_latest(e, sel, v[k] as int) {
            lemma_before_irreflexive(e, m);
            assert(m != v[k] as int);
        }
    }
}

/// The backup folders, rolling or not, in name order (`list_backups`).
pub fn list_backups(entries: &Vec<BackupEntry>) -> (r: Vec<usize>)
    ensures
        lists_selection(entries@, Selection::AnyDir, r@),
{
    sorted_selection(entries, Selection::AnyDir)
}

/// The latest counted entry, if any is counted.
pub fn latest_selected(entries: &Vec<BackupEntry>, sel: Selection) -> (r: Option<usize>)
    ensures
        match r {
            Some(m) => is_latest(entries@, sel, m as int),
            None => forall|i: int| !selected(entries@, sel, i),
        },
{
    let v = sorted_selection(entries, sel);
    if v.len() == 0 {
        proof {
            assert forall|i: int| !selected(entries@, sel, i) by {
                if selected(entries@, sel, i) {
                    assert(has_index(v@, i));
                }
            }
        }
        None
    } else {
        proof {
            lemma_last_is_latest(entries@, sel, v@);
        }
        Some(v[v.len() - 1])
    }
}

/// All counted entries but the latest, in name order.
pub fn all_but_latest(entries: &Vec<BackupEntry>, sel: Selection) -> (r: Vec<usize>)
    ensures
        lists_all_but_latest(entries@, sel, r@),
{
    let mut v = sorted_selection(entries, sel);
    if v.len() == 0 {
        proof {
            assert forall|i: int| selected(entries@, sel, i) && !is_latest(entries@, sel, i) implies has_index(v@, i) by {
                assert(has_index(v@, i));
            }
        }
        return v;
    }
    let ghost full = v@;
    proof {
        lemma_last_is_latest(entries@, sel, full);
    }
    let _ = v.pop();
    proof {
        assert(v@ =~= full.drop_last());
        assert forall|i: int| selected(entries@, sel, i) && !is_latest(entries@, sel, i) implies has_index(v@, i) by {
            assert(has_index(full, i));
            let k = choose|k: int| 0 <= k < full.len() && full[k] as int == i;
            assert(k != full.len() - 1);
            assert(v@[k] as int == i);
        }
    }
    v
}

/// The latest rolling backup, if there is one (`find_latest_backup`).
pub fn find_latest_backup(entries: &Vec<BackupEntry>) -> (r: Option<usize>)
    ensures
        match r {
            Some(m) => is_latest(entries@, Selection::Rolled, m as int),
            None => forall|i: int| !selected(entries@, Selection::Rolled, i),
        },
{
    latest_selected(entries, Selection::Rolled)
}

/// The rolling backups to prune: all but the latest, oldest first
/// (`prune_old_backups`).
pub fn prune_old_backups(entries: &Vec<BackupEntry>) -> (r: Vec<usize>)
    ensures
        lists_all_but_latest(entries@, Selection::Rolled, r@),
{
    all_but_latest(entries, Selection::Rolled)
}

/// The rolling backups and pre-restore snapshots to remove after a backup:
/// all but the latest of them, oldest first (`remove_old_rolled_backups`).
pub fn remove_old_rolled_backups(entries: &Vec<BackupEntry>) -> (r: Vec<usize>)
    ensures
        lists_all_but_latest(entries@, Selection::RolledOrPreRestore, r@),
{
    all_but_latest(entries, Selection::RolledOrPreRestore)
}

/// Pruning keeps exactly one counted entry, the latest, which is the backup
/// that a restore without a chosen backup uses: the latest is not pruned,
/// and every other counted entry is.
pub proof fn lemma_prune_keeps_latest(e: Seq<BackupEntry>, sel: Selection, pruned: Seq<usize>, m: int)
    requires
        lists_all_but_latest(e, sel, pruned),
        is_latest(e, sel, m),
    ensures
        !has_index(pruned, m),
        forall|i: int| selected(e, sel, i) && i != m ==> has_index(pruned, i),
{
    if has_index(pruned, m) {
        let k = choose|k: int| 0 <= k < pruned.len() && pruned[k] as int == m;
        assert(!is_latest(e, sel, pruned[k] as int));
    }
    assert forall|i: int| selected(e, sel, i) && i != m implies has_index(pruned, i) by {
        if is_latest(e, sel, i) {
            lemma_latest_unique(e, sel, i, m);
        }
    }
}

/// Rolling backups sort in the order in which they were taken: a backup
/// named for an earlier second sorts before one named for a later second
/// (for backups taken before the year 2243).
pub proof fn lemma_older_backup_sorts_first(e: Seq<BackupEntry>, i: int, j: int, s1: nat, s2: nat)
    requires
        0 <= i < e.len(),
        0 <= j < e.len(),
        e[i].name@ == rolled_name(timestamp_text(s1)),
        e[j].name@ == rolled_name(timestamp_text(s2)),
        s1 < s2,
        s2 / 86400 < 100000,
    ensures
        entry_before(e, i, j),
{
    lemma_timestamp_order(s1, s2);
    lemma_text_lt_common_prefix(ROLLED_PREFIX@, timestamp_text(s1), timestamp_text(s2));
}

/// The backup just taken is the one the next lookup finds: if entry `i` is
/// the rolling backup named for second `s` (before the year 2243) and every
/// other rolling backup is named for an earlier second, entry `i` is the
/// latest rolling backup (`find_latest_backup` returns it, and a restore
/// without a chosen backup restores from it).
pub proof fn lemma_new_backup_is_latest(e: Seq<BackupEntry>, i: int, s: nat)
    requires
        0 <= i < e.len(),
        e[i].is_dir,
        e[i].name@ == rolled_name(timestamp_text(s)),
        s / 86400 < 100000,
        forall|j: int|
            selected(e, Selection::Rolled, j) && j != i ==> exists|s2: nat|
                s2 < s && e[j].name@ == #[trigger] rolled_name(timestamp_text(s2)),
    ensures
        is_latest(e, Selection::Rolled, i),
{
    assert(rolled_name(timestamp_text(s)).subrange(0, ROLLED_PREFIX@.len() as int) =~= ROLLED_PREFIX@);
    assert forall|c: int| selected(e, Selection::Rolled, c) && c != i implies #[trigger] entry_before(e, c, i) by {
        let s2 = choose|s2: nat| s2 < s && e[c].name@ == #[trigger] rolled_name(timestamp_text(s2));
        lemma_older_backup_sorts_first(e, c, i, s2, s);
    }
}

} // verus!
