//! What backup and restore plans do to the protected state, in a model of
//! the file system that holds, at each path a plan names, either a file
//! (its bytes) or a folder (the bytes of every file in it, by relative
//! path).  An operation's effect is the one it has when it succeeds; a plan
//! that fails stops (no effect is claimed for it).

use vstd::prelude::*;
use crate::backup::{copy_dir_op, copy_file_op, restore_ops, snapshot_ops, OpView};
use crate::paths::join_spec;
use crate::protected::{tracked_dir_names, tracked_file_names};

verus! {

/// What a path holds.
pub enum Item {
    File(Seq<u8>),
    Dir(Map<Seq<char>, Seq<u8>>),
}

/// The model of the file system: what each path holds.
pub open spec fn holds(fs: Map<Seq<char>, Item>, p: Seq<char>) -> Option<Item> {
    if fs.contains_key(p) {
        Some(fs[p])
    } else {
        None
    }
}

/// Copying a folder tree `t` to a path that holds `existing`: a new
/// folder, merged into a folder already there, or a failure over a file.
pub open spec fn copy_tree_into(existing: Option<Item>, t: Map<Seq<char>, Seq<u8>>) -> Option<Item> {
    match existing {
        None => Some(Item::Dir(t)),
        Some(Item::Dir(u)) => Some(Item::Dir(u.union_prefer_right(t))),
        Some(Item::File(_)) => None,
    }
}

/// Copying a file's bytes `c` to a path that holds `existing`: fails over a
/// folder, replaces anything else.
pub open spec fn copy_file_into(
    fs: Map<Seq<char>, Item>,
    to: Seq<char>,
    c: Seq<u8>,
) -> Option<Map<Seq<char>, Item>> {
    match holds(fs, to) {
        Some(Item::Dir(_)) => None,
        _ => Some(fs.insert(to, Item::File(c))),
    }
}

/// The file system after one operation, or `None` when it fails.
pub open spec fn apply_op(fs: Map<Seq<char>, Item>, op: OpView) -> Option<Map<Seq<char>, Item>> {
    match op {
        OpView::CreateDirAll(p) => match holds(fs, p) {
            None => Some(fs.insert(p, Item::Dir(Map::empty()))),
            Some(Item::Dir(_)) => Some(fs),
            Some(Item::File(_)) => None,
        },
        OpView::RemoveExistingDir(p) => match holds(fs, p) {
            Some(Item::File(_)) => None,
            _ => Some(fs.remove(p)),
        },
        OpView::ClearDir(p) => match holds(fs, p) {
            Some(Item::Dir(_)) => Some(fs.remove(p)),
            _ => Some(fs),
        },
        OpView::ClearFile(p) => match holds(fs, p) {
            Some(Item::File(_)) => Some(fs.remove(p)),
            _ => Some(fs),
        },
        OpView::CopyFileIfPresent(a, b) => match holds(fs, a) {
            Some(Item::File(c)) => copy_file_into(fs, b, c),
            _ => Some(fs),
        },
        OpView::CopyDirIfPresent(a, b) => match holds(fs, a) {
            Some(Item::Dir(t)) => match copy_tree_into(holds(fs, b), t) {
                Some(i) => Some(fs.insert(b, i)),
                None => None,
            },
            _ => Some(fs),
        },
        OpView::CopyFile(a, b) => match holds(fs, a) {
            Some(Item::File(c)) => copy_file_into(fs, b, c),
            _ => None,
        },
        OpView::CopyDir(a, b) => match holds(fs, a) {
            Some(Item::Dir(t)) => match copy_tree_into(holds(fs, b), t) {
                Some(i) => Some(fs.insert(b, i)),
                None => None,
            },
            _ => None,
        },
    }
}

/// The file system after the operations from position `i` on, or `None`
/// when one fails.
pub open spec fn apply_from(fs: Map<Seq<char>, Item>, ops: Seq<OpView>, i: int) -> Option<
    Map<Seq<char>, Item>,
>
    decreases ops.len() - i,
{
    if i < 0 || i >= ops.len() {
        Some(fs)
    } else {
        match apply_op(fs, ops[i]) {
            None => None,
            Some(f) => apply_from(f, ops, i + 1),
        }
    }
}

/// The file system after all the operations, or `None` when one fails.
pub open spec fn apply_ops(fs: Map<Seq<char>, Item>, ops: Seq<OpView>) -> Option<
    Map<Seq<char>, Item>,
> {
    apply_from(fs, ops, 0)
}

/// The protected locations of a directory: its three protected files, then
/// its `saves` folder.
pub open spec fn locations(dir: Seq<char>) -> Seq<Seq<char>> {
    let f = tracked_file_names();
    seq![
        join_spec(dir, f[0]),
        join_spec(dir, f[1]),
        join_spec(dir, f[2]),
        join_spec(dir, tracked_dir_names()[0]),
    ]
}

/// No protected location of one directory is a protected location of the
/// other or the other directory itself.
pub open spec fn separate(a: Seq<char>, b: Seq<char>) -> bool {
    &&& forall|i: int, j: int|
        0 <= i < 4 && 0 <= j < 4 ==> #[trigger] locations(a)[i] != #[trigger] locations(b)[j]
    &&& forall|i: int| 0 <= i < 4 ==> #[trigger] locations(a)[i] != b && locations(b)[i] != a
}

/// The protected files of `dir` are files or absent, and its `saves` is a
/// folder or absent.
pub open spec fn well_shaped(fs: Map<Seq<char>, Item>, dir: Seq<char>) -> bool {
    &&& forall|i: int| 0 <= i < 3 ==> !(#[trigger] holds(fs, locations(dir)[i]) matches Some(Item::Dir(_)))
    &&& !(holds(fs, locations(dir)[3]) matches Some(Item::File(_)))
}

/// Nothing is at the protected locations of `dir`.
pub open spec fn fresh(fs: Map<Seq<char>, Item>, dir: Seq<char>) -> bool {
    forall|i: int| 0 <= i < 4 ==> !fs.contains_key(#[trigger] locations(dir)[i])
}

/// The two file systems hold the same at the protected locations of `dir`.
pub open spec fn same_protected(
    f1: Map<Seq<char>, Item>,
    f2: Map<Seq<char>, Item>,
    dir: Seq<char>,
) -> bool {
    forall|i: int| 0 <= i < 4 ==> holds(f1, #[trigger] locations(dir)[i]) == holds(f2, locations(dir)[i])
}

proof fn lemma_unfold(fs: Map<Seq<char>, Item>, ops: Seq<OpView>, i: int, out: Map<Seq<char>, Item>)
    requires
        0 <= i < ops.len(),
        apply_from(fs, ops, i) == Some(out),
    ensures
        apply_op(fs, ops[i]) is Some,
        apply_from(apply_op(fs, ops[i])->0, ops, i + 1) == Some(out),
{
}

proof fn lemma_done(fs: Map<Seq<char>, Item>, ops: Seq<OpView>, out: Map<Seq<char>, Item>)
    requires
        apply_from(fs, ops, ops.len() as int) == Some(out),
    ensures
        out == fs,
{
}

proof fn lemma_join_distinct(dir: Seq<char>, n1: Seq<char>, n2: Seq<char>)
    requires
        n1.len() > 0 && n1[0] != '/',
        n2.len() > 0 && n2[0] != '/',
        n1 != n2,
    ensures
        join_spec(dir, n1) != join_spec(dir, n2),
        join_spec(dir, n1) != dir,
{
    let pre = if dir.len() == 0 || dir.last() == '/' { dir } else { dir.push('/') };
    assert(join_spec(dir, n1) == pre + n1);
    assert(join_spec(dir, n2) == pre + n2);
    if pre + n1 == pre + n2 {
        assert((pre + n1).subrange(pre.len() as int, (pre + n1).len() as int) =~= n1);
        assert((pre + n2).subrange(pre.len() as int, (pre + n2).len() as int) =~= n2);
    }
}

/// The protected locations of one directory are four different paths,
/// none of them the directory itself.
pub proof fn lemma_locations_distinct(dir: Seq<char>)
    ensures
        forall|i: int, j: int| 0 <= i < j < 4 ==> locations(dir)[i] != locations(dir)[j],
        forall|i: int| 0 <= i < 4 ==> locations(dir)[i] != dir,
{
    reveal_strlit("MetaSave.es3");
    reveal_strlit("MetaSave.bak");
    reveal_strlit("SettingsData.es3");
    reveal_strlit("saves");
    let f = tracked_file_names();
    let d = tracked_dir_names()[0];
    assert(f[0] != f[1]) by {
        assert(f[0][9] != f[1][9]);
    }
    assert(f[0] != f[2]) by {
        assert(f[0].len() != f[2].len());
    }
    assert(f[1] != f[2]) by {
        assert(f[1].len() != f[2].len());
    }
    assert(f[0] != d && f[1] != d && f[2] != d) by {
        assert(f[0].len() != d.len() && f[1].len() != d.len() && f[2].len() != d.len());
    }
    lemma_join_distinct(dir, f[0], f[1]);
    lemma_join_distinct(dir, f[0], f[2]);
    lemma_join_distinct(dir, f[1], f[2]);
    lemma_join_distinct(dir, f[0], d);
    lemma_join_distinct(dir, f[1], d);
    lemma_join_distinct(dir, f[2], d);
    lemma_join_distinct(dir, d, f[0]);
}

/// The operations that take a rolling backup into `target`: the second step
/// of the plan that `create_backup` makes.
pub open spec fn backup_copy_ops(save_dir: Seq<char>, target: Seq<char>) -> Seq<OpView> {
    seq![OpView::RemoveExistingDir(target)] + snapshot_ops(save_dir, target)
}

/// Taking a backup into a fresh `target` copies the protected state there:
/// afterwards `target` holds at its protected locations what the save
/// directory holds at its own, which the backup leaves as they were.
pub proof fn lemma_backup_copies(
    save_dir: Seq<char>,
    target: Seq<char>,
    fs0: Map<Seq<char>, Item>,
    fs1: Map<Seq<char>, Item>,
)
    requires
        separate(save_dir, target),
        well_shaped(fs0, save_dir),
        fresh(fs0, target),
        apply_ops(fs0, backup_copy_ops(save_dir, target)) == Some(fs1),
    ensures
        forall|i: int| 0 <= i < 4 ==> holds(fs1, #[trigger] locations(target)[i]) == holds(fs0, locations(save_dir)[i]),
        same_protected(fs1, fs0, save_dir),
{
    lemma_locations_distinct(save_dir);
    lemma_locations_distinct(target);
    let ops = backup_copy_ops(save_dir, target);
    let s = locations(save_dir);
    let t = locations(target);
    let f = tracked_file_names();
    assert(ops.len() == 6);
    assert(ops[0] == OpView::RemoveExistingDir(target));
    assert(ops[1] == OpView::CreateDirAll(target));
    assert(ops[2] == copy_file_op(save_dir, target, f[0]));
    assert(ops[3] == copy_file_op(save_dir, target, f[1]));
    assert(ops[4] == copy_file_op(save_dir, target, f[2]));
    assert(ops[5] == copy_dir_op(save_dir, target, tracked_dir_names()[0]));
    assert(forall|i: int, j: int| 0 <= i < 4 && 0 <= j < 4 ==> s[i] != t[j]);
    assert(forall|i: int| 0 <= i < 4 ==> s[i] != target && t[i] != save_dir);
    lemma_unfold(fs0, ops, 0, fs1);
    let g1 = apply_op(fs0, ops[0])->0;
    lemma_unfold(g1, ops, 1, fs1);
    let g2 = apply_op(g1, ops[1])->0;
    lemma_unfold(g2, ops, 2, fs1);
    let g3 = apply_op(g2, ops[2])->0;
    lemma_unfold(g3, ops, 3, fs1);
    let g4 = apply_op(g3, ops[3])->0;
    lemma_unfold(g4, ops, 4, fs1);
    let g5 = apply_op(g4, ops[4])->0;
    lemma_unfold(g5, ops, 5, fs1);
    let g6 = apply_op(g5, ops[5])->0;
    lemma_done(g6, ops, fs1);
    assert forall|i: int| 0 <= i < 4 implies holds(g2, #[trigger] t[i]) is None && holds(g2, s[i])
        == holds(fs0, s[i]) by {
        assert(!fs0.contains_key(t[i]));
    }
    assert(holds(g6, t[0]) == holds(fs0, s[0]));
    assert(holds(g6, t[1]) == holds(fs0, s[1]));
    assert(holds(g6, t[2]) == holds(fs0, s[2]));
    assert(holds(g6, t[3]) == holds(fs0, s[3]));
    assert(forall|i: int| 0 <= i < 4 ==> holds(g6, s[i]) == holds(fs0, s[i]));
}

/// Restoring from `backup` puts back at each protected location of the save
/// directory what the backup holds at the same location (nothing when it
/// holds nothing), whatever the save directory held before, as long as its
/// protected files were not folders and its `saves` not a file; the backup
/// itself is left as it was.
pub proof fn lemma_restore_puts_back(
    save_dir: Seq<char>,
    backup: Seq<char>,
    fs2: Map<Seq<char>, Item>,
    fs3: Map<Seq<char>, Item>,
)
    requires
        separate(save_dir, backup),
        well_shaped(fs2, save_dir),
        well_shaped(fs2, backup),
        apply_ops(fs2, restore_ops(save_dir, backup)) == Some(fs3),
    ensures
        forall|i: int| 0 <= i < 4 ==> holds(fs3, #[trigger] locations(save_dir)[i]) == holds(fs2, locations(backup)[i]),
        same_protected(fs3, fs2, backup),
{
    lemma_locations_distinct(save_dir);
    lemma_locations_distinct(backup);
    let ops = restore_ops(save_dir, backup);
    let s = locations(save_dir);
    let t = locations(backup);
    let f = tracked_file_names();
    let d = tracked_dir_names()[0];
    assert(ops.len() == 9);
    assert(ops[0] == OpView::CreateDirAll(save_dir));
    assert(ops[1] == OpView::ClearDir(s[3]));
    assert(ops[2] == OpView::ClearFile(s[0]));
    assert(ops[3] == OpView::ClearFile(s[1]));
    assert(ops[4] == OpView::ClearFile(s[2]));
    assert(ops[5] == copy_dir_op(backup, save_dir, d));
    assert(ops[6] == copy_file_op(backup, save_dir, f[0]));
    assert(ops[7] == copy_file_op(backup, save_dir, f[1]));
    assert(ops[8] == copy_file_op(backup, save_dir, f[2]));
    assert(forall|i: int, j: int| 0 <= i < 4 && 0 <= j < 4 ==> s[i] != t[j]);
    assert(forall|i: int| 0 <= i < 4 ==> s[i] != backup && t[i] != save_dir);
    lemma_unfold(fs2, ops, 0, fs3);
    let g1 = apply_op(fs2, ops[0])->0;
    lemma_unfold(g1, ops, 1, fs3);
    let g2 = apply_op(g1, ops[1])->0;
    lemma_unfold(g2, ops, 2, fs3);
    let g3 = apply_op(g2, ops[2])->0;
    lemma_unfold(g3, ops, 3, fs3);
    let g4 = apply_op(g3, ops[3])->0;
    lemma_unfold(g4, ops, 4, fs3);
    let g5 = apply_op(g4, ops[4])->0;
    assert(!(holds(fs2, s[3]) matches Some(Item::File(_))));
    assert(forall|i: int| 0 <= i < 4 ==> holds(g1, #[trigger] s[i]) == holds(fs2, s[i]));
    assert(holds(g2, s[3]) is None);
    assert(holds(g2, s[0]) == holds(fs2, s[0]));
    assert(holds(g2, s[1]) == holds(fs2, s[1]));
    assert(holds(g2, s[2]) == holds(fs2, s[2]));
    assert(!(holds(fs2, s[0]) matches Some(Item::Dir(_))));
    assert(!(holds(fs2, s[1]) matches Some(Item::Dir(_))));
    assert(!(holds(fs2, s[2]) matches Some(Item::Dir(_))));
    assert(holds(g3, s[0]) is None);
    assert(holds(g4, s[1]) is None);
    assert(holds(g5, s[2]) is None);
    assert(holds(g5, s[0]) is None);
    assert(holds(g5, s[3]) is None);
    assert(forall|i: int| 0 <= i < 4 ==> holds(g5, #[trigger] s[i]) is None);
    assert(forall|i: int| 0 <= i < 4 ==> holds(g5, #[trigger] t[i]) == holds(fs2, t[i]));
    lemma_unfold(g5, ops, 5, fs3);
    let g6 = apply_op(g5, ops[5])->0;
    lemma_unfold(g6, ops, 6, fs3);
    let g7 = apply_op(g6, ops[6])->0;
    lemma_unfold(g7, ops, 7, fs3);
    let g8 = apply_op(g7, ops[7])->0;
    lemma_unfold(g8, ops, 8, fs3);
    let g9 = apply_op(g8, ops[8])->0;
    lemma_done(g9, ops, fs3);
    assert(holds(g9, s[0]) == holds(fs2, t[0]));
    assert(holds(g9, s[1]) == holds(fs2, t[1]));
    assert(holds(g9, s[2]) == holds(fs2, t[2]));
    assert(holds(g9, s[3]) == holds(fs2, t[3]));
    assert(forall|i: int| 0 <= i < 4 ==> holds(g9, t[i]) == holds(fs2, t[i]));
}

/// Restoring a backup undoes every change made to the protected state since
/// the backup was taken: take a backup of the save directory into a fresh
/// `target`; change the file system in any way that leaves `target`'s
/// protected locations alone (and keeps the protected files files and
/// `saves` a folder); a restore from `target` that succeeds brings back at
/// every protected location of the save directory what it held when the
/// backup was taken.
pub proof fn lemma_restore_undoes_changes(
    save_dir: Seq<char>,
    target: Seq<char>,
    fs0: Map<Seq<char>, Item>,
    fs1: Map<Seq<char>, Item>,
    fs2: Map<Seq<char>, Item>,
    fs3: Map<Seq<char>, Item>,
)
    requires
        separate(save_dir, target),
        well_shaped(fs0, save_dir),
        fresh(fs0, target),
        apply_ops(fs0, backup_copy_ops(save_dir, target)) == Some(fs1),
        same_protected(fs2, fs1, target),
        well_shaped(fs2, save_dir),
        apply_ops(fs2, restore_ops(save_dir, target)) == Some(fs3),
    ensures
        same_protected(fs3, fs0, save_dir),
{
    lemma_backup_copies(save_dir, target, fs0, fs1);
    let s = locations(save_dir);
    let t = locations(target);
    assert(forall|i: int| 0 <= i < 4 ==> holds(fs2, #[trigger] t[i]) == holds(fs0, s[i]));
    assert(holds(fs2, t[0]) == holds(fs0, s[0]));
    assert(holds(fs2, t[1]) == holds(fs0, s[1]));
    assert(holds(fs2, t[2]) == holds(fs0, s[2]));
    assert(holds(fs2, t[3]) == holds(fs0, s[3]));
    assert(!(holds(fs0, s[0]) matches Some(Item::Dir(_))));
    assert(!(holds(fs0, s[1]) matches Some(Item::Dir(_))));
    assert(!(holds(fs0, s[2]) matches Some(Item::Dir(_))));
    assert(well_shaped(fs2, target));
    lemma_restore_puts_back(save_dir, target, fs2, fs3);
}

/// Restoring twice from the same backup leaves the protected state as one
/// restore does: the second restore changes nothing at the protected
/// locations of the save directory or of the backup.
pub proof fn lemma_restore_idempotent(
    save_dir: Seq<char>,
    backup: Seq<char>,
    fs2: Map<Seq<char>, Item>,
    fs3: Map<Seq<char>, Item>,
    fs4: Map<Seq<char>, Item>,
)
    requires
        separate(save_dir, backup),
        well_shaped(fs2, save_dir),
        well_shaped(fs2, backup),
        apply_ops(fs2, restore_ops(save_dir, backup)) == Some(fs3),
        apply_ops(fs3, restore_ops(save_dir, backup)) == Some(fs4),
    ensures
        same_protected(fs4, fs3, save_dir),
        same_protected(fs4, fs3, backup),
{
    lemma_restore_puts_back(save_dir, backup, fs2, fs3);
    let s = locations(save_dir);
    let t = locations(backup);
    assert(holds(fs3, s[0]) == holds(fs2, t[0]));
    assert(holds(fs3, s[1]) == holds(fs2, t[1]));
    assert(holds(fs3, s[2]) == holds(fs2, t[2]));
    assert(holds(fs3, s[3]) == holds(fs2, t[3]));
    assert(holds(fs3, t[0]) == holds(fs2, t[0]));
    assert(holds(fs3, t[1]) == holds(fs2, t[1]));
    assert(holds(fs3, t[2]) == holds(fs2, t[2]));
    assert(holds(fs3, t[3]) == holds(fs2, t[3]));
    assert(!(holds(fs2, t[0]) matches Some(Item::Dir(_))));
    assert(!(holds(fs2, t[1]) matches Some(Item::Dir(_))));
    assert(!(holds(fs2, t[2]) matches Some(Item::Dir(_))));
    assert(!(holds(fs2, t[3]) matches Some(Item::File(_))));
    assert(well_shaped(fs3, save_dir));
    assert(well_shaped(fs3, backup));
    lemma_restore_puts_back(save_dir, backup, fs3, fs4);
}

} // verus!
