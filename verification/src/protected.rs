//! The save state that is protected: three files and the `saves` folder in
//! the game's save directory.

use vstd::prelude::*;
use crate::paths::{file_name, file_name_of, join, join_spec, path_starts_with, starts_with_of};
use crate::text::same_text;

verus! {

/// Default debounce window, in milliseconds.
pub const DEBOUNCE_MS: u64 = 3000;

/// Names of the protected files.
pub open spec fn tracked_file_names() -> Seq<Seq<char>> {
    seq!["MetaSave.es3"@, "MetaSave.bak"@, "SettingsData.es3"@]
}

/// Names of the protected folders.
pub open spec fn tracked_dir_names() -> Seq<Seq<char>> {
    seq!["saves"@]
}

/// The protected file names, in the order in which they are copied.
pub fn tracked_files() -> (r: Vec<&'static str>)
    ensures
        r@.len() == 3,
        forall|i: int| 0 <= i < 3 ==> #[trigger] r@[i]@ == tracked_file_names()[i],
{
    vec!["MetaSave.es3", "MetaSave.bak", "SettingsData.es3"]
}

/// The protected folder names.
pub fn tracked_dirs() -> (r: Vec<&'static str>)
    ensures
        r@.len() == 1,
        r@[0]@ == tracked_dir_names()[0],
{
    vec!["saves"]
}

/// The view of an optional text slice.
pub open spec fn opt_str(o: Option<&str>) -> Option<Seq<char>> {
    match o {
        Some(s) => Some(s@),
        None => None,
    }
}

/// Whether a final path component names protected state: a protected
/// folder name for a folder, a protected file name for anything else.
pub open spec fn tracked_name(name: Option<Seq<char>>, is_dir: bool) -> bool {
    match name {
        Some(n) => if is_dir {
            tracked_dir_names().contains(n)
        } else {
            tracked_file_names().contains(n)
        },
        None => false,
    }
}

/// Decides `tracked_name` for a final component `name` of a path that is a
/// folder exactly when `is_dir`.
pub fn is_tracked_name(name: Option<&str>, is_dir: bool) -> (r: bool)
    ensures
        r == tracked_name(opt_str(name), is_dir),
{
    match name {
        None => false,
        Some(n) => {
            let names = if is_dir { tracked_dirs() } else { tracked_files() };
            let ghost spec_names = if is_dir { tracked_dir_names() } else { tracked_file_names() };
            let mut i: usize = 0;
            while i < names.len()
                invariant
                    names@.len() == spec_names.len(),
                    spec_names == (if is_dir { tracked_dir_names() } else { tracked_file_names() }),
                    opt_str(name) == Some(n@),
                    forall|k: int| 0 <= k < names@.len() ==> #[trigger] names@[k]@ == spec_names[k],
                    i <= names.len(),
                    forall|k: int| 0 <= k < i ==> spec_names[k] != n@,
                decreases names.len() - i,
            {
                if same_text(n, names[i]) {
                    assert(spec_names[i as int] == n@);
                    return true;
                }
                i = i + 1;
            }
            proof {
                if spec_names.contains(n@) {
                    let k = choose|k: int| 0 <= k < spec_names.len() && spec_names[k] == n@;
                    assert(spec_names[k] != n@);
                }
            }
            false
        },
    }
}

/// Whether the path `path` (a folder exactly when `path_is_dir`) is
/// protected state, judged by its final component (`Path::file_name`).
pub fn is_tracked(path: &str, path_is_dir: bool) -> (r: bool)
    ensures
        r == tracked_name(file_name_of(path@), path_is_dir),
{
    let name = file_name(path);
    match name {
        Some(n) => is_tracked_name(Some(n.as_str()), path_is_dir),
        None => false,
    }
}

/// A path named by a filesystem event, with whether it is a folder.
pub struct ObservedPath {
    pub path: String,
    pub is_dir: bool,
}

/// `p` is protected state in `save_dir`: it lies in `save_dir` (by
/// components) and is a protected file or folder there by its final
/// component, or it lies in the `saves` folder of `save_dir` (the folder
/// itself or anything inside it, such as the game's save files).
pub open spec fn tracked_under(p: ObservedPath, save_dir: Seq<char>) -> bool {
    starts_with_of(p.path@, save_dir) && (tracked_name(file_name_of(p.path@), p.is_dir)
        || starts_with_of(p.path@, join_spec(save_dir, tracked_dir_names()[0])))
}

/// Whether any of `paths` is protected state in `save_dir`.
pub fn is_tracked_any(paths: &Vec<ObservedPath>, save_dir: &str) -> (r: bool)
    ensures
        r == exists|i: int| 0 <= i < paths@.len() && #[trigger] tracked_under(paths@[i], save_dir@),
{
    let dirs = tracked_dirs();
    let saves = join(save_dir, dirs[0]);
    let mut i: usize = 0;
    while i < paths.len()
        invariant
            saves@ == join_spec(save_dir@, tracked_dir_names()[0]),
            i <= paths.len(),
            forall|k: int| 0 <= k < i ==> !#[trigger] tracked_under(paths@[k], save_dir@),
        decreases paths.len() - i,
    {
        let p = &paths[i];
        if path_starts_with(p.path.as_str(), save_dir) && (is_tracked(p.path.as_str(), p.is_dir)
            || path_starts_with(p.path.as_str(), saves.as_str())) {
            assert(tracked_under(paths@[i as int], save_dir@));
            return true;
        }
        i = i + 1;
    }
    false
}

} // verus!
