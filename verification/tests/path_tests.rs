use repo_saver::paths::join;
use repo_saver::protected::{is_tracked, is_tracked_any, is_tracked_name, ObservedPath};

#[test]
fn join_follows_pathbuf_push() {
    assert_eq!(join("/a", "b"), "/a/b");
    assert_eq!(join("/a/", "b"), "/a/b");
    assert_eq!(join("", "b"), "b");
    assert_eq!(join("/a", "/c"), "/c");
    assert_eq!(join("/a", ""), "/a/");
    for (base, name) in [("/home/u", ".local/share"), ("rel", "x/y"), ("/", "z")] {
        let expected = std::path::Path::new(base).join(name);
        assert_eq!(join(base, name), expected.to_str().unwrap());
    }
}

#[test]
fn tracked_names() {
    assert!(is_tracked_name(Some("MetaSave.es3"), false));
    assert!(is_tracked_name(Some("MetaSave.bak"), false));
    assert!(is_tracked_name(Some("SettingsData.es3"), false));
    assert!(is_tracked_name(Some("saves"), true));
    assert!(!is_tracked_name(Some("saves"), false));
    assert!(!is_tracked_name(Some("MetaSave.es3"), true));
    assert!(!is_tracked_name(Some("Player.log"), false));
    assert!(!is_tracked_name(None, false));
}

#[test]
fn tracked_paths_judged_by_final_component() {
    assert!(is_tracked("/game/Repo/MetaSave.es3", false));
    assert!(is_tracked("/game/Repo/saves", true));
    assert!(is_tracked("/game/Repo/saves/", true));
    assert!(!is_tracked("/game/Repo/saves", false));
    assert!(!is_tracked("/game/Repo/other.txt", false));
    assert!(!is_tracked("/game/Repo/..", true));
    assert!(!is_tracked("/", true));
}

#[test]
fn tracked_any_requires_the_save_dir_by_component() {
    let p = |s: &str, d: bool| ObservedPath { path: s.to_string(), is_dir: d };
    assert!(is_tracked_any(&vec![p("/x/Repo/MetaSave.es3", false)], "/x/Repo"));
    assert!(is_tracked_any(&vec![p("/x/a.txt", false), p("/x/Repo/saves", true)], "/x/Repo"));
    assert!(!is_tracked_any(&vec![p("/x/RepoOld/MetaSave.es3", false)], "/x/Repo"));
    assert!(!is_tracked_any(&vec![p("/y/MetaSave.es3", false)], "/x/Repo"));
    assert!(!is_tracked_any(&vec![], "/x/Repo"));
    assert!(is_tracked_any(&vec![p("/s/saves/REPO_SAVE_1/REPO_SAVE_1.es3", false)], "/s"));
    assert!(is_tracked_any(&vec![p("/s/saves/REPO_SAVE_1", true)], "/s"));
    assert!(!is_tracked_any(&vec![p("/s/savesX/a.es3", false)], "/s"));
    assert!(!is_tracked_any(&vec![p("/t/saves/a.es3", false)], "/s"));
}
