use repo_saver::config::{
    build_config, initial_fields, parse_settings, Config, ConfigError, SettingsError,
    DEFAULT_BACKUP_DIR, DEFAULT_SAVE_DIR,
};
use repo_saver::daemon::{request_stop, reset, should_shutdown, ShutdownFlag};

fn s(x: &str) -> Option<String> {
    Some(x.to_string())
}

#[test]
fn defaults_are_under_home() {
    let c = Config::resolve(None, None, 3000, None, None, s("/home/u")).unwrap();
    assert_eq!(c.save_dir, format!("/home/u/{DEFAULT_SAVE_DIR}"));
    assert_eq!(c.backup_dir, "/home/u/.local/share/repo-saver/backups");
    assert_eq!(c.debounce_ms, 3000);
    assert!(c.save_dir.ends_with("steamapps/compatdata/3241660/pfx/drive_c/users/steamuser/AppData/LocalLow/semiwork/Repo"));
}

#[test]
fn override_then_environment_then_default() {
    let c = Config::resolve(s("/s"), None, 1, s("/env-s"), s("/env-b"), s("/h")).unwrap();
    assert_eq!(c.save_dir, "/s");
    assert_eq!(c.backup_dir, "/env-b");
    let c = Config::resolve(None, s("/b"), 1, s("/env-s"), None, s("/h")).unwrap();
    assert_eq!(c.save_dir, "/env-s");
    assert_eq!(c.backup_dir, "/b");
}

#[test]
fn same_directories_are_refused() {
    assert_eq!(
        Config::resolve(s("/x/y"), s("/x/y"), 1, None, None, s("/h")).unwrap_err(),
        ConfigError::SameDirs
    );
    assert_eq!(
        Config::resolve(s("/x/y/"), s("/x//y"), 1, None, None, s("/h")).unwrap_err(),
        ConfigError::SameDirs
    );
    assert!(Config::resolve(s("/x/y"), s("/x/z"), 1, None, None, s("/h")).is_ok());
}

#[test]
fn missing_home_is_an_error() {
    assert_eq!(
        Config::resolve(s("/a"), s("/b"), 1, None, None, None).unwrap_err(),
        ConfigError::NoHomeDir
    );
}

#[test]
fn new_uses_the_home_directory() {
    match Config::new(s("/a"), s("/b"), 9, None, None) {
        Ok(c) => {
            assert_eq!(c.save_dir, "/a");
            assert_eq!(c.backup_dir, "/b");
            assert_eq!(c.debounce_ms, 9);
        }
        Err(e) => assert_eq!(e, ConfigError::NoHomeDir),
    }
    if let Ok(c) = Config::new(None, None, 9, None, None) {
        assert!(c.save_dir.ends_with(DEFAULT_SAVE_DIR));
        assert!(c.save_dir.len() > DEFAULT_SAVE_DIR.len());
    }
}

#[test]
fn settings_fields_are_trimmed() {
    let (save, backup, ms) = parse_settings("  /s \t", "   ", " 3000 ").unwrap();
    assert_eq!(save, s("/s"));
    assert_eq!(backup, None);
    assert_eq!(ms, 3000);
    assert_eq!(parse_settings("/s", "/b", "3 s").unwrap_err(), SettingsError::BadDebounce);
    assert_eq!(parse_settings("/s", "/b", "").unwrap_err(), SettingsError::BadDebounce);
}

#[test]
fn build_config_reports_each_error() {
    assert_eq!(
        build_config("/s", "/b", "fast", None, None).unwrap_err(),
        SettingsError::BadDebounce
    );
    match build_config("/same", " /same ", "10", None, None) {
        Err(e) => assert!(
            e == SettingsError::Config(ConfigError::SameDirs)
                || e == SettingsError::Config(ConfigError::NoHomeDir)
        ),
        Ok(_) => panic!("same directories accepted"),
    }
}

#[test]
fn initial_fields_fall_back_to_defaults() {
    let (a, b, c) = initial_fields(&Err(ConfigError::NoHomeDir));
    assert_eq!(a, DEFAULT_SAVE_DIR);
    assert_eq!(b, DEFAULT_BACKUP_DIR);
    assert_eq!(c, "3000");
    let cfg = Config::resolve(s("/s"), s("/b"), 250, None, None, s("/h"));
    let (a, b, c) = initial_fields(&cfg);
    assert_eq!((a.as_str(), b.as_str(), c.as_str()), ("/s", "/b", "250"));
}

#[test]
fn shutdown_flag_round_trip() {
    let mut f = ShutdownFlag::new();
    assert!(!should_shutdown(&f));
    request_stop(&mut f);
    assert!(should_shutdown(&f));
    request_stop(&mut f);
    assert!(should_shutdown(&f));
    reset(&mut f);
    assert!(!should_shutdown(&f));
}
