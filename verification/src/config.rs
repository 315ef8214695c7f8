//! Where the saves and the backups live, and how long the monitor waits
//! before treating a deletion as a death.

use vstd::prelude::*;
use crate::paths::{join, join_spec, opt_text, same_path, same_path_of};
use crate::protected::DEBOUNCE_MS;
use crate::text::{decimal, decimal_text, parse_u64, parse_u64_spec, trim, trim_spec};

verus! {

/// The save directory, relative to the home directory, when neither an
/// override nor `REPO_SAVE_DIR` gives one.
pub const DEFAULT_SAVE_DIR: &'static str =
    ".local/share/Steam/steamapps/compatdata/3241660/pfx/drive_c/users/steamuser/AppData/LocalLow/semiwork/Repo";

/// The backup directory, relative to the home directory, when neither an
/// override nor `REPO_BACKUP_DIR` gives one.
pub const DEFAULT_BACKUP_DIR: &'static str = ".local/share/repo-saver/backups";

/// The monitor's settings.
#[derive(Clone, Debug)]
pub struct Config {
    pub save_dir: String,
    pub backup_dir: String,
    pub debounce_ms: u64,
}

/// Why no configuration could be made.
#[derive(Clone, Copy, Debug, PartialEq, Eq, Structural)]
pub enum ConfigError {
    /// The home directory could not be determined.
    NoHomeDir,
    /// The backup directory is the save directory.
    SameDirs,
}

/// The directories a configuration settles on: the override if there is
/// one, else the environment's value if there is one, else `fallback`.
pub open spec fn pick_dir(
    given: Option<Seq<char>>,
    env: Option<Seq<char>>,
    fallback: Seq<char>,
) -> Seq<char> {
    match given {
        Some(d) => d,
        None => match env {
            Some(d) => d,
            None => fallback,
        },
    }
}

/// The save and backup directories that `Config::new` settles on, given the
/// overrides, the environment's `REPO_SAVE_DIR` and `REPO_BACKUP_DIR`, and
/// the home directory; or why it fails.
pub open spec fn resolve_spec(
    save_given: Option<Seq<char>>,
    backup_given: Option<Seq<char>>,
    save_env: Option<Seq<char>>,
    backup_env: Option<Seq<char>>,
    home: Option<Seq<char>>,
) -> Result<(Seq<char>, Seq<char>), ConfigError> {
    match home {
        None => Err(ConfigError::NoHomeDir),
        Some(h) => {
            let save = pick_dir(save_given, save_env, join_spec(h, DEFAULT_SAVE_DIR@));
            let backup = pick_dir(backup_given, backup_env, join_spec(h, DEFAULT_BACKUP_DIR@));
            if same_path_of(backup, save) {
                Err(ConfigError::SameDirs)
            } else {
                Ok((save, backup))
            }
        },
    }
}

/// `r` is what `resolve_spec` describes, with `debounce_ms` kept.
pub open spec fn config_matches(
    r: Result<Config, ConfigError>,
    spec: Result<(Seq<char>, Seq<char>), ConfigError>,
    debounce_ms: u64,
) -> bool {
    match (r, spec) {
        (Ok(c), Ok((s, b))) => c.save_dir@ == s && c.backup_dir@ == b && c.debounce_ms
            == debounce_ms,
        (Err(e1), Err(e2)) => e1 == e2,
        _ => false,
    }
}

/// The user's home directory (`dirs::home_dir`).  What it is depends on the
/// environment; on Unix the crate returns either nothing or a non-empty path
/// (`$HOME` when set and not empty, else the password database's entry when
/// that is not empty), which stays non-empty when made into text.
#[verifier::external_body]
fn home_dir() -> (r: Option<String>)
    ensures
        r matches Some(h) ==> h@.len() > 0,
{
    match dirs::home_dir() {
        Some(p) => Some(p.to_string_lossy().into_owned()),
        None => None,
    }
}

fn pick(given: Option<String>, env: Option<String>, home: &str, default: &str) -> (r: String)
    ensures
        r@ == pick_dir(opt_text(given), opt_text(env), join_spec(home@, default@)),
{
    match given {
        Some(d) => d,
        None => match env {
            Some(d) => d,
            None => join(home, default),
        },
    }
}

impl Config {
    /// The configuration for the given overrides, environment values and
    /// home directory.
    pub fn resolve(
        save_dir_override: Option<String>,
        backup_dir_override: Option<String>,
        debounce_ms: u64,
        env_save_dir: Option<String>,
        env_backup_dir: Option<String>,
        home: Option<String>,
    ) -> (r: Result<Config, ConfigError>)
        ensures
            config_matches(
                r,
                resolve_spec(
                    opt_text(save_dir_override),
                    opt_text(backup_dir_override),
                    opt_text(env_save_dir),
                    opt_text(env_backup_dir),
                    opt_text(home),
                ),
                debounce_ms,
            ),
    {
        let home = match home {
            Some(h) => h,
            None => return Err(ConfigError::NoHomeDir),
        };
        let save_dir = pick(save_dir_override, env_save_dir, home.as_str(), DEFAULT_SAVE_DIR);
        let backup_dir = pick(
            backup_dir_override,
            env_backup_dir,
            home.as_str(),
            DEFAULT_BACKUP_DIR,
        );
        if same_path(backup_dir.as_str(), save_dir.as_str()) {
            return Err(ConfigError::SameDirs);
        }
        Ok(Config { save_dir, backup_dir, debounce_ms })
    }

    /// The configuration for the given overrides and the environment's
    /// `REPO_SAVE_DIR` and `REPO_BACKUP_DIR`, with the home directory that
    /// `dirs::home_dir` reports.  Whatever that is, the result is what
    /// `resolve` gives for it.
    pub fn new(
        save_dir_override: Option<String>,
        backup_dir_override: Option<String>,
        debounce_ms: u64,
        env_save_dir: Option<String>,
        env_backup_dir: Option<String>,
    ) -> (r: Result<Config, ConfigError>)
        ensures
            exists|home: Option<Seq<char>>|
                (home matches Some(h) ==> h.len() > 0) && config_matches(
                    r,
                    #[trigger] resolve_spec(
                        opt_text(save_dir_override),
                        opt_text(backup_dir_override),
                        opt_text(env_save_dir),
                        opt_text(env_backup_dir),
                        home,
                    ),
                    debounce_ms,
                ),
    {
        let home = home_dir();
        let r = Config::resolve(
            save_dir_override,
            backup_dir_override,
            debounce_ms,
            env_save_dir,
            env_backup_dir,
            home,
        );
        r
    }
}

/// Why the settings typed into the window do not make a configuration.
#[derive(Clone, Copy, Debug, PartialEq, Eq, Structural)]
pub enum SettingsError {
    /// The debounce field is not a number of milliseconds.
    BadDebounce,
    /// The directories do not make a configuration.
    Config(ConfigError),
}

/// A directory field: its trimmed text, or nothing when that is empty.
pub open spec fn dir_field(text: Seq<char>) -> Option<Seq<char>> {
    let t = trim_spec(text);
    if t.len() == 0 {
        None
    } else {
        Some(t)
    }
}

/// The overrides and debounce that the window's three text fields give.
pub open spec fn settings_spec(save: Seq<char>, backup: Seq<char>, debounce: Seq<char>) -> Result<
    (Option<Seq<char>>, Option<Seq<char>>, u64),
    SettingsError,
> {
    match parse_u64_spec(trim_spec(debounce)) {
        None => Err(SettingsError::BadDebounce),
        Some(ms) => Ok((dir_field(save), dir_field(backup), ms)),
    }
}

fn dir_override(text: &str) -> (r: Option<String>)
    ensures
        opt_text(r) == dir_field(text@),
{
    let t = trim(text);
    if t.as_str().unicode_len() == 0 {
        None
    } else {
        Some(t)
    }
}

/// Reads the window's save directory, backup directory and debounce fields:
/// surrounding white space is ignored, an empty directory field means "the
/// default", and the debounce must parse as a `u64`.
pub fn parse_settings(save_text: &str, backup_text: &str, debounce_text: &str) -> (r: Result<
    (Option<String>, Option<String>, u64),
    SettingsError,
>)
    ensures
        match (r, settings_spec(save_text@, backup_text@, debounce_text@)) {
            (Ok((s, b, ms)), Ok((s2, b2, ms2))) => opt_text(s) == s2 && opt_text(b) == b2 && ms
                == ms2,
            (Err(e), Err(e2)) => e == e2,
            _ => false,
        },
{
    let save = dir_override(save_text);
    let backup = dir_override(backup_text);
    let d = trim(debounce_text);
    match parse_u64(d.as_str()) {
        None => Err(SettingsError::BadDebounce),
        Some(ms) => Ok((save, backup, ms)),
    }
}

/// `r` is the configuration `spec` describes, with `debounce_ms`, or the
/// configuration error it names.
pub open spec fn settings_config_matches(
    r: Result<Config, SettingsError>,
    spec: Result<(Seq<char>, Seq<char>), ConfigError>,
    debounce_ms: u64,
) -> bool {
    match (r, spec) {
        (Ok(c), Ok((s, b))) => c.save_dir@ == s && c.backup_dir@ == b && c.debounce_ms
            == debounce_ms,
        (Err(SettingsError::Config(e1)), Err(e2)) => e1 == e2,
        _ => false,
    }
}

/// The configuration the window's fields describe, with the environment's
/// `REPO_SAVE_DIR` and `REPO_BACKUP_DIR`: the fields as `parse_settings`
/// reads them, then `Config::new`.
pub fn build_config(
    save_text: &str,
    backup_text: &str,
    debounce_text: &str,
    env_save_dir: Option<String>,
    env_backup_dir: Option<String>,
) -> (r: Result<Config, SettingsError>)
    ensures
        match settings_spec(save_text@, backup_text@, debounce_text@) {
            Err(e) => r == Err::<Config, SettingsError>(e),
            Ok((s, b, ms)) => exists|home: Option<Seq<char>>|
                (home matches Some(h) ==> h.len() > 0) && settings_config_matches(
                    r,
                    #[trigger] resolve_spec(s, b, opt_text(env_save_dir), opt_text(env_backup_dir), home),
                    ms,
                ),
        },
{
    match parse_settings(save_text, backup_text, debounce_text) {
        Err(e) => Err(e),
        Ok((save, backup, ms)) => match Config::new(save, backup, ms, env_save_dir, env_backup_dir) {
            Ok(c) => Ok(c),
            Err(e) => Err(SettingsError::Config(e)),
        },
    }
}

/// The texts the window starts with: the configuration's directories and
/// debounce when there is one, else the default paths relative to the home
/// directory and the default debounce.
pub fn initial_fields(cfg: &Result<Config, ConfigError>) -> (r: (String, String, String))
    ensures
        match cfg {
            Ok(c) => r.0@ == c.save_dir@ && r.1@ == c.backup_dir@ && r.2@ == decimal(
                c.debounce_ms as nat,
            ),
            Err(_) => r.0@ == DEFAULT_SAVE_DIR@ && r.1@ == DEFAULT_BACKUP_DIR@ && r.2@ == decimal(
                DEBOUNCE_MS as nat,
            ),
        },
{
    match cfg {
        Ok(c) => (c.save_dir.clone(), c.backup_dir.clone(), decimal_text(c.debounce_ms as u128)),
        Err(_) => (
            String::from_str(DEFAULT_SAVE_DIR),
            String::from_str(DEFAULT_BACKUP_DIR),
            decimal_text(DEBOUNCE_MS as u128),
        ),
    }
}


/// A configuration never has the backups in the save directory itself, and
/// an override always wins over the environment and the default.
pub proof fn lemma_resolved_dirs(
    save_given: Option<Seq<char>>,
    backup_given: Option<Seq<char>>,
    save_env: Option<Seq<char>>,
    backup_env: Option<Seq<char>>,
    home: Option<Seq<char>>,
)
    ensures
        resolve_spec(save_given, backup_given, save_env, backup_env, home) matches Ok((s, b))
            ==> !same_path_of(b, s),
        resolve_spec(save_given, backup_given, save_env, backup_env, home) matches Ok((s, b))
            ==> (save_given matches Some(g) ==> s == g) && (backup_given matches Some(g) ==> b
            == g),
        home is None ==> resolve_spec(save_given, backup_given, save_env, backup_env, home)
            == Err::<(Seq<char>, Seq<char>), ConfigError>(ConfigError::NoHomeDir),
{
}

/// With no override and no environment value, the save and backup
/// directories are the default paths under the home directory; with both
/// directories given, the home directory plays no part beyond having to be
/// known.
pub proof fn lemma_defaults_under_home(h: Seq<char>, save: Seq<char>, backup: Seq<char>, e1: Option<Seq<char>>, e2: Option<Seq<char>>)
    ensures
        resolve_spec(None, None, None, None, Some(h)) matches Ok((s, b)) ==> s == join_spec(
            h,
            DEFAULT_SAVE_DIR@,
        ) && b == join_spec(h, DEFAULT_BACKUP_DIR@),
        !same_path_of(backup, save) ==> resolve_spec(Some(save), Some(backup), e1, e2, Some(h))
            == Ok::<(Seq<char>, Seq<char>), ConfigError>((save, backup)),
{
}

} // verus!
