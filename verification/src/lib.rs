//! Verified core of a save-protection daemon for the game REPO: the rules
//! that decide which files are protected, how rolling backups are named,
//! ordered, pruned and restored, how the monitor reacts to filesystem events,
//! and the bounded activity log.  The program around it (file system work,
//! the watcher thread, the window) drives these functions.

pub mod text;
pub mod clock;
pub mod paths;
pub mod protected;
pub mod daemon;
pub mod config;
pub mod activity_log;
pub mod backup;
pub mod selection;
pub mod watcher;
pub mod control;
pub mod effects;
