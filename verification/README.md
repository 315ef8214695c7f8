# repo_saver

Protects the save files of the game REPO: a monitor watches the save
directory, keeps a rolling backup fresh whenever the game writes its saves,
and restores the backup when the game wipes them; a window starts and stops
the monitor, takes and restores backups and shows an activity log.

Layout:

- `src/` — the verified library (Verus). Its modules:
  - `text`: text order, prefixes, decimal formatting, `trim`, `parse::<u64>`;
  - `clock`: backup timestamps, and the proof that they sort like time;
  - `paths`: joining paths; component-wise questions asked of `std::path`;
  - `protected`: which files and folders are the protected save state;
  - `config`: where saves and backups live, and the window's settings;
  - `daemon`: the monitor's stop request;
  - `control`: whether the monitor runs, as the window tracks it;
  - `backup`: the plans (steps of file operations) of a backup and of a
    restore, the refresh throttle, copy retries;
  - `effects`: a model of what the plans do to the protected state, and
    the proofs that a restore undoes later changes and is idempotent;
  - `selection`: ordering of backups, the latest one, which ones are pruned;
  - `watcher`: the monitor's decisions on each filesystem event;
  - `activity_log`: the bounded log shown in the window.
- `app/` — the program around it: file system work, the watcher thread
  (`notify`), logging (`log`), and the window (`eframe`).
- `tests/` — tests of the library.
