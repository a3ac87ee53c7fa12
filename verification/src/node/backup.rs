//! Names of backups, and when a restore is refused.

use crate::model::time;
use crate::model::time::now_secs;
use crate::node::calendar;
use crate::node::calendar::{epoch_to_ymd_hms, stamp, Moment};
use crate::text;
use vstd::prelude::*;

verus! {

/// The file of a database in its data directory.
pub const DB_FILE_NAME: &'static str = "shade.db";

/// Whether a text names the moment `secs` seconds after the Unix epoch.
pub open spec fn stamps(s: Seq<char>, secs: u64) -> bool {
    exists|t: Moment| #[trigger]
        calendar::is_moment(t, secs as int) && s == calendar::stamp_text(t)
}

/// The moment that the clock shows, as text for a file name.
pub fn utc_stamp() -> (s: String)
    ensures
        exists|secs: u64| time::is_second(secs) && #[trigger] stamps(s@, secs),
{
    let secs = now_secs();
    let s = stamp_at(secs);
    assert(stamps(s@, secs));
    s
}

/// A moment in Unix seconds, as text for a file name.
pub fn stamp_at(secs: u64) -> (s: String)
    ensures
        stamps(s@, secs),
{
    let t = epoch_to_ymd_hms(secs);
    assert(calendar::is_moment(t, secs as int));
    stamp(&t)
}

/// The name of a backup in a directory.
pub fn backup_file_name(stamp: &str) -> (s: String)
    ensures
        s@ == "shade-"@ + stamp@ + ".db"@,
{
    let a = text::concat("shade-", stamp);
    text::concat(a.as_str(), ".db")
}

/// The name of the side file of a backup that goes to standard output.
pub fn stdout_file_name(stamp: &str) -> (s: String)
    ensures
        s@ == "shade-backup-stdout-"@ + stamp@ + ".db.tmp"@,
{
    let a = text::concat("shade-backup-stdout-", stamp);
    text::concat(a.as_str(), ".db.tmp")
}

/// Where a backup goes.
#[derive(Debug, Clone, PartialEq, Eq)]
pub enum Destination {
    /// Standard output.
    Stdout,
    /// A file of this name in the directory given.
    InDirectory(String),
    /// The path given.
    Path,
}

/// Where a backup goes: `is_dir` tells whether the path given, if any, is a
/// directory.
pub fn resolve_out(is_dir: Option<bool>, stamp: &str) -> (d: Destination)
    ensures
        match is_dir {
            None => d is Stdout,
            Some(true) => d matches Destination::InDirectory(n) && n@ == "shade-"@ + stamp@
                + ".db"@,
            Some(false) => d is Path,
        },
{
    match is_dir {
        None => Destination::Stdout,
        Some(true) => Destination::InDirectory(backup_file_name(stamp)),
        Some(false) => Destination::Path,
    }
}

/// Whether an integrity check found nothing.
pub fn integrity_ok(report: &str) -> (b: bool)
    ensures
        b == (text::trimmed(report@) == "ok"@),
{
    text::str_eq(text::trim(report), "ok")
}

/// Why a restore is refused.
#[derive(Debug, Clone, Copy, PartialEq, Eq, Structural)]
pub enum RestoreRefusal {
    /// There is no backup file.
    MissingBackup,
    /// The database exists, and overwriting was not asked for.
    Exists,
    /// The database is in use.
    Locked,
}

/// What to do next about a restore.
#[derive(Debug, Clone, Copy, PartialEq, Eq, Structural)]
pub enum RestoreStep {
    /// See whether the database is in use.
    ProbeLock,
    /// Copy the backup.
    Copy,
}

/// Whether a backup can be restored at all.
pub fn check_source(backup_exists: bool) -> (r: Result<(), RestoreRefusal>)
    ensures
        r is Ok <==> backup_exists,
        r matches Err(e) ==> e == RestoreRefusal::MissingBackup,
{
    if backup_exists {
        Ok(())
    } else {
        Err(RestoreRefusal::MissingBackup)
    }
}

/// Whether a restore may go on, and how: a database that exists is overwritten
/// only on demand, and not while it is in use.
pub fn check_target(target_exists: bool, force: bool) -> (r: Result<RestoreStep, RestoreRefusal>)
    ensures
        r == if !target_exists {
            Ok::<RestoreStep, RestoreRefusal>(RestoreStep::Copy)
        } else if force {
            Ok(RestoreStep::ProbeLock)
        } else {
            Err(RestoreRefusal::Exists)
        },
{
    if !target_exists {
        Ok(RestoreStep::Copy)
    } else if force {
        Ok(RestoreStep::ProbeLock)
    } else {
        Err(RestoreRefusal::Exists)
    }
}

/// Whether a restore over a database may go on, once it was probed.
pub fn check_lock(free: bool) -> (r: Result<RestoreStep, RestoreRefusal>)
    ensures
        r == if free {
            Ok::<RestoreStep, RestoreRefusal>(RestoreStep::Copy)
        } else {
            Err(RestoreRefusal::Locked)
        },
{
    if free {
        Ok(RestoreStep::Copy)
    } else {
        Err(RestoreRefusal::Locked)
    }
}

impl RestoreRefusal {
    /// The message of the refusal, about the file at `path`.
    pub fn message(&self, path: &str) -> (s: String)
        ensures
            s@ == match *self {
                RestoreRefusal::MissingBackup => "backup file not found: "@ + path@,
                RestoreRefusal::Exists => path@
                    + " already exists; pass --force to overwrite it"@,
                RestoreRefusal::Locked => path@
                    + " is held by another process (is the daemon running?); stop it before restoring"@,
            },
    {
        match self {
            RestoreRefusal::MissingBackup => text::concat("backup file not found: ", path),
            RestoreRefusal::Exists => text::concat(
                path,
                " already exists; pass --force to overwrite it",
            ),
            RestoreRefusal::Locked => text::concat(
                path,
                " is held by another process (is the daemon running?); stop it before restoring",
            ),
        }
    }
}

} // verus!
