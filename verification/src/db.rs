//! Where a tracked directory keeps its database.
use vstd::prelude::*;

use crate::error::YitError;
use crate::paths::{join_path, joined_path, path_exists};

verus! {

/// The directory, inside a tracked playlist directory, that holds the data.
pub const DB_DIR: &'static str = ".yit";

/// The name of the database file inside [`DB_DIR`].
pub const DB_FILENAME: &'static str = "yithub.db";

/// The data directory of a playlist directory.
pub open spec fn db_dir_of(dir: Seq<char>) -> Seq<char> {
    joined_path(dir, ".yit"@)
}

/// The database file of a playlist directory.
pub open spec fn db_path_of(dir: Seq<char>) -> Seq<char> {
    joined_path(db_dir_of(dir), "yithub.db"@)
}

/// The data directory (`.yit`) of a playlist directory.
pub fn db_dir(dir: &str) -> (res: String)
    ensures
        res@ == db_dir_of(dir@),
{
    join_path(dir, ".yit")
}

/// The database file (`.yit/yithub.db`) of a playlist directory.
pub fn db_path(dir: &str) -> (res: String)
    ensures
        res@ == db_path_of(dir@),
{
    let d = db_dir(dir);
    join_path(d.as_str(), "yithub.db")
}

/// The SQLite connection string for a database file.
pub fn sqlite_url(db_file: &str) -> (res: String)
    ensures
        res@ == "sqlite:"@ + db_file@,
{
    let mut s = "sqlite:".to_owned();
    s.append(db_file);
    s
}

/// The SQLite connection string for the database of a playlist directory.
pub fn db_url(dir: &str) -> (res: String)
    ensures
        res@ == "sqlite:"@ + db_path_of(dir@),
{
    let p = db_path(dir);
    sqlite_url(p.as_str())
}

/// Refuses to go on unless the database file exists.
pub fn require_db_file(db_exists: bool) -> (res: Result<(), YitError>)
    ensures
        db_exists ==> res is Ok,
        !db_exists ==> res == Err::<(), YitError>(YitError::NotAPlaylist),
{
    if db_exists {
        Ok(())
    } else {
        Err(YitError::NotAPlaylist)
    }
}

/// Refuses to go on unless `dir` is a tracked playlist directory: one whose
/// database file exists.
pub fn require_existing(dir: &str) -> (res: Result<(), YitError>)
    ensures
        res is Ok || res == Err::<(), YitError>(YitError::NotAPlaylist),
{
    let p = db_path(dir);
    let exists = path_exists(p.as_str());
    require_db_file(exists)
}

} // verus!
