//! Where the local database lives and how it is opened read-only. Opening
//! the connection is the caller's part.
use vstd::prelude::*;
use crate::paths::{join_path, path_join};
use crate::text::append_str;

verus! {

/// The database's file name inside the state directory.
pub const WARP_SQLITE_FILE_NAME: &'static str = "warp.sqlite";

/// The on-disk location of the database: the file inside the app's state
/// directory.
pub fn database_file_path(state_dir: &str) -> (r: String)
    ensures
        r@ == path_join(state_dir@, "warp.sqlite"@),
{
    join_path(state_dir, WARP_SQLITE_FILE_NAME)
}

/// The URL that opens the database at `database_url` read-only.
pub fn read_only_database_url(database_url: &str) -> (r: String)
    ensures
        r@ == "file:"@ + database_url@ + "?mode=ro"@,
{
    let mut s = String::new();
    append_str(&mut s, "file:");
    append_str(&mut s, database_url);
    append_str(&mut s, "?mode=ro");
    s
}

} // verus!
