//! The store on disk: the statements that realise the operations of the
//! storage engine on a SQLite file.
//!
//! Each statement does to the tables on disk what the operation of the same
//! name does to the tables of [`crate::database::Database`]. Identifiers are
//! bound and read as 16-byte blobs, and the vote flag as the integers 0 and 1.
//! The statement that reads a batch of voters is made by
//! [`crate::loader::Loader::batch_statement`], to the size of the batch.
use crate::errors::{ApiError, ApiResult};
use vstd::prelude::*;

verus! {

/// Creates the three tables where they are missing.
///
/// A vote is tied to its item, and goes when the item goes. It is not tied
/// to a stored principal: who votes is settled by the session of the
/// request, before the store is asked.
pub const CREATE_SCHEMA: &'static str = "CREATE TABLE IF NOT EXISTS users(
    id BLOB PRIMARY KEY NOT NULL,
    username TEXT
);
CREATE TABLE IF NOT EXISTS recommandations(
    id BLOB PRIMARY KEY NOT NULL,
    name TEXT NOT NULL,
    media INTEGER NOT NULL,
    created_by BLOB NOT NULL,
    link TEXT
);
CREATE TABLE IF NOT EXISTS upvotes(
    user_id BLOB,
    reco_id BLOB,
    vote INTEGER NOT NULL,
    PRIMARY KEY(reco_id, user_id),
    FOREIGN KEY (reco_id) REFERENCES recommandations(id) ON DELETE CASCADE
);";

/// The journal mode that the store is put in: writes are journaled ahead,
/// so that readers go on while one writer writes.
pub const JOURNAL_MODE: &'static str = "WAL";

/// Reads all items.
pub const ALL_RECOMMANDATIONS: &'static str =
    "SELECT id, name, media, link, created_by FROM recommandations";

/// Stores an item: its identifier, name, media tag, link and creator.
pub const CREATE_RECOMMANDATION: &'static str =
    "INSERT INTO recommandations(id, name, media, link, created_by) VALUES(?1, ?2, ?3, ?4, ?5)";

/// Removes the votes on an item; it goes before [`DELETE_RECOMMANDATION`],
/// in one transaction with it.
pub const DELETE_UPVOTES: &'static str = "DELETE FROM upvotes WHERE reco_id=?1";

/// Removes an item.
pub const DELETE_RECOMMANDATION: &'static str = "DELETE FROM recommandations WHERE id=?1";

/// Reads the principals whose vote for an item is on.
pub const UPVOTES_BY_RECOMMANDATION_ID: &'static str =
    "SELECT user_id FROM upvotes WHERE reco_id=?1 AND vote=1";

/// Reads the vote flag of a principal and an item, 0 where the pair has no row.
pub const UPVOTE_BY_ID: &'static str =
    "SELECT IFNULL((SELECT vote FROM upvotes WHERE user_id=?1 AND reco_id=?2), 0) vote";

/// Reads one item.
pub const RECOMMANDATION_BY_ID: &'static str =
    "SELECT id, name, media, link, created_by FROM recommandations WHERE id=?1";

/// Flips the vote of a principal on an item that is stored, in a single
/// statement. It changes no row where the item is not stored.
pub const FLIP_UPVOTE: &'static str = "INSERT OR REPLACE INTO upvotes(user_id, reco_id, vote)
SELECT ?1, ?2, (IFNULL((SELECT vote FROM upvotes WHERE user_id=?1 AND reco_id=?2), 0) + 1) % 2
WHERE EXISTS (SELECT 1 FROM recommandations WHERE id=?2)";

/// What [`FLIP_UPVOTE`] did, told from the number of rows that it changed:
/// it changes one row where the item is stored, and none where it is not.
pub fn flip_outcome(changed: usize) -> (done: ApiResult<()>)
    ensures
        done == if changed == 0 {
            Err::<(), ApiError>(ApiError::NotFound)
        } else {
            Ok(())
        },
{
    if changed == 0 {
        Err(ApiError::NotFound)
    } else {
        Ok(())
    }
}

/// Stores a principal: its identifier and name.
pub const INSERT_USER: &'static str = "INSERT INTO users(id, username) VALUES(?1, ?2)";

/// Reads one principal.
pub const USER_BY_ID: &'static str = "SELECT id, username FROM users WHERE id=?1";

} // verus!
