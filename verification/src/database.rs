//! The storage engine: the tables of items, principals and votes, and the
//! operations on them.
//!
//! A [`Database`] owns its rows and keeps them in memory. Every operation is
//! one unit of work on a store that the caller holds exclusively for its
//! duration, so a vote is flipped in a single indivisible step.
//! [`crate::statements`] holds the statements that do the same to a store
//! on disk.
use crate::errors::{ApiError, ApiResult};
use crate::ids::{fresh_id, is_random_id};
use crate::models::{Recommandation, User};
use crate::tables::{
    flipped, law_a_new_item_has_no_votes, law_delete_takes_the_votes_along,
    lemma_flipped_keeps_schema, reco_at, same_pair, user_at, voters, votes_on, votes_without,
    Tables, Upvote,
};
use vstd::prelude::*;

verus! {

/// A store of items, principals and votes.
pub struct Database {
    path: String,
    ready: bool,
    wal: bool,
    recommandations: Vec<Recommandation>,
    upvotes: Vec<Upvote>,
    users: Vec<User>,
}

impl View for Database {
    type V = Tables;

    closed spec fn view(&self) -> Tables {
        Tables {
            ready: self.ready,
            wal: self.wal,
            recommandations: self.recommandations@,
            upvotes: self.upvotes@,
            users: self.users@,
        }
    }
}

impl Database {
    /// The place that the store was opened at.
    pub closed spec fn path(&self) -> Seq<char> {
        self.path@
    }

    /// Whether the rows of the store obey the schema.
    pub open spec fn wf(&self) -> bool {
        self@.wf()
    }

    /// Opens a store at `path`. It starts without a schema and without rows.
    pub fn open(path: &str) -> (opened: ApiResult<Database>)
        ensures
            opened is Ok,
            opened->Ok_0@ == Tables::empty(),
            opened->Ok_0.path() == path@,
            opened->Ok_0.wf(),
    {
        Ok(
            Database {
                path: path.to_owned(),
                ready: false,
                wal: false,
                recommandations: Vec::new(),
                upvotes: Vec::new(),
                users: Vec::new(),
            },
        )
    }

    /// Creates the schema where it is missing and turns write-ahead
    /// journaling on. Rows that are there stay, so this is safe at every start.
    pub fn init(&mut self) -> (done: ApiResult<()>)
        requires
            old(self).wf(),
        ensures
            done is Ok,
            final(self)@ == old(self)@.initialised(),
            final(self).path() == old(self).path(),
            final(self).wf(),
    {
        self.ready = true;
        self.wal = true;
        Ok(())
    }

    /// Whether the store journals its writes ahead.
    pub fn write_ahead(&self) -> (on: bool)
        ensures
            on == self@.wal,
    {
        self.wal
    }

    /// Draws an identifier for a new item.
    pub fn new_id(&self) -> (id: u128)
        ensures
            is_random_id(id),
    {
        fresh_id()
    }

    /// All items, in the order of the table.
    pub fn all_recommandations(&self) -> (found: ApiResult<Vec<Recommandation>>)
        ensures
            match found {
                Ok(rows) => self@.ready && rows@ == self@.recommandations,
                Err(error) => !self@.ready && error == ApiError::Database,
            },
    {
        if !self.ready {
            return Err(ApiError::Database);
        }
        let mut rows: Vec<Recommandation> = Vec::new();
        let mut i: usize = 0;
        while i < self.recommandations.len()
            invariant
                i <= self.recommandations.len(),
                rows@ == self.recommandations@.take(i as int),
            decreases self.recommandations.len() - i,
        {
            rows.push(self.recommandations[i].clone());
            assert(self.recommandations@.take(i + 1) == self.recommandations@.take(i as int).push(
                self.recommandations@[i as int],
            ));
            i += 1;
        }
        assert(self.recommandations@.take(i as int) == self.recommandations@);
        Ok(rows)
    }

    /// Where the item `id` stands in its table.
    fn position(&self, id: u128) -> (at: Option<usize>)
        requires
            self.wf(),
        ensures
            match at {
                Some(i) => {
                    &&& i < self.recommandations.len()
                    &&& self.recommandations[i as int].id == id
                    &&& self@.has_reco(id)
                    &&& reco_at(self@.recommandations, id) == i
                },
                None => !self@.has_reco(id),
            },
    {
        let mut i: usize = 0;
        while i < self.recommandations.len()
            invariant
                self.wf(),
                i <= self.recommandations.len(),
                forall|k: int| 0 <= k < i ==> (#[trigger] self.recommandations[k]).id != id,
            decreases self.recommandations.len() - i,
        {
            if self.recommandations[i].id == id {
                proof {
                    let k = reco_at(self@.recommandations, id);
                    assert(self@.recommandations[i as int].id == id);
                    assert(self@.recommandations[k].id == id);
                }
                return Some(i);
            }
            i += 1;
        }
        None
    }

    /// The item stored under `reco_id`.
    pub fn recommandation_by_id(&self, reco_id: u128) -> (found: ApiResult<Recommandation>)
        requires
            self.wf(),
        ensures
            found == if !self@.ready {
                Err::<Recommandation, ApiError>(ApiError::Database)
            } else if self@.has_reco(reco_id) {
                Ok(self@.reco(reco_id))
            } else {
                Err(ApiError::NotFound)
            },
    {
        if !self.ready {
            return Err(ApiError::Database);
        }
        match self.position(reco_id) {
            Some(i) => Ok(self.recommandations[i].clone()),
            None => Err(ApiError::NotFound),
        }
    }

    /// Stores a new item. An item that is stored under the same identifier
    /// already is a conflict, and nothing changes.
    pub fn create_recommandation(&mut self, new_reco: &Recommandation) -> (done: ApiResult<()>)
        requires
            old(self).wf(),
        ensures
            final(self).wf(),
            final(self).path() == old(self).path(),
            done == if !old(self)@.ready {
                Err::<(), ApiError>(ApiError::Database)
            } else if old(self)@.has_reco(new_reco.id) {
                Err(ApiError::Conflict)
            } else {
                Ok(())
            },
            final(self)@ == if done is Ok {
                old(self)@.with_reco(*new_reco)
            } else {
                old(self)@
            },
    {
        if !self.ready {
            return Err(ApiError::Database);
        }
        if self.position(new_reco.id).is_some() {
            return Err(ApiError::Conflict);
        }
        proof {
            law_a_new_item_has_no_votes(self@, *new_reco);
        }
        self.recommandations.push(new_reco.clone());
        assert(self@ == old(self)@.with_reco(*new_reco));
        Ok(())
    }

    /// Where the principal `id` stands in its table.
    fn user_position(&self, id: u128) -> (at: Option<usize>)
        requires
            self.wf(),
        ensures
            match at {
                Some(i) => {
                    &&& i < self.users.len()
                    &&& self.users[i as int].id == id
                    &&& self@.has_user(id)
                    &&& user_at(self@.users, id) == i
                },
                None => !self@.has_user(id),
            },
    {
        let mut i: usize = 0;
        while i < self.users.len()
            invariant
                self.wf(),
                i <= self.users.len(),
                forall|k: int| 0 <= k < i ==> (#[trigger] self.users[k]).id != id,
            decreases self.users.len() - i,
        {
            if self.users[i].id == id {
                proof {
                    let k = user_at(self@.users, id);
                    assert(self@.users[i as int].id == id);
                    assert(self@.users[k].id == id);
                }
                return Some(i);
            }
            i += 1;
        }
        None
    }

    /// Stores a new principal. A principal that is stored under the same
    /// identifier already is a conflict, and nothing changes.
    pub fn insert_user(&mut self, user: &User) -> (done: ApiResult<()>)
        requires
            old(self).wf(),
        ensures
            final(self).wf(),
            final(self).path() == old(self).path(),
            done == if !old(self)@.ready {
                Err::<(), ApiError>(ApiError::Database)
            } else if old(self)@.has_user(user.id) {
                Err(ApiError::Conflict)
            } else {
                Ok(())
            },
            final(self)@ == if done is Ok {
                old(self)@.with_user(*user)
            } else {
                old(self)@
            },
    {
        if !self.ready {
            return Err(ApiError::Database);
        }
        if self.user_position(user.id).is_some() {
            return Err(ApiError::Conflict);
        }
        self.users.push(user.clone());
        proof {
            assert(self@.users == old(self)@.users.push(*user));
            assert(self@.recommandations == old(self)@.recommandations);
            assert(self@.upvotes == old(self)@.upvotes);
        }
        Ok(())
    }

    /// The principal stored under `id`; `None`, and no failure, where there is none.
    pub fn user_by_id(&self, id: u128) -> (found: ApiResult<Option<User>>)
        requires
            self.wf(),
        ensures
            found == if !self@.ready {
                Err::<Option<User>, ApiError>(ApiError::Database)
            } else if self@.has_user(id) {
                Ok(Some(self@.user(id)))
            } else {
                Ok(None)
            },
    {
        if !self.ready {
            return Err(ApiError::Database);
        }
        match self.user_position(id) {
            Some(i) => Ok(Some(self.users[i].clone())),
            None => Ok(None),
        }
    }

    /// Where the vote row of the pair stands in its table.
    fn vote_position(&self, reco_id: u128, user_id: u128) -> (at: Option<usize>)
        requires
            self.wf(),
        ensures
            match at {
                Some(i) => {
                    &&& i < self.upvotes.len()
                    &&& self.upvotes[i as int].reco_id == reco_id
                    &&& self.upvotes[i as int].user_id == user_id
                    &&& self@.upvotes.contains(self.upvotes[i as int])
                    &&& self@.upvotes.index_of(self.upvotes[i as int]) == i
                    &&& !self@.upvotes.contains(
                        Upvote { user_id, reco_id, vote: !self.upvotes[i as int].vote },
                    )
                },
                None => {
                    &&& !self@.upvotes.contains(Upvote { user_id, reco_id, vote: true })
                    &&& !self@.upvotes.contains(Upvote { user_id, reco_id, vote: false })
                },
            },
    {
        let mut i: usize = 0;
        while i < self.upvotes.len()
            invariant
                self.wf(),
                i <= self.upvotes.len(),
                forall|k: int|
                    0 <= k < i ==> !same_pair(
                        #[trigger] self.upvotes[k],
                        Upvote { user_id, reco_id, vote: true },
                    ),
            decreases self.upvotes.len() - i,
        {
            if self.upvotes[i].reco_id == reco_id && self.upvotes[i].user_id == user_id {
                proof {
                    let rows = self@.upvotes;
                    let row = rows[i as int];
                    assert(rows.contains(row));
                    let k = rows.index_of(row);
                    assert(same_pair(rows[k], rows[i as int]));
                    assert(k == i);
                    let other = Upvote { user_id, reco_id, vote: !row.vote };
                    if rows.contains(other) {
                        let m = rows.index_of(other);
                        assert(same_pair(rows[m], rows[i as int]));
                    }
                }
                return Some(i);
            }
            i += 1;
        }
        proof {
            let rows = self@.upvotes;
            let on = Upvote { user_id, reco_id, vote: true };
            let off = Upvote { user_id, reco_id, vote: false };
            if rows.contains(on) {
                assert(same_pair(rows[rows.index_of(on)], on));
            }
            if rows.contains(off) {
                assert(same_pair(rows[rows.index_of(off)], on));
            }
        }
        None
    }

    /// The principals who vote for `reco_id`: those whose flag is on.
    pub fn upvotes_by_recommandation_id(&self, reco_id: u128) -> (found: ApiResult<Vec<u128>>)
        ensures
            match found {
                Ok(users) => self@.ready && users@ == voters(self@.upvotes, reco_id),
                Err(error) => !self@.ready && error == ApiError::Database,
            },
    {
        if !self.ready {
            return Err(ApiError::Database);
        }
        let mut users: Vec<u128> = Vec::new();
        let mut i: usize = 0;
        while i < self.upvotes.len()
            invariant
                i <= self.upvotes.len(),
                users@ == voters(self.upvotes@.take(i as int), reco_id),
            decreases self.upvotes.len() - i,
        {
            assert(self.upvotes@.take(i + 1).drop_last() == self.upvotes@.take(i as int));
            if self.upvotes[i].reco_id == reco_id && self.upvotes[i].vote {
                users.push(self.upvotes[i].user_id);
            }
            i += 1;
        }
        assert(self.upvotes@.take(i as int) == self.upvotes@);
        Ok(users)
    }

    /// The pairs of item and voter for the items among `reco_ids`, read in one pass.
    pub fn upvotes_by_recommandation_ids(&self, reco_ids: &Vec<u128>) -> (found: ApiResult<
        Vec<(u128, u128)>,
    >)
        ensures
            match found {
                Ok(rows) => self@.ready && rows@ == votes_on(self@.upvotes, reco_ids@),
                Err(error) => !self@.ready && error == ApiError::Database,
            },
    {
        if !self.ready {
            return Err(ApiError::Database);
        }
        let mut rows: Vec<(u128, u128)> = Vec::new();
        let mut i: usize = 0;
        while i < self.upvotes.len()
            invariant
                i <= self.upvotes.len(),
                rows@ == votes_on(self.upvotes@.take(i as int), reco_ids@),
            decreases self.upvotes.len() - i,
        {
            assert(self.upvotes@.take(i + 1).drop_last() == self.upvotes@.take(i as int));
            if self.upvotes[i].vote && contains_id(reco_ids, self.upvotes[i].reco_id) {
                rows.push((self.upvotes[i].reco_id, self.upvotes[i].user_id));
            }
            i += 1;
        }
        assert(self.upvotes@.take(i as int) == self.upvotes@);
        Ok(rows)
    }

    /// The vote flag of the pair: 1 where `user_id` votes for `reco_id`, and
    /// 0 where the flag is off or the pair has no row.
    pub fn upvote_by_id(&self, reco_id: u128, user_id: u128) -> (found: ApiResult<i32>)
        requires
            self.wf(),
        ensures
            found == if !self@.ready {
                Err::<i32, ApiError>(ApiError::Database)
            } else if self@.vote(reco_id, user_id) {
                Ok(1i32)
            } else {
                Ok(0i32)
            },
    {
        if !self.ready {
            return Err(ApiError::Database);
        }
        match self.vote_position(reco_id, user_id) {
            Some(i) => {
                if self.upvotes[i].vote {
                    Ok(1)
                } else {
                    Ok(0)
                }
            },
            None => Ok(0),
        }
    }

    /// Flips the vote of `user_id` on `reco_id`, in one step: a flag that
    /// is on goes off, and a flag that is off, or a pair without a row, goes on.
    /// The item has to be stored; otherwise nothing changes.
    pub fn flip_upvote(&mut self, reco_id: u128, user_id: u128) -> (done: ApiResult<()>)
        requires
            old(self).wf(),
        ensures
            final(self).wf(),
            final(self).path() == old(self).path(),
            done == if !old(self)@.ready {
                Err::<(), ApiError>(ApiError::Database)
            } else if !old(self)@.has_reco(reco_id) {
                Err(ApiError::NotFound)
            } else {
                Ok(())
            },
            final(self)@ == if done is Ok {
                old(self)@.with_flipped(reco_id, user_id)
            } else {
                old(self)@
            },
    {
        if !self.ready {
            return Err(ApiError::Database);
        }
        if self.position(reco_id).is_none() {
            return Err(ApiError::NotFound);
        }
        proof {
            lemma_flipped_keeps_schema(self@, reco_id, user_id);
        }
        match self.vote_position(reco_id, user_id) {
            Some(i) => {
                let vote = !self.upvotes[i].vote;
                self.upvotes.set(i, Upvote { user_id, reco_id, vote });
            },
            None => {
                self.upvotes.push(Upvote { user_id, reco_id, vote: true });
            },
        }
        assert(self@.upvotes == flipped(old(self)@.upvotes, reco_id, user_id));
        assert(self@.recommandations == old(self)@.recommandations);
        assert(self@.users == old(self)@.users);
        Ok(())
    }

    /// Removes the item `reco_id` and, with it, every vote on it. An
    /// identifier under which nothing is stored is no failure.
    pub fn delete_recommandation(&mut self, reco_id: u128) -> (done: ApiResult<()>)
        requires
            old(self).wf(),
        ensures
            final(self).wf(),
            final(self).path() == old(self).path(),
            done == if old(self)@.ready {
                Ok::<(), ApiError>(())
            } else {
                Err(ApiError::Database)
            },
            final(self)@ == if done is Ok {
                old(self)@.without_reco(reco_id)
            } else {
                old(self)@
            },
    {
        if !self.ready {
            return Err(ApiError::Database);
        }
        proof {
            law_delete_takes_the_votes_along(self@, reco_id);
        }
        match self.position(reco_id) {
            Some(i) => {
                self.recommandations.remove(i);
            },
            None => {},
        }
        let mut kept: Vec<Upvote> = Vec::new();
        let mut i: usize = 0;
        while i < self.upvotes.len()
            invariant
                i <= self.upvotes.len(),
                kept@ == votes_without(self.upvotes@.take(i as int), reco_id),
            decreases self.upvotes.len() - i,
        {
            assert(self.upvotes@.take(i + 1).drop_last() == self.upvotes@.take(i as int));
            if self.upvotes[i].reco_id != reco_id {
                kept.push(self.upvotes[i]);
            }
            i += 1;
        }
        assert(self.upvotes@.take(i as int) == self.upvotes@);
        self.upvotes = kept;
        assert(self@.users == old(self)@.users);
        Ok(())
    }
}

/// Whether `id` is one of `ids`.
pub(crate) fn contains_id(ids: &Vec<u128>, id: u128) -> (found: bool)
    ensures
        found == ids@.contains(id),
{
    let mut i: usize = 0;
    while i < ids.len()
        invariant
            i <= ids.len(),
            forall|k: int| 0 <= k < i ==> ids[k] != id,
        decreases ids.len() - i,
    {
        if ids[i] == id {
            return true;
        }
        i += 1;
    }
    false
}

/// Opens the connections that a pool hands out, and checks them before they
/// are handed out again.
#[derive(Debug)]
pub struct DatabaseManager {
    /// The place of the store that every connection is opened at.
    pub path: String,
}

impl DatabaseManager {
    /// Opens a new connection to the store at [`DatabaseManager::path`].
    pub fn connect(&self) -> (opened: ApiResult<Database>)
        ensures
            opened is Ok,
            opened->Ok_0@ == Tables::empty(),
            opened->Ok_0.path() == self.path@,
            opened->Ok_0.wf(),
    {
        Database::open(self.path.as_str())
    }

    /// Checks, without touching a row, that a connection can still be used.
    pub fn is_valid(&self, db: &mut Database) -> (checked: ApiResult<()>)
        ensures
            checked is Ok,
            *final(db) == *old(db),
    {
        Ok(())
    }

    /// Whether a connection is known to be beyond use. None ever is: a
    /// connection that fails is found by [`DatabaseManager::is_valid`].
    pub fn has_broken(&self, db: &mut Database) -> (broken: bool)
        ensures
            !broken,
            *final(db) == *old(db),
    {
        false
    }
}

} // verus!
