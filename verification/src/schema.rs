//! The operations that the query layer offers: what a request may read of
//! the store, and how it may change it.
//!
//! Each operation acts for one principal, the one that the session of the
//! request names, on a store that the request holds for its duration.
use crate::auth::sessions::Session;
use crate::database::Database;
use crate::errors::{ApiError, ApiResult};
use crate::ids::{
    format_id, has_id_length, hyphenated, is_random_id, parse_id, parsed_uuid,
};
use crate::loader::Loader;
use crate::models::{NewRecommandation, Recommandation, User};
use crate::tables::{voters, Tables};
use vstd::prelude::*;

verus! {

/// What creating an item under the identifier `id` answers, and what it
/// makes of the store: the schema has to be in place and the identifier
/// free, and then the item joins the store as the creation of `user_id`.
pub open spec fn created(tables: Tables, user_id: u128, id: u128, new: NewRecommandation) -> (
    Result<Recommandation, ApiError>,
    Tables,
) {
    if !tables.ready {
        (Err(ApiError::Database), tables)
    } else if tables.has_reco(id) {
        (Err(ApiError::Conflict), tables)
    } else {
        (
            Ok(Recommandation::made_of(id, user_id, new)),
            tables.with_reco(Recommandation::made_of(id, user_id, new)),
        )
    }
}

/// What deleting the item `reco_id` on behalf of `user_id` answers, and
/// what it makes of the store: only an item that is stored can go, and only
/// for the principal who created it. It goes with the votes on it, and is
/// handed back as it was.
pub open spec fn deleted(tables: Tables, user_id: u128, reco_id: u128) -> (
    Result<Recommandation, ApiError>,
    Tables,
) {
    if !tables.ready {
        (Err(ApiError::Database), tables)
    } else if !tables.has_reco(reco_id) {
        (Err(ApiError::NotFound), tables)
    } else if tables.reco(reco_id).created_by != user_id {
        (Err(ApiError::UnauthorizedOperation), tables)
    } else {
        (Ok(tables.reco(reco_id)), tables.without_reco(reco_id))
    }
}

/// What flipping the vote of `user_id` on the item `reco_id` answers, and
/// what it makes of the store: the vote on a stored item is flipped, and
/// the item is handed back.
pub open spec fn vote_flipped(tables: Tables, user_id: u128, reco_id: u128) -> (
    Result<Recommandation, ApiError>,
    Tables,
) {
    if !tables.ready {
        (Err(ApiError::Database), tables)
    } else if !tables.has_reco(reco_id) {
        (Err(ApiError::NotFound), tables)
    } else {
        (Ok(tables.reco(reco_id)), tables.with_flipped(reco_id, user_id))
    }
}

/// What a read of the store answers for the voters of one item.
pub open spec fn read_voters(tables: Tables, reco_id: u128) -> Result<Seq<u128>, ApiError> {
    if tables.ready {
        Ok(voters(tables.upvotes, reco_id))
    } else {
        Err(ApiError::Database)
    }
}

/// Whether `texts` are the text forms of `users`, one for one.
pub open spec fn texts_of(users: Seq<u128>, texts: Seq<String>) -> bool {
    &&& texts.len() == users.len()
    &&& forall|i: int| 0 <= i < texts.len() ==> (#[trigger] texts[i])@ == hyphenated(users[i])
}

/// The identifiers of a list of items, in its order.
pub open spec fn ids_of(recos: Seq<Recommandation>) -> Seq<u128> {
    Seq::new(recos.len(), |i: int| recos[i].id)
}

/// Reads the identifier of an item from its text form. Text that denotes
/// no identifier is an `InvalidId`; text of another length than the
/// notations of an identifier never denotes one.
pub fn item_id(text: &str) -> (id: ApiResult<u128>)
    ensures
        id == match parsed_uuid(text@) {
            Some(id) => Ok::<u128, ApiError>(id),
            None => Err(ApiError::InvalidId),
        },
        !has_id_length(text@) ==> id == Err::<u128, ApiError>(ApiError::InvalidId),
{
    match parse_id(text) {
        Some(id) => Ok(id),
        None => Err(ApiError::InvalidId),
    }
}

/// The principal that a session speaks for, as far as the store knows it:
/// a session whose principal is not stored is a `NoUserFound`.
pub fn session_user(found: Option<User>) -> (user: ApiResult<User>)
    ensures
        user == match found {
            Some(stored) => Ok::<User, ApiError>(stored),
            None => Err(ApiError::NoUserFound),
        },
{
    match found {
        Some(stored) => Ok(stored),
        None => Err(ApiError::NoUserFound),
    }
}

impl Recommandation {
    /// Whether `user_id` may delete this item: its creator may, and nobody
    /// else.
    pub fn deletable_by(&self, user_id: u128) -> (allowed: ApiResult<()>)
        ensures
            allowed == if self.created_by == user_id {
                Ok::<(), ApiError>(())
            } else {
                Err(ApiError::UnauthorizedOperation)
            },
    {
        if self.created_by == user_id {
            Ok(())
        } else {
            Err(ApiError::UnauthorizedOperation)
        }
    }

    /// The principals who vote for this item, each by the text form of its
    /// identifier, read through the loader of the request.
    ///
    /// The voters are those that the loader knows for the item. Where it
    /// knows none yet, it reads them from `db`, in one batch with every
    /// other key that waits, so that the items of a list cost one read.
    pub fn upvotes(&self, loader: &mut Loader, db: &Database) -> (found: ApiResult<Vec<String>>)
        requires
            old(loader).wf(),
        ensures
            final(loader).wf(),
            final(loader)@ == old(loader)@.fetch(db@, self.id),
            match final(loader)@.known(self.id) {
                Some(Ok(users)) => found matches Ok(texts) && texts_of(users, texts@),
                Some(Err(error)) => found == Err::<Vec<String>, ApiError>(error),
                None => false,
            },
            old(loader)@.known(self.id) is None ==> final(loader)@.known(self.id) == Some(
                read_voters(db@, self.id),
            ),
    {
        let users = match loader.fetch(db, self.id) {
            Ok(users) => users,
            Err(error) => {
                return Err(error);
            },
        };
        let mut texts: Vec<String> = Vec::new();
        let mut i: usize = 0;
        while i < users.len()
            invariant
                i <= users.len(),
                texts@.len() == i,
                forall|k: int| 0 <= k < i ==> (#[trigger] texts@[k])@ == hyphenated(users@[k]),
            decreases users.len() - i,
        {
            texts.push(format_id(users[i]));
            i += 1;
        }
        Ok(texts)
    }

    /// How many principals vote for this item, read through the loader of
    /// the request as [`Recommandation::upvotes`] reads them.
    pub fn upvote_count(&self, loader: &mut Loader, db: &Database) -> (found: ApiResult<i32>)
        requires
            old(loader).wf(),
        ensures
            final(loader).wf(),
            final(loader)@ == old(loader)@.fetch(db@, self.id),
            match final(loader)@.known(self.id) {
                Some(Ok(users)) => found == Ok::<i32, ApiError>(users.len() as i32),
                Some(Err(error)) => found == Err::<i32, ApiError>(error),
                None => false,
            },
            old(loader)@.known(self.id) is None ==> final(loader)@.known(self.id) == Some(
                read_voters(db@, self.id),
            ),
    {
        match loader.fetch(db, self.id) {
            Ok(users) => Ok(users.len() as i32),
            Err(error) => Err(error),
        }
    }

    /// Whether the principal `user_id` votes for this item.
    pub fn is_upvoted_by(&self, db: &Database, user_id: u128) -> (found: ApiResult<bool>)
        requires
            db.wf(),
        ensures
            found == if db@.ready {
                Ok::<bool, ApiError>(db@.vote(self.id, user_id))
            } else {
                Err(ApiError::Database)
            },
    {
        match db.upvote_by_id(self.id, user_id) {
            Ok(flag) => Ok(flag == 1),
            Err(error) => Err(error),
        }
    }
}

/// The root of what a request may read.
pub struct Query;

impl Query {
    /// The version of the interface.
    #[allow(non_snake_case)]
    pub fn apiVersion() -> (version: &'static str)
        ensures
            version@ == "1.0"@,
    {
        "1.0"
    }

    /// The principal that `session` speaks for, or `NoUserFound` where the
    /// store holds no principal under its identifier.
    pub fn me(db: &Database, session: &Session) -> (user: ApiResult<User>)
        requires
            db.wf(),
        ensures
            user == if !db@.ready {
                Err::<User, ApiError>(ApiError::Database)
            } else if db@.has_user(session.user_id) {
                Ok(db@.user(session.user_id))
            } else {
                Err(ApiError::NoUserFound)
            },
    {
        match db.user_by_id(session.user_id) {
            Ok(found) => session_user(found),
            Err(error) => Err(error),
        }
    }

    /// All items. Their identifiers are handed to the loader of the
    /// request, so that the voters of all of them are read in one batch
    /// when the first of them is asked for.
    pub fn recommandations(db: &Database, loader: &mut Loader) -> (found: ApiResult<
        Vec<Recommandation>,
    >)
        requires
            old(loader).wf(),
        ensures
            final(loader).wf(),
            match found {
                Ok(rows) => {
                    &&& db@.ready
                    &&& rows@ == db@.recommandations
                    &&& final(loader)@ == old(loader)@.load_all(ids_of(rows@))
                },
                Err(error) => {
                    &&& !db@.ready
                    &&& error == ApiError::Database
                    &&& final(loader)@ == old(loader)@
                },
            },
    {
        let rows = match db.all_recommandations() {
            Ok(rows) => rows,
            Err(error) => {
                return Err(error);
            },
        };
        let mut ids: Vec<u128> = Vec::new();
        let mut i: usize = 0;
        while i < rows.len()
            invariant
                i <= rows.len(),
                ids@ == ids_of(rows@).take(i as int),
            decreases rows.len() - i,
        {
            ids.push(rows[i].id);
            assert(ids_of(rows@).take(i + 1) == ids_of(rows@).take(i as int).push(rows@[i as int].id));
            i += 1;
        }
        assert(ids_of(rows@).take(i as int) == ids_of(rows@));
        loader.load_all(&ids);
        Ok(rows)
    }
}

/// The root of what a request may change.
pub struct Mutation;

impl Mutation {
    /// Creates the item that `user_id` submits, under the identifier `id`.
    pub fn create_recommandation_with_id(
        db: &mut Database,
        user_id: u128,
        id: u128,
        new: NewRecommandation,
    ) -> (made: ApiResult<Recommandation>)
        requires
            old(db).wf(),
        ensures
            final(db).wf(),
            final(db).path() == old(db).path(),
            (made, final(db)@) == created(old(db)@, user_id, id, new),
    {
        let reco = Recommandation::new(id, user_id, new);
        match db.create_recommandation(&reco) {
            Ok(()) => Ok(reco),
            Err(error) => Err(error),
        }
    }

    /// Creates the item that `user_id` submits, under an identifier drawn for it.
    ///
    /// The identifier is random, and the outcome is that of a creation
    /// under it: without a schema the store refuses, and with one the item
    /// is created unless the identifier that was drawn is taken. On a store
    /// without items it is therefore always created.
    pub fn create_recommandation(db: &mut Database, user_id: u128, new: NewRecommandation) -> (made:
        ApiResult<Recommandation>)
        requires
            old(db).wf(),
        ensures
            final(db).wf(),
            final(db).path() == old(db).path(),
            exists|id: u128|
                is_random_id(id) && #[trigger] created(old(db)@, user_id, id, new) == (
                    made,
                    final(db)@,
                ),
            made matches Ok(reco) ==> is_random_id(reco.id) && !old(db)@.has_reco(reco.id),
    {
        let id = db.new_id();
        Mutation::create_recommandation_with_id(db, user_id, id, new)
    }

    /// Deletes the item `reco_id` on behalf of `user_id`.
    pub fn delete_recommandation_by_id(db: &mut Database, user_id: u128, reco_id: u128) -> (gone:
        ApiResult<Recommandation>)
        requires
            old(db).wf(),
        ensures
            final(db).wf(),
            final(db).path() == old(db).path(),
            (gone, final(db)@) == deleted(old(db)@, user_id, reco_id),
    {
        let reco = match db.recommandation_by_id(reco_id) {
            Ok(reco) => reco,
            Err(error) => {
                return Err(error);
            },
        };
        match reco.deletable_by(user_id) {
            Ok(()) => {},
            Err(error) => {
                return Err(error);
            },
        }
        match db.delete_recommandation(reco_id) {
            Ok(()) => Ok(reco),
            Err(error) => Err(error),
        }
    }

    /// Deletes, on behalf of `user_id`, the item whose identifier is the
    /// text `reco_id`. Text that denotes no identifier is an `InvalidId`.
    pub fn delete_recommandation(db: &mut Database, user_id: u128, reco_id: &str) -> (gone:
        ApiResult<Recommandation>)
        requires
            old(db).wf(),
        ensures
            final(db).wf(),
            final(db).path() == old(db).path(),
            (gone, final(db)@) == match parsed_uuid(reco_id@) {
                Some(id) => deleted(old(db)@, user_id, id),
                None => (Err(ApiError::InvalidId), old(db)@),
            },
            !has_id_length(reco_id@) ==> (gone, final(db)@) == (
                Err::<Recommandation, ApiError>(ApiError::InvalidId),
                old(db)@,
            ),
    {
        match item_id(reco_id) {
            Ok(id) => Mutation::delete_recommandation_by_id(db, user_id, id),
            Err(error) => Err(error),
        }
    }

    /// Flips the vote of `user_id` on the item `reco_id`.
    pub fn flip_recommandation_vote_by_id(db: &mut Database, user_id: u128, reco_id: u128) -> (item:
        ApiResult<Recommandation>)
        requires
            old(db).wf(),
        ensures
            final(db).wf(),
            final(db).path() == old(db).path(),
            (item, final(db)@) == vote_flipped(old(db)@, user_id, reco_id),
    {
        match db.flip_upvote(reco_id, user_id) {
            Ok(()) => {},
            Err(error) => {
                return Err(error);
            },
        }
        db.recommandation_by_id(reco_id)
    }

    /// Flips the vote of `user_id` on the item whose identifier is the text
    /// `reco_id`. Text that denotes no identifier is an `InvalidId`.
    pub fn flip_recommandation_vote(db: &mut Database, user_id: u128, reco_id: &str) -> (item:
        ApiResult<Recommandation>)
        requires
            old(db).wf(),
        ensures
            final(db).wf(),
            final(db).path() == old(db).path(),
            (item, final(db)@) == match parsed_uuid(reco_id@) {
                Some(id) => vote_flipped(old(db)@, user_id, id),
                None => (Err(ApiError::InvalidId), old(db)@),
            },
            !has_id_length(reco_id@) ==> (item, final(db)@) == (
                Err::<Recommandation, ApiError>(ApiError::InvalidId),
                old(db)@,
            ),
    {
        match item_id(reco_id) {
            Ok(id) => Mutation::flip_recommandation_vote_by_id(db, user_id, id),
            Err(error) => Err(error),
        }
    }
}

/// Nobody but its creator deletes an item: for any other principal the
/// request is refused as unauthorized, the store stays as it is, and the
/// item can be read as before.
pub proof fn law_only_the_creator_deletes(tables: Tables, user_id: u128, reco_id: u128)
    requires
        tables.wf(),
        tables.ready,
        tables.has_reco(reco_id),
        tables.reco(reco_id).created_by != user_id,
    ensures
        deleted(tables, user_id, reco_id).0 == Err::<Recommandation, ApiError>(
            ApiError::UnauthorizedOperation,
        ),
        deleted(tables, user_id, reco_id).1 == tables,
        deleted(tables, user_id, reco_id).1.has_reco(reco_id),
        deleted(tables, user_id, reco_id).1.reco(reco_id) == tables.reco(reco_id),
{
}

} // verus!
