use backend::database::Database;
use backend::errors::ApiError;
use backend::loader::Loader;
use backend::models::{Recommandation, User};
use backend::statements;
use rusqlite::{Connection, OptionalExtension, ToSql};
use std::collections::BTreeSet;
use uuid::Uuid;

/// The store on disk, kept in memory: the statements of the library run by SQLite.
struct Disk {
    conn: Connection,
}

fn row_to_rec(row: &rusqlite::Row<'_>) -> rusqlite::Result<Recommandation> {
    Ok(Recommandation {
        id: row.get::<_, Uuid>("id")?.as_u128(),
        name: row.get("name")?,
        created_by: row.get::<_, Uuid>("created_by")?.as_u128(),
        media: row.get("media")?,
        link: row.get("link")?,
    })
}

impl Disk {
    fn open() -> Disk {
        Disk { conn: Connection::open_in_memory().unwrap() }
    }

    /// A store whose foreign keys are enforced, or are not, as told.
    fn open_with_foreign_keys(enforced: bool) -> Disk {
        let disk = Disk::open();
        disk.conn.pragma_update(None, "foreign_keys", &enforced).unwrap();
        let stored: bool =
            disk.conn.query_row("PRAGMA foreign_keys", rusqlite::NO_PARAMS, |row| row.get(0)).unwrap();
        assert_eq!(stored, enforced);
        disk
    }

    fn init(&self) -> Result<(), ApiError> {
        self.conn.execute_batch(statements::CREATE_SCHEMA)?;
        self.conn.pragma_update(None, "journal_mode", &statements::JOURNAL_MODE)?;
        Ok(())
    }

    fn all_recommandations(&self) -> Result<Vec<Recommandation>, ApiError> {
        let mut statement = self.conn.prepare(statements::ALL_RECOMMANDATIONS)?;
        let rows = statement.query_map(rusqlite::NO_PARAMS, row_to_rec)?;
        Ok(rows.collect::<rusqlite::Result<Vec<Recommandation>>>()?)
    }

    fn create_recommandation(&self, reco: &Recommandation) -> Result<(), ApiError> {
        let id = Uuid::from_u128(reco.id);
        let creator = Uuid::from_u128(reco.created_by);
        let params: [&dyn ToSql; 5] = [&id, &reco.name, &reco.media, &reco.link, &creator];
        self.conn.execute(statements::CREATE_RECOMMANDATION, &params)?;
        Ok(())
    }

    fn delete_recommandation(&mut self, reco_id: u128) -> Result<(), ApiError> {
        let id = Uuid::from_u128(reco_id);
        let transaction = self.conn.transaction()?;
        transaction.execute(statements::DELETE_UPVOTES, &[&id])?;
        transaction.execute(statements::DELETE_RECOMMANDATION, &[&id])?;
        transaction.commit()?;
        Ok(())
    }

    fn upvotes_by_recommandation_id(&self, reco_id: u128) -> Result<Vec<u128>, ApiError> {
        let mut statement = self.conn.prepare(statements::UPVOTES_BY_RECOMMANDATION_ID)?;
        let rows = statement.query_map(&[&Uuid::from_u128(reco_id)], |row| {
            Ok(row.get::<_, Uuid>("user_id")?.as_u128())
        })?;
        Ok(rows.collect::<rusqlite::Result<Vec<u128>>>()?)
    }

    fn upvotes_by_recommandation_ids(
        &self,
        statement: &str,
        reco_ids: &[u128],
    ) -> Result<Vec<(u128, u128)>, ApiError> {
        let keys: Vec<Uuid> = reco_ids.iter().map(|id| Uuid::from_u128(*id)).collect();
        let mut statement = self.conn.prepare(statement)?;
        let rows = statement.query_map(keys.iter(), |row| {
            Ok((row.get::<_, Uuid>("reco_id")?.as_u128(), row.get::<_, Uuid>("user_id")?.as_u128()))
        })?;
        Ok(rows.collect::<rusqlite::Result<Vec<(u128, u128)>>>()?)
    }

    fn upvote_by_id(&self, reco_id: u128, user_id: u128) -> Result<i32, ApiError> {
        let params = [Uuid::from_u128(user_id), Uuid::from_u128(reco_id)];
        Ok(self.conn.query_row(statements::UPVOTE_BY_ID, &params, |row| row.get("vote"))?)
    }

    fn recommandation_by_id(&self, reco_id: u128) -> Result<Recommandation, ApiError> {
        let params = [Uuid::from_u128(reco_id)];
        Ok(self.conn.query_row(statements::RECOMMANDATION_BY_ID, &params, row_to_rec)?)
    }

    fn flip_upvote(&self, reco_id: u128, user_id: u128) -> Result<(), ApiError> {
        let params = [Uuid::from_u128(user_id), Uuid::from_u128(reco_id)];
        let changed = self.conn.execute(statements::FLIP_UPVOTE, &params)?;
        statements::flip_outcome(changed)
    }

    fn insert_user(&self, user: &User) -> Result<(), ApiError> {
        let id = Uuid::from_u128(user.id);
        let params: [&dyn ToSql; 2] = [&id, &user.name];
        self.conn.execute(statements::INSERT_USER, &params)?;
        Ok(())
    }

    fn user_by_id(&self, id: u128) -> Result<Option<User>, ApiError> {
        let params = [Uuid::from_u128(id)];
        let found = self
            .conn
            .query_row(statements::USER_BY_ID, &params, |row| {
                Ok(User { id: row.get::<_, Uuid>("id")?.as_u128(), name: row.get("username")? })
            })
            .optional()?;
        Ok(found)
    }
}

struct Numbers(u64);

impl Numbers {
    fn next(&mut self, below: u64) -> u64 {
        self.0 = self.0.wrapping_mul(6364136223846793005).wrapping_add(1442695040888963407);
        (self.0 >> 33) % below
    }
}

fn item(id: u128, creator: u128, round: usize) -> Recommandation {
    Recommandation {
        id,
        name: format!("item {} of round {}", id, round),
        media: (round % 5) as u8,
        created_by: creator,
        link: if round % 2 == 0 { None } else { Some(format!("https://example.org/{}", id)) },
    }
}

fn sorted(mut recos: Vec<Recommandation>) -> Vec<Recommandation> {
    recos.sort_by_key(|reco| reco.id);
    recos
}

fn as_set<T: Ord>(values: Vec<T>) -> BTreeSet<T> {
    let count = values.len();
    let set: BTreeSet<T> = values.into_iter().collect();
    assert_eq!(set.len(), count);
    set
}

fn same_content(db: &Database, disk: &Disk) {
    assert_eq!(
        db.all_recommandations().map(sorted),
        disk.all_recommandations().map(sorted)
    );
    for id in 0..6u128 {
        assert_eq!(db.recommandation_by_id(id), disk.recommandation_by_id(id));
        assert_eq!(
            db.upvotes_by_recommandation_id(id).map(as_set),
            disk.upvotes_by_recommandation_id(id).map(as_set)
        );
        for user in 0..5u128 {
            assert_eq!(db.upvote_by_id(id, user), disk.upvote_by_id(id, user));
            assert_eq!(db.user_by_id(user), disk.user_by_id(user));
        }
    }
}

fn hold_against_the_engine(mut disk: Disk, seed: u64) {
    let mut numbers = Numbers(seed);
    let mut db = Database::open(":memory:").unwrap();
    assert_eq!(db.init(), disk.init());
    for round in 0..1500 {
        let id = numbers.next(6) as u128;
        let user = numbers.next(5) as u128;
        match numbers.next(8) {
            0 | 1 => {
                let new = item(id, user, round);
                assert_eq!(db.create_recommandation(&new), disk.create_recommandation(&new));
            }
            2 => assert_eq!(db.delete_recommandation(id), disk.delete_recommandation(id)),
            3 => {
                let new = User { id: user, name: format!("user of round {}", round) };
                assert_eq!(db.insert_user(&new), disk.insert_user(&new));
            }
            4 => assert_eq!(db.init(), disk.init()),
            _ => assert_eq!(db.flip_upvote(id, user), disk.flip_upvote(id, user)),
        }
        same_content(&db, &disk);
    }
}

#[test]
fn the_statements_do_on_disk_what_the_engine_does() {
    hold_against_the_engine(Disk::open(), 3);
}

#[test]
fn the_statements_do_the_same_with_foreign_keys_enforced() {
    hold_against_the_engine(Disk::open_with_foreign_keys(true), 13);
}

#[test]
fn the_statements_do_the_same_with_foreign_keys_not_enforced() {
    hold_against_the_engine(Disk::open_with_foreign_keys(false), 17);
}

#[test]
fn the_statements_fail_without_schema_as_the_engine_does() {
    let mut db = Database::open(":memory:").unwrap();
    let mut disk = Disk::open();
    let new = item(1, 2, 0);
    let paul = User { id: 2, name: "paul".to_owned() };
    assert_eq!(db.all_recommandations(), disk.all_recommandations());
    assert_eq!(db.create_recommandation(&new), disk.create_recommandation(&new));
    assert_eq!(db.delete_recommandation(1), disk.delete_recommandation(1));
    assert_eq!(db.upvotes_by_recommandation_id(1), disk.upvotes_by_recommandation_id(1));
    assert_eq!(db.upvote_by_id(1, 2), disk.upvote_by_id(1, 2));
    assert_eq!(db.recommandation_by_id(1), disk.recommandation_by_id(1));
    assert_eq!(db.flip_upvote(1, 2), disk.flip_upvote(1, 2));
    assert_eq!(db.insert_user(&paul), disk.insert_user(&paul));
    assert_eq!(db.user_by_id(2), disk.user_by_id(2));
    assert_eq!(db.all_recommandations(), Err(ApiError::Database));
}

#[test]
fn the_batch_statement_reads_what_the_engine_reads() {
    let mut numbers = Numbers(5);
    let mut db = Database::open(":memory:").unwrap();
    let disk = Disk::open();
    assert_eq!(db.init(), disk.init());
    for id in 0..8u128 {
        let new = item(id, 0, id as usize);
        assert_eq!(db.create_recommandation(&new), disk.create_recommandation(&new));
    }
    for _ in 0..60 {
        for _ in 0..numbers.next(5) {
            let id = numbers.next(8) as u128;
            let user = numbers.next(5) as u128;
            assert_eq!(db.flip_upvote(id, user), disk.flip_upvote(id, user));
        }
        let mut in_memory = Loader::new();
        let mut on_disk = Loader::new();
        let keys: Vec<u128> = (0..1 + numbers.next(7)).map(|_| numbers.next(10) as u128).collect();
        in_memory.load_all(&keys);
        on_disk.load_all(&keys);
        in_memory.dispatch(&db);
        let statement = on_disk.batch_statement().unwrap();
        let batch = on_disk.batch().unwrap();
        on_disk.resolve(disk.upvotes_by_recommandation_ids(&statement, &batch));
        assert_eq!(on_disk.storage_calls(), 1);
        for key in keys {
            let expected = in_memory.load(key).unwrap().map(as_set);
            assert_eq!(on_disk.load(key).unwrap().map(as_set), expected);
        }
    }
}

#[test]
fn a_batch_on_a_store_without_schema_fails_for_every_key() {
    let disk = Disk::open();
    let mut loader = Loader::new();
    loader.load_all(&vec![1, 2, 3]);
    let statement = loader.batch_statement().unwrap();
    let batch = loader.batch().unwrap();
    loader.resolve(disk.upvotes_by_recommandation_ids(&statement, &batch));
    for key in [1, 2, 3] {
        assert_eq!(loader.load(key), Some(Err(ApiError::Database)));
    }
}

#[test]
fn a_flip_that_changed_no_row_met_no_item() {
    assert_eq!(statements::flip_outcome(0), Err(ApiError::NotFound));
    assert_eq!(statements::flip_outcome(1), Ok(()));
    assert_eq!(statements::flip_outcome(2), Ok(()));
}
