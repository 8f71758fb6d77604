//! The batched loader of one request.
//!
//! While the items of a list are rendered, each of them asks for its voters.
//! A [`Loader`] takes these questions as they come, keeps each key once, and
//! has them all answered by one read of the storage. What it has learnt it
//! keeps for as long as it lives, so a key that is asked for again costs no
//! read. It lives for one request and is never shared between two.
use crate::database::Database;
use crate::errors::{ApiError, ApiResult};
use crate::tables::{voters, votes_on, Tables, Upvote};
use vstd::prelude::*;

verus! {

/// The voters of `key` among the pairs of item and voter that a batch read.
pub open spec fn voters_in(rows: Seq<(u128, u128)>, key: u128) -> Seq<u128>
    decreases rows.len(),
{
    if rows.len() == 0 {
        Seq::empty()
    } else {
        let before = voters_in(rows.drop_last(), key);
        if rows.last().0 == key {
            before.push(rows.last().1)
        } else {
            before
        }
    }
}

/// What a key is resolved to by the outcome of its batch: its own voters
/// where the batch was read, and the failure of the batch where it was not.
pub open spec fn answer(outcome: Result<Seq<(u128, u128)>, ApiError>, key: u128) -> Result<
    Seq<u128>,
    ApiError,
> {
    match outcome {
        Ok(rows) => Ok(voters_in(rows, key)),
        Err(error) => Err(error),
    }
}

/// What one read of the store answers to a batch of keys.
pub open spec fn fetched(tables: Tables, keys: Seq<u128>) -> Result<Seq<(u128, u128)>, ApiError> {
    if tables.ready {
        Ok(votes_on(tables.upvotes, keys))
    } else {
        Err(ApiError::Database)
    }
}

/// The placeholders of a statement for `keys` keys: one mark for each,
/// separated by commas.
pub open spec fn marks(keys: nat) -> Seq<char>
    decreases keys,
{
    if keys == 0 {
        Seq::empty()
    } else if keys == 1 {
        seq!['?']
    } else {
        marks((keys - 1) as nat) + seq![',', ' ', '?']
    }
}

/// The one statement that reads the voters of `keys` items.
pub open spec fn batch_statement_text(keys: nat) -> Seq<char> {
    "SELECT reco_id, user_id FROM upvotes WHERE vote=1 AND reco_id IN ("@ + marks(keys) + seq![')']
}

/// The state of a loader: the keys that wait for the next batch, what the
/// keys of earlier batches were resolved to, and how often the storage was read.
pub struct Batches {
    pub pending: Seq<u128>,
    pub resolved: Map<u128, Result<Seq<u128>, ApiError>>,
    pub calls: nat,
}

impl Batches {
    /// The state of a loader at the start of a request.
    pub open spec fn fresh() -> Batches {
        Batches { pending: Seq::empty(), resolved: Map::empty(), calls: 0 }
    }

    /// No key waits twice, and no key waits that is resolved already.
    pub open spec fn wf(self) -> bool {
        &&& self.pending.no_duplicates()
        &&& forall|key: u128| self.pending.contains(key) ==> !self.resolved.contains_key(key)
    }

    /// What the loader knows of `key` without asking the storage.
    pub open spec fn known(self, key: u128) -> Option<Result<Seq<u128>, ApiError>> {
        if self.resolved.contains_key(key) {
            Some(self.resolved[key])
        } else {
            None
        }
    }

    /// The state after `key` is asked for: a key that is neither resolved
    /// nor waiting joins the keys that wait.
    pub open spec fn load(self, key: u128) -> Batches {
        if self.resolved.contains_key(key) || self.pending.contains(key) {
            self
        } else {
            Batches { pending: self.pending.push(key), ..self }
        }
    }

    /// The state after each of `keys` is asked for, in turn.
    pub open spec fn load_all(self, keys: Seq<u128>) -> Batches
        decreases keys.len(),
    {
        if keys.len() == 0 {
            self
        } else {
            self.load_all(keys.drop_last()).load(keys.last())
        }
    }

    /// The state after the voters of `key` are fetched from a store that
    /// holds `tables`: a key that is known costs nothing and changes
    /// nothing; any other key joins the waiting keys, and all of them are
    /// read in one batch.
    pub open spec fn fetch(self, tables: Tables, key: u128) -> Batches {
        if self.known(key) is Some {
            self
        } else {
            self.load(key).resolve(fetched(tables, self.load(key).pending))
        }
    }

    /// The state after the batch of the waiting keys came back with
    /// `outcome`. Where no key waits there is no batch, and nothing changes.
    pub open spec fn resolve(self, outcome: Result<Seq<(u128, u128)>, ApiError>) -> Batches {
        if self.pending.len() == 0 {
            self
        } else {
            Batches {
                pending: Seq::empty(),
                resolved: Map::new(
                    |key: u128| self.resolved.contains_key(key) || self.pending.contains(key),
                    |key: u128|
                        if self.pending.contains(key) {
                            answer(outcome, key)
                        } else {
                            self.resolved[key]
                        },
                ),
                calls: self.calls + 1,
            }
        }
    }
}

/// The outcome of a key as a mathematical value.
pub open spec fn outcome_of(outcome: ApiResult<Vec<u128>>) -> Result<Seq<u128>, ApiError> {
    match outcome {
        Ok(users) => Ok(users@),
        Err(error) => Err(error),
    }
}

/// The outcome of a batch as a mathematical value.
pub open spec fn rows_of(outcome: ApiResult<Vec<(u128, u128)>>) -> Result<
    Seq<(u128, u128)>,
    ApiError,
> {
    match outcome {
        Ok(rows) => Ok(rows@),
        Err(error) => Err(error),
    }
}

/// One resolved key.
struct Resolved {
    key: u128,
    outcome: ApiResult<Vec<u128>>,
}

/// The resolved keys as a map from key to outcome.
spec fn resolved_map(entries: Seq<Resolved>) -> Map<u128, Result<Seq<u128>, ApiError>>
    decreases entries.len(),
{
    if entries.len() == 0 {
        Map::empty()
    } else {
        resolved_map(entries.drop_last()).insert(
            entries.last().key,
            outcome_of(entries.last().outcome),
        )
    }
}

/// No key is resolved twice.
spec fn resolved_once(entries: Seq<Resolved>) -> bool
    decreases entries.len(),
{
    entries.len() == 0 || (resolved_once(entries.drop_last()) && !resolved_map(
        entries.drop_last(),
    ).contains_key(entries.last().key))
}

/// Each entry is what the map holds under its key, and the map holds nothing else.
proof fn lemma_resolved_map(entries: Seq<Resolved>)
    requires
        resolved_once(entries),
    ensures
        forall|i: int|
            0 <= i < entries.len() ==> resolved_map(entries).contains_key(
                (#[trigger] entries[i]).key,
            ) && resolved_map(entries)[entries[i].key] == outcome_of(entries[i].outcome),
        forall|key: u128| #[trigger]
            resolved_map(entries).contains_key(key) ==> exists|i: int|
                0 <= i < entries.len() && (#[trigger] entries[i]).key == key,
    decreases entries.len(),
{
    if entries.len() > 0 {
        let before = entries.drop_last();
        lemma_resolved_map(before);
        assert forall|i: int| 0 <= i < entries.len() implies resolved_map(entries).contains_key(
            (#[trigger] entries[i]).key,
        ) && resolved_map(entries)[entries[i].key] == outcome_of(entries[i].outcome) by {
            if i < before.len() {
                assert(before[i] == entries[i]);
            }
        }
        assert forall|key: u128| #[trigger]
            resolved_map(entries).contains_key(key) implies exists|i: int|
            0 <= i < entries.len() && (#[trigger] entries[i]).key == key by {
            if key == entries.last().key {
                assert(entries[entries.len() - 1].key == key);
            } else {
                assert(resolved_map(before).contains_key(key));
                let i = choose|i: int| 0 <= i < before.len() && (#[trigger] before[i]).key == key;
                assert(entries[i].key == key);
            }
        }
    }
}

/// The loader of one request.
pub struct Loader {
    pending: Vec<u128>,
    resolved: Vec<Resolved>,
    calls: usize,
}

impl View for Loader {
    type V = Batches;

    closed spec fn view(&self) -> Batches {
        Batches {
            pending: self.pending@,
            resolved: resolved_map(self.resolved@),
            calls: self.calls as nat,
        }
    }
}

impl Loader {
    /// Whether the loader is in order: its state is, and it has read the
    /// storage no more often than it has resolved keys.
    pub closed spec fn wf(&self) -> bool {
        &&& self@.wf()
        &&& resolved_once(self.resolved@)
        &&& self.calls <= self.resolved.len()
    }

    /// The state of a loader that is in order is in order, so that the laws
    /// of [`Batches`] hold of it.
    pub proof fn lemma_state_is_in_order(&self)
        requires
            self.wf(),
        ensures
            self@.wf(),
    {
    }

    /// A loader for a new request: it knows nothing and has read nothing.
    pub fn new() -> (loader: Loader)
        ensures
            loader@ == Batches::fresh(),
            loader.wf(),
    {
        Loader { pending: Vec::new(), resolved: Vec::new(), calls: 0 }
    }

    /// How often the storage was read for this loader.
    pub fn storage_calls(&self) -> (calls: usize)
        ensures
            calls == self@.calls,
    {
        self.calls
    }

    /// Where the outcome of `key` is kept.
    fn resolved_position(&self, key: u128) -> (at: Option<usize>)
        requires
            self.wf(),
        ensures
            match at {
                Some(i) => {
                    &&& i < self.resolved.len()
                    &&& self.resolved[i as int].key == key
                    &&& self@.resolved.contains_key(key)
                    &&& self@.resolved[key] == outcome_of(self.resolved[i as int].outcome)
                },
                None => !self@.resolved.contains_key(key),
            },
    {
        proof {
            lemma_resolved_map(self.resolved@);
        }
        let mut i: usize = 0;
        while i < self.resolved.len()
            invariant
                self.wf(),
                i <= self.resolved.len(),
                forall|k: int| 0 <= k < i ==> (#[trigger] self.resolved[k]).key != key,
            decreases self.resolved.len() - i,
        {
            if self.resolved[i].key == key {
                proof {
                    lemma_resolved_map(self.resolved@);
                }
                return Some(i);
            }
            i += 1;
        }
        None
    }

    /// Asks for the voters of `key`.
    ///
    /// A key that was resolved is answered at once, with what its batch
    /// made of it, and the loader does not change. Any other key waits for
    /// the next batch, once however often it is asked for, and the answer
    /// is `None` for now.
    pub fn load(&mut self, key: u128) -> (known: Option<ApiResult<Vec<u128>>>)
        requires
            old(self).wf(),
        ensures
            final(self).wf(),
            final(self)@ == old(self)@.load(key),
            match known {
                Some(outcome) => old(self)@.known(key) == Some(outcome_of(outcome)),
                None => old(self)@.known(key) is None,
            },
    {
        match self.resolved_position(key) {
            Some(i) => {
                let outcome = match &self.resolved[i].outcome {
                    Ok(users) => Ok(copy_ids(users)),
                    Err(error) => Err(*error),
                };
                Some(outcome)
            },
            None => {
                if !crate::database::contains_id(&self.pending, key) {
                    self.pending.push(key);
                    proof {
                        let before = old(self)@.pending;
                        let after = self@.pending;
                        assert forall|i: int, j: int|
                            0 <= i < after.len() && 0 <= j < after.len() && i != j implies after[i]
                            != after[j] by {
                            if i < before.len() && j < before.len() {
                                assert(before[i] != before[j]);
                            } else {
                                let k = if i < before.len() { i } else { j };
                                assert(before.contains(before[k]));
                            }
                        }
                        assert forall|other: u128|
                            after.contains(other) implies !self@.resolved.contains_key(other) by {
                            let k = after.index_of(other);
                            if k < before.len() {
                                assert(before.contains(before[k]));
                            }
                        }
                    }
                }
                None
            },
        }
    }

    /// Asks for the voters of each of `keys`, in turn, as [`Loader::load`]
    /// does for one, without waiting for an answer.
    pub fn load_all(&mut self, keys: &Vec<u128>)
        requires
            old(self).wf(),
        ensures
            final(self).wf(),
            final(self)@ == old(self)@.load_all(keys@),
    {
        let mut i: usize = 0;
        while i < keys.len()
            invariant
                i <= keys.len(),
                self.wf(),
                self@ == old(self)@.load_all(keys@.take(i as int)),
            decreases keys.len() - i,
        {
            assert(keys@.take(i + 1).drop_last() == keys@.take(i as int));
            let _ = self.load(keys[i]);
            i += 1;
        }
        assert(keys@.take(i as int) == keys@);
    }

    /// The voters of `key`, from what the loader keeps or, for a key that
    /// it does not know yet, from a read of `db`.
    ///
    /// A key that was resolved is answered without a read. For any other
    /// key the waiting keys, this one among them, are read in one batch.
    pub fn fetch(&mut self, db: &Database, key: u128) -> (found: ApiResult<Vec<u128>>)
        requires
            old(self).wf(),
        ensures
            final(self).wf(),
            final(self)@ == old(self)@.fetch(db@, key),
            final(self)@.known(key) == Some(outcome_of(found)),
            old(self)@.known(key) is None ==> final(self)@.calls == old(self)@.calls + 1
                && outcome_of(found) == if db@.ready {
                Ok::<Seq<u128>, ApiError>(voters(db@.upvotes, key))
            } else {
                Err(ApiError::Database)
            },
    {
        match self.load(key) {
            Some(outcome) => {
                return outcome;
            },
            None => {},
        }
        proof {
            let waiting = self@.pending;
            if !old(self)@.pending.contains(key) {
                assert(waiting[waiting.len() - 1] == key);
            }
            assert(waiting.contains(key));
        }
        self.dispatch(db);
        self.load(key).unwrap()
    }

    /// The keys of the next batch, each once, in the order in which they
    /// were first asked for; `None` where no key waits, so that no batch is
    /// ever read for nothing.
    pub fn batch(&self) -> (keys: Option<Vec<u128>>)
        ensures
            match keys {
                Some(keys) => keys@ == self@.pending && keys@.len() > 0,
                None => self@.pending.len() == 0,
            },
    {
        if self.pending.len() == 0 {
            None
        } else {
            Some(copy_ids(&self.pending))
        }
    }

    /// The statement that reads the next batch: one placeholder for each
    /// key that waits. `None` where no key waits.
    pub fn batch_statement(&self) -> (statement: Option<String>)
        ensures
            match statement {
                Some(text) => self@.pending.len() > 0 && text@ == batch_statement_text(
                    self@.pending.len(),
                ),
                None => self@.pending.len() == 0,
            },
    {
        let keys = self.pending.len();
        if keys == 0 {
            return None;
        }
        let mut text = String::from_str(
            "SELECT reco_id, user_id FROM upvotes WHERE vote=1 AND reco_id IN (",
        );
        let ghost head = text@;
        proof {
            reveal_strlit("?");
            reveal_strlit(", ?");
            reveal_strlit(")");
        }
        text.append("?");
        assert(text@ == head + marks(1));
        let mut i: usize = 1;
        while i < keys
            invariant
                1 <= i <= keys,
                text@ == head + marks(i as nat),
            decreases keys - i,
        {
            proof {
                reveal_strlit(", ?");
            }
            text.append(", ?");
            i += 1;
            assert(text@ == head + marks(i as nat));
        }
        text.append(")");
        Some(text)
    }

    /// Takes the outcome of the batch of the waiting keys.
    ///
    /// `outcome` is what the one read of the storage gave: the pairs of
    /// item and voter for the keys of the batch, or the failure of the
    /// read. Every waiting key is resolved, to its own voters or, all
    /// alike, to that failure, and no key waits any longer. The read is
    /// counted. Where no key waited, no read was due, and nothing changes.
    pub fn resolve(&mut self, outcome: ApiResult<Vec<(u128, u128)>>)
        requires
            old(self).wf(),
        ensures
            final(self).wf(),
            final(self)@ == old(self)@.resolve(rows_of(outcome)),
    {
        let keys = self.pending.len();
        if keys == 0 {
            return ;
        }
        let ghost start = self@;
        let ghost held = self.resolved@.len();
        let mut i: usize = 0;
        while i < keys
            invariant
                0 < keys,
                i <= keys,
                keys == self.pending.len(),
                self.pending@ == start.pending,
                self.calls == start.calls,
                start.wf(),
                self.calls <= held,
                self.resolved@.len() == held + i,
                resolved_once(self.resolved@),
                forall|key: u128| #[trigger]
                    resolved_map(self.resolved@).contains_key(key) <==> start.resolved.contains_key(
                        key,
                    ) || start.pending.take(i as int).contains(key),
                forall|key: u128|
                    start.resolved.contains_key(key) ==> #[trigger] resolved_map(
                        self.resolved@,
                    )[key] == start.resolved[key],
                forall|key: u128|
                    start.pending.take(i as int).contains(key) ==> #[trigger] resolved_map(
                        self.resolved@,
                    )[key] == answer(rows_of(outcome), key),
            decreases keys - i,
        {
            let key = self.pending[i];
            let entry = match &outcome {
                Ok(rows) => Ok(voters_among(rows, key)),
                Err(error) => Err(*error),
            };
            proof {
                let waiting = start.pending;
                let taken = waiting.take(i as int);
                let more = waiting.take(i + 1);
                assert(waiting.contains(key));
                if taken.contains(key) {
                    let k = taken.index_of(key);
                    assert(waiting[k] == waiting[i as int]);
                }
                assert(more == taken.push(key));
                assert forall|other: u128| more.contains(other) <==> taken.contains(other) || other
                    == key by {
                    if more.contains(other) {
                        let k = more.index_of(other);
                        if k < i {
                            assert(taken[k] == other);
                        }
                    }
                    if taken.contains(other) {
                        let k = taken.index_of(other);
                        assert(more[k] == other);
                    }
                    if other == key {
                        assert(more[i as int] == other);
                    }
                }
                assert(outcome_of(entry) == answer(rows_of(outcome), key));
            }
            let ghost before = self.resolved@;
            self.resolved.push(Resolved { key, outcome: entry });
            proof {
                assert(self.resolved@.drop_last() == before);
                assert(self.resolved@.last().key == key);
                assert(outcome_of(self.resolved@.last().outcome) == outcome_of(entry));
                assert(resolved_map(self.resolved@) == resolved_map(before).insert(
                    key,
                    outcome_of(entry),
                ));
            }
            i += 1;
        }
        assert(self.calls < self.resolved.len());
        self.pending = Vec::new();
        self.calls = self.calls + 1;
        proof {
            assert(start.pending.take(keys as int) == start.pending);
            assert(self@.resolved =~= start.resolve(rows_of(outcome)).resolved);
        }
    }

    /// Has the waiting keys answered by one read of `db`, if any key waits.
    ///
    /// After it no key waits, and each key that did is resolved to what the
    /// store holds for it: the voters that a read for this key alone would
    /// give, or the failure of the read.
    pub fn dispatch(&mut self, db: &Database)
        requires
            old(self).wf(),
        ensures
            final(self).wf(),
            final(self)@ == old(self)@.resolve(fetched(db@, old(self)@.pending)),
            forall|key: u128|
                old(self)@.pending.contains(key) ==> #[trigger] final(self)@.known(key) == Some(
                    if db@.ready {
                        Ok::<Seq<u128>, ApiError>(voters(db@.upvotes, key))
                    } else {
                        Err(ApiError::Database)
                    },
                ),
    {
        if self.pending.len() == 0 {
            return ;
        }
        proof {
            lemma_batch_answers(db@.upvotes, self@.pending);
        }
        let outcome = db.upvotes_by_recommandation_ids(&self.pending);
        self.resolve(outcome);
    }
}

/// A copy of a list of identifiers.
fn copy_ids(ids: &Vec<u128>) -> (copy: Vec<u128>)
    ensures
        copy@ == ids@,
{
    let mut copy: Vec<u128> = Vec::new();
    let mut i: usize = 0;
    while i < ids.len()
        invariant
            i <= ids.len(),
            copy@ == ids@.take(i as int),
        decreases ids.len() - i,
    {
        copy.push(ids[i]);
        assert(ids@.take(i + 1) == ids@.take(i as int).push(ids@[i as int]));
        i += 1;
    }
    assert(ids@.take(i as int) == ids@);
    copy
}

/// The voters of `key` among the pairs that a batch read.
fn voters_among(rows: &Vec<(u128, u128)>, key: u128) -> (users: Vec<u128>)
    ensures
        users@ == voters_in(rows@, key),
{
    let mut users: Vec<u128> = Vec::new();
    let mut i: usize = 0;
    while i < rows.len()
        invariant
            i <= rows.len(),
            users@ == voters_in(rows@.take(i as int), key),
        decreases rows.len() - i,
    {
        assert(rows@.take(i + 1).drop_last() == rows@.take(i as int));
        if rows[i].0 == key {
            users.push(rows[i].1);
        }
        i += 1;
    }
    assert(rows@.take(i as int) == rows@);
    users
}

/// One read for a batch answers each of its keys as a read for that key
/// alone would.
pub proof fn lemma_batch_answers(upvotes: Seq<Upvote>, keys: Seq<u128>)
    ensures
        forall|key: u128|
            keys.contains(key) ==> #[trigger] voters_in(votes_on(upvotes, keys), key) == voters(
                upvotes,
                key,
            ),
    decreases upvotes.len(),
{
    if upvotes.len() > 0 {
        let before = upvotes.drop_last();
        let last = upvotes.last();
        lemma_batch_answers(before, keys);
        assert forall|key: u128| keys.contains(key) implies #[trigger] voters_in(
            votes_on(upvotes, keys),
            key,
        ) == voters(upvotes, key) by {
            assert(voters_in(votes_on(before, keys), key) == voters(before, key));
            if keys.contains(last.reco_id) && last.vote {
                let rows = votes_on(upvotes, keys);
                assert(rows.drop_last() == votes_on(before, keys));
                assert(rows.last() == (last.reco_id, last.user_id));
            }
        }
    }
}

/// What asking for keys does to a loader: it reads nothing and forgets
/// nothing, and afterwards exactly those keys wait that waited before or
/// were asked for without being resolved.
pub proof fn lemma_load_all(start: Batches, keys: Seq<u128>)
    requires
        start.wf(),
    ensures
        start.load_all(keys).wf(),
        start.load_all(keys).calls == start.calls,
        start.load_all(keys).resolved == start.resolved,
        forall|key: u128| #[trigger]
            start.load_all(keys).pending.contains(key) <==> start.pending.contains(key) || (
            keys.contains(key) && !start.resolved.contains_key(key)),
        start.pending.len() == 0 && start.resolved == Map::<
            u128,
            Result<Seq<u128>, ApiError>,
        >::empty() && keys.no_duplicates() ==> start.load_all(keys).pending == keys,
    decreases keys.len(),
{
    if keys.len() > 0 {
        let earlier = keys.drop_last();
        let last = keys.last();
        let before = start.load_all(earlier);
        let after = start.load_all(keys);
        lemma_load_all(start, earlier);
        assert forall|key: u128| #[trigger]
            after.pending.contains(key) <==> start.pending.contains(key) || (keys.contains(key)
                && !start.resolved.contains_key(key)) by {
            if keys.contains(key) && key != last {
                let k = keys.index_of(key);
                assert(earlier[k] == key);
            }
            if earlier.contains(key) {
                let k = earlier.index_of(key);
                assert(keys[k] == key);
            }
            assert(keys[keys.len() - 1] == last);
            if after.pending.contains(key) && !before.pending.contains(key) {
                let k = after.pending.index_of(key);
                if k < before.pending.len() {
                    assert(before.pending[k] == key);
                }
            }
            if before.pending.contains(key) {
                let k = before.pending.index_of(key);
                assert(after.pending[k] == key);
            }
            if key == last && after.pending != before.pending {
                assert(after.pending[before.pending.len() as int] == key);
            }
        }
        if after.pending != before.pending {
            assert forall|i: int, j: int|
                0 <= i < after.pending.len() && 0 <= j < after.pending.len() && i
                    != j implies after.pending[i] != after.pending[j] by {
                if i < before.pending.len() && j < before.pending.len() {
                    assert(before.pending[i] != before.pending[j]);
                } else {
                    let k = if i < before.pending.len() { i } else { j };
                    assert(before.pending.contains(before.pending[k]));
                }
            }
        }
        if start.pending.len() == 0 && start.resolved == Map::<
            u128,
            Result<Seq<u128>, ApiError>,
        >::empty() && keys.no_duplicates() {
            assert(earlier.no_duplicates());
            if earlier.contains(last) {
                let k = earlier.index_of(last);
                assert(keys[k] == keys[keys.len() - 1]);
            }
            assert(after.pending == keys);
        }
    }
}

/// However many keys are asked for, and however often each, the storage is
/// read once for all of them, and not at all where none of them is new.
/// Asking alone reads nothing. After the read no key waits, every key that
/// was asked for is known, and to ask for it again changes nothing: it is
/// answered from what the loader keeps, without another read.
pub proof fn law_one_read_per_batch(
    start: Batches,
    keys: Seq<u128>,
    outcome: Result<Seq<(u128, u128)>, ApiError>,
    later: Result<Seq<(u128, u128)>, ApiError>,
)
    requires
        start.wf(),
    ensures
        start.load_all(keys).calls == start.calls,
        start.load_all(keys).resolve(outcome).wf(),
        start.load_all(keys).resolve(outcome).calls == start.calls + (if start.load_all(
            keys,
        ).pending.len() > 0 {
            1nat
        } else {
            0nat
        }),
        start.load_all(keys).resolve(outcome).pending.len() == 0,
        start.load_all(keys).resolve(outcome).resolve(later) == start.load_all(keys).resolve(
            outcome,
        ),
        forall|key: u128|
            keys.contains(key) ==> (#[trigger] start.load_all(keys).resolve(outcome).known(key))
                is Some && start.load_all(keys).resolve(outcome).load(key) == start.load_all(
                keys,
            ).resolve(outcome),
        start == Batches::fresh() && keys.no_duplicates() ==> start.load_all(keys).pending == keys,
        start == Batches::fresh() && keys.len() > 0 ==> start.load_all(keys).resolve(outcome).calls
            == 1,
{
    lemma_load_all(start, keys);
    let queued = start.load_all(keys);
    let done = queued.resolve(outcome);
    assert forall|key: u128| keys.contains(key) implies (#[trigger] done.known(key)) is Some
        && done.load(key) == done by {
        assert(queued.pending.contains(key) || start.resolved.contains_key(key));
    }
    if start == Batches::fresh() && keys.len() > 0 {
        assert(keys.contains(keys[0]));
        assert(queued.pending.contains(keys[0]));
    }
}

/// When the keys of a list have been asked for, the voters of all of them
/// cost one read: the first fetch of a key that is not known yet reads
/// them all, and every later fetch of one of the keys changes nothing.
pub proof fn law_a_list_is_read_once(
    start: Batches,
    tables: Tables,
    keys: Seq<u128>,
    first: u128,
    later: u128,
)
    requires
        start.wf(),
        keys.contains(first),
        keys.contains(later),
    ensures
        start.load_all(keys).calls == start.calls,
        start.load_all(keys).fetch(tables, first).calls == start.calls + (if start.known(first)
            is None {
            1nat
        } else {
            0nat
        }),
        start.known(first) is None ==> start.load_all(keys).fetch(tables, first).fetch(
            tables,
            later,
        ) == start.load_all(keys).fetch(tables, first),
        start.known(first) is None ==> start.load_all(keys).fetch(tables, first).known(first)
            == Some(
            if tables.ready {
                Ok::<Seq<u128>, ApiError>(voters(tables.upvotes, first))
            } else {
                Err(ApiError::Database)
            },
        ),
{
    lemma_load_all(start, keys);
    let queued = start.load_all(keys);
    if start.known(first) is None {
        assert(queued.pending.contains(first));
        assert(queued.load(first) == queued);
        assert(queued.pending.len() > 0);
        let read = queued.fetch(tables, first);
        assert(queued.pending.contains(later) || start.resolved.contains_key(later));
        assert(read.known(later) is Some);
        lemma_batch_answers(tables.upvotes, queued.pending);
    }
}

/// A batch that fails resolves every key that waited for it to the same
/// failure, and leaves alone what earlier batches resolved.
pub proof fn law_failure_reaches_every_key(state: Batches, error: ApiError)
    requires
        state.wf(),
    ensures
        forall|key: u128|
            state.pending.contains(key) ==> #[trigger] state.resolve(Err(error)).known(key) == Some(
                Err::<Seq<u128>, ApiError>(error),
            ),
        forall|key: u128|
            state.resolved.contains_key(key) ==> #[trigger] state.resolve(Err(error)).known(key)
                == state.known(key),
{
    assert forall|key: u128| state.pending.contains(key) implies #[trigger] state.resolve(
        Err(error),
    ).known(key) == Some(Err::<Seq<u128>, ApiError>(error)) by {
        assert(state.pending.len() > 0);
    }
}

} // verus!
