//! The tables of the store as a mathematical model: the rows of items,
//! principals and votes, what the schema demands of them, and what each
//! operation of the storage engine makes of them.
use crate::models::{Recommandation, User};
use vstd::prelude::*;

verus! {

/// One row of the votes table: whether a principal has voted for an item.
///
/// A pair without a row has not voted; a row whose flag is off remembers
/// that the principal once voted and took the vote back.
#[derive(Clone, Copy, Debug, PartialEq, Eq, Structural)]
pub struct Upvote {
    pub user_id: u128,
    pub reco_id: u128,
    pub vote: bool,
}

/// The content of a store: its rows, in the order of the tables.
pub struct Tables {
    /// Whether the schema is in place.
    pub ready: bool,
    /// Whether the store journals its writes ahead.
    pub wal: bool,
    pub recommandations: Seq<Recommandation>,
    pub upvotes: Seq<Upvote>,
    pub users: Seq<User>,
}

/// The principals who vote for `reco_id`, in the order of their rows.
pub open spec fn voters(upvotes: Seq<Upvote>, reco_id: u128) -> Seq<u128>
    decreases upvotes.len(),
{
    if upvotes.len() == 0 {
        Seq::empty()
    } else {
        let before = voters(upvotes.drop_last(), reco_id);
        let row = upvotes.last();
        if row.reco_id == reco_id && row.vote {
            before.push(row.user_id)
        } else {
            before
        }
    }
}

/// The rows that are left when every vote on `reco_id` is removed.
pub open spec fn votes_without(upvotes: Seq<Upvote>, reco_id: u128) -> Seq<Upvote>
    decreases upvotes.len(),
{
    if upvotes.len() == 0 {
        Seq::empty()
    } else {
        let before = votes_without(upvotes.drop_last(), reco_id);
        let row = upvotes.last();
        if row.reco_id == reco_id {
            before
        } else {
            before.push(row)
        }
    }
}

/// The pairs of item and voter, for the items among `reco_ids`, in the order of the rows.
pub open spec fn votes_on(upvotes: Seq<Upvote>, reco_ids: Seq<u128>) -> Seq<(u128, u128)>
    decreases upvotes.len(),
{
    if upvotes.len() == 0 {
        Seq::empty()
    } else {
        let before = votes_on(upvotes.drop_last(), reco_ids);
        let row = upvotes.last();
        if reco_ids.contains(row.reco_id) && row.vote {
            before.push((row.reco_id, row.user_id))
        } else {
            before
        }
    }
}

/// The rows after the vote of `user_id` on `reco_id` is flipped: a row that
/// is there changes its flag, and a pair without a row gets one with the flag on.
pub open spec fn flipped(upvotes: Seq<Upvote>, reco_id: u128, user_id: u128) -> Seq<Upvote> {
    let on = Upvote { user_id, reco_id, vote: true };
    let off = Upvote { user_id, reco_id, vote: false };
    if upvotes.contains(on) {
        upvotes.update(upvotes.index_of(on), off)
    } else if upvotes.contains(off) {
        upvotes.update(upvotes.index_of(off), on)
    } else {
        upvotes.push(on)
    }
}

/// Whether the rows say that `user_id` votes for `reco_id`: the pair has a
/// row, and its flag is on.
pub open spec fn voted(upvotes: Seq<Upvote>, reco_id: u128, user_id: u128) -> bool {
    upvotes.contains(Upvote { user_id, reco_id, vote: true })
}

/// The rows after each of `users`, in turn, has flipped a vote on `reco_id`.
pub open spec fn flipped_by_all(upvotes: Seq<Upvote>, reco_id: u128, users: Seq<u128>) -> Seq<
    Upvote,
>
    decreases users.len(),
{
    if users.len() == 0 {
        upvotes
    } else {
        flipped(flipped_by_all(upvotes, reco_id, users.drop_last()), reco_id, users.last())
    }
}

/// Whether one of the items is stored under `id`.
pub open spec fn holds_reco(recos: Seq<Recommandation>, id: u128) -> bool {
    exists|i: int| 0 <= i < recos.len() && (#[trigger] recos[i]).id == id
}

/// The row of the item stored under `id`, where there is one.
pub open spec fn reco_at(recos: Seq<Recommandation>, id: u128) -> int {
    choose|i: int| 0 <= i < recos.len() && (#[trigger] recos[i]).id == id
}

/// Whether one of the principals is stored under `id`.
pub open spec fn holds_user(users: Seq<User>, id: u128) -> bool {
    exists|i: int| 0 <= i < users.len() && (#[trigger] users[i]).id == id
}

/// The row of the principal stored under `id`, where there is one.
pub open spec fn user_at(users: Seq<User>, id: u128) -> int {
    choose|i: int| 0 <= i < users.len() && (#[trigger] users[i]).id == id
}

/// No two items share an identifier.
pub open spec fn distinct_recos(recos: Seq<Recommandation>) -> bool {
    forall|i: int, j: int|
        0 <= i < j < recos.len() ==> (#[trigger] recos[i]).id != (#[trigger] recos[j]).id
}

/// No two principals share an identifier.
pub open spec fn distinct_users(users: Seq<User>) -> bool {
    forall|i: int, j: int|
        0 <= i < j < users.len() ==> (#[trigger] users[i]).id != (#[trigger] users[j]).id
}

/// Whether two vote rows are about the same pair of item and principal.
pub open spec fn same_pair(a: Upvote, b: Upvote) -> bool {
    a.reco_id == b.reco_id && a.user_id == b.user_id
}

/// No pair of item and principal has two vote rows.
pub open spec fn distinct_votes(upvotes: Seq<Upvote>) -> bool {
    forall|i: int, j: int|
        0 <= i < j < upvotes.len() ==> !same_pair(#[trigger] upvotes[i], #[trigger] upvotes[j])
}

/// Every vote row is on one of the items.
pub open spec fn votes_on_stored(upvotes: Seq<Upvote>, recos: Seq<Recommandation>) -> bool {
    forall|i: int| 0 <= i < upvotes.len() ==> holds_reco(recos, (#[trigger] upvotes[i]).reco_id)
}

impl Tables {
    /// The store before its schema is created: nothing in it.
    pub open spec fn empty() -> Tables {
        Tables {
            ready: false,
            wal: false,
            recommandations: Seq::empty(),
            upvotes: Seq::empty(),
            users: Seq::empty(),
        }
    }

    /// Whether an item is stored under `id`.
    pub open spec fn has_reco(self, id: u128) -> bool {
        holds_reco(self.recommandations, id)
    }

    /// The item stored under `id`, where there is one.
    pub open spec fn reco(self, id: u128) -> Recommandation {
        self.recommandations[reco_at(self.recommandations, id)]
    }

    /// Whether a principal is stored under `id`.
    pub open spec fn has_user(self, id: u128) -> bool {
        holds_user(self.users, id)
    }

    /// The principal stored under `id`, where there is one.
    pub open spec fn user(self, id: u128) -> User {
        self.users[user_at(self.users, id)]
    }

    /// Whether `user_id` currently votes for `reco_id`.
    pub open spec fn vote(self, reco_id: u128, user_id: u128) -> bool {
        voted(self.upvotes, reco_id, user_id)
    }

    /// The invariant of the schema: identifiers are unique in their table,
    /// a pair of item and principal has at most one vote row, and every
    /// vote row is on a stored item.
    pub open spec fn wf(self) -> bool {
        &&& distinct_recos(self.recommandations)
        &&& distinct_users(self.users)
        &&& distinct_votes(self.upvotes)
        &&& votes_on_stored(self.upvotes, self.recommandations)
    }

    /// The store once its schema is created: the rows are kept.
    pub open spec fn initialised(self) -> Tables {
        Tables { ready: true, wal: true, ..self }
    }

    /// The store with one more item.
    pub open spec fn with_reco(self, reco: Recommandation) -> Tables {
        Tables { recommandations: self.recommandations.push(reco), ..self }
    }

    /// The store with one more principal.
    pub open spec fn with_user(self, user: User) -> Tables {
        Tables { users: self.users.push(user), ..self }
    }

    /// The store without the item `id` and without the votes on it.
    pub open spec fn without_reco(self, id: u128) -> Tables {
        Tables {
            recommandations: if self.has_reco(id) {
                self.recommandations.remove(reco_at(self.recommandations, id))
            } else {
                self.recommandations
            },
            upvotes: votes_without(self.upvotes, id),
            ..self
        }
    }

    /// The store after the vote of `user_id` on `reco_id` is flipped.
    pub open spec fn with_flipped(self, reco_id: u128, user_id: u128) -> Tables {
        Tables { upvotes: flipped(self.upvotes, reco_id, user_id), ..self }
    }
}

/// Creating the schema a second time changes nothing, and creating it at
/// all changes no row.
pub proof fn law_init_is_idempotent(tables: Tables)
    ensures
        tables.initialised().initialised() == tables.initialised(),
        tables.initialised().ready,
        tables.initialised().wal,
        tables.initialised().recommandations == tables.recommandations,
        tables.initialised().upvotes == tables.upvotes,
        tables.initialised().users == tables.users,
        tables.wf() ==> tables.initialised().wf(),
{
}

/// Nobody votes for an item of which no vote row speaks.
pub proof fn lemma_no_rows_no_voters(upvotes: Seq<Upvote>, reco_id: u128)
    requires
        forall|i: int| 0 <= i < upvotes.len() ==> (#[trigger] upvotes[i]).reco_id != reco_id,
    ensures
        voters(upvotes, reco_id) == Seq::<u128>::empty(),
    decreases upvotes.len(),
{
    if upvotes.len() > 0 {
        let before = upvotes.drop_last();
        assert forall|i: int| 0 <= i < before.len() implies (#[trigger] before[i]).reco_id
            != reco_id by {
            assert(upvotes[i].reco_id != reco_id);
        }
        lemma_no_rows_no_voters(before, reco_id);
        assert(upvotes[upvotes.len() - 1].reco_id != reco_id);
    }
}

/// An item that is created under a free identifier is found under it as it
/// was stored, and starts without a vote. Every other item and every vote
/// is as before, and the schema's invariant is kept.
pub proof fn law_a_new_item_has_no_votes(tables: Tables, reco: Recommandation)
    requires
        tables.wf(),
        !tables.has_reco(reco.id),
    ensures
        tables.with_reco(reco).wf(),
        tables.with_reco(reco).has_reco(reco.id),
        tables.with_reco(reco).reco(reco.id) == reco,
        voters(tables.with_reco(reco).upvotes, reco.id) == Seq::<u128>::empty(),
        forall|user_id: u128| !#[trigger] tables.with_reco(reco).vote(reco.id, user_id),
        forall|other: u128|
            other != reco.id ==> #[trigger] tables.with_reco(reco).has_reco(other)
                == tables.has_reco(other),
        forall|other: u128|
            tables.has_reco(other) ==> #[trigger] tables.with_reco(reco).reco(other)
                == tables.reco(other),
        tables.with_reco(reco).upvotes == tables.upvotes,
{
    let after = tables.with_reco(reco);
    let recos = tables.recommandations;
    let more = after.recommandations;
    let end = recos.len() as int;
    assert(more[end] == reco);
    assert forall|i: int, j: int| 0 <= i < j < more.len() implies (#[trigger] more[i]).id != (
    #[trigger] more[j]).id by {
        if j < end {
            assert(recos[i].id != recos[j].id);
        } else {
            assert(recos[i].id != reco.id);
        }
    }
    assert forall|i: int| 0 <= i < after.upvotes.len() implies holds_reco(
        more,
        (#[trigger] after.upvotes[i]).reco_id,
    ) by {
        let k = reco_at(recos, tables.upvotes[i].reco_id);
        assert(more[k].id == tables.upvotes[i].reco_id);
    }
    assert(reco_at(more, reco.id) == end) by {
        let k = reco_at(more, reco.id);
        if k < end {
            assert(recos[k].id == reco.id);
        }
    }
    assert forall|other: u128| other != reco.id implies #[trigger] holds_reco(more, other)
        == holds_reco(recos, other) by {
        if holds_reco(recos, other) {
            let k = reco_at(recos, other);
            assert(more[k].id == other);
        }
        if holds_reco(more, other) {
            let k = reco_at(more, other);
            assert(recos[k].id == other);
        }
    }
    assert forall|other: u128| tables.has_reco(other) implies #[trigger] after.reco(other)
        == tables.reco(other) by {
        let k = reco_at(recos, other);
        assert(more[k].id == other);
        let m = reco_at(more, other);
        assert(more[m].id == other);
        if m < k {
            assert(more[m].id != more[k].id);
        } else if k < m {
            assert(more[k].id != more[m].id);
        }
    }
    assert forall|i: int| 0 <= i < tables.upvotes.len() implies (#[trigger] tables.upvotes[i]).reco_id
        != reco.id by {
        assert(holds_reco(recos, tables.upvotes[i].reco_id));
    }
    lemma_no_rows_no_voters(tables.upvotes, reco.id);
    assert forall|user_id: u128| !#[trigger] after.vote(reco.id, user_id) by {
        let row = Upvote { user_id, reco_id: reco.id, vote: true };
        if after.upvotes.contains(row) {
            let k = after.upvotes.index_of(row);
            assert(tables.upvotes[k].reco_id != reco.id);
        }
    }
}

/// What is left of the votes when an item goes: the rows on the other
/// items, each of them and nothing else.
pub proof fn lemma_votes_without(upvotes: Seq<Upvote>, reco_id: u128)
    ensures
        forall|row: Upvote| #[trigger]
            votes_without(upvotes, reco_id).contains(row) <==> upvotes.contains(row) && row.reco_id
                != reco_id,
        distinct_votes(upvotes) ==> distinct_votes(votes_without(upvotes, reco_id)),
        voters(votes_without(upvotes, reco_id), reco_id) == Seq::<u128>::empty(),
        forall|other: u128|
            other != reco_id ==> #[trigger] voters(votes_without(upvotes, reco_id), other)
                == voters(upvotes, other),
    decreases upvotes.len(),
{
    let kept = votes_without(upvotes, reco_id);
    if upvotes.len() == 0 {
    } else {
        let before = upvotes.drop_last();
        let last = upvotes.last();
        let kept_before = votes_without(before, reco_id);
        lemma_votes_without(before, reco_id);
        assert forall|row: Upvote| #[trigger]
            kept.contains(row) <==> upvotes.contains(row) && row.reco_id != reco_id by {
            if kept.contains(row) {
                let k = kept.index_of(row);
                if last.reco_id != reco_id && k == kept_before.len() {
                    assert(upvotes[upvotes.len() - 1] == row);
                } else {
                    assert(kept_before[k] == row);
                    assert(kept_before.contains(row));
                    let m = before.index_of(row);
                    assert(upvotes[m] == row);
                }
            }
            if upvotes.contains(row) && row.reco_id != reco_id {
                let m = upvotes.index_of(row);
                if m == upvotes.len() - 1 {
                    assert(kept[kept_before.len() as int] == row);
                } else {
                    assert(before[m] == row);
                    assert(before.contains(row));
                    assert(kept_before.contains(row));
                    let k = kept_before.index_of(row);
                    assert(kept[k] == row);
                }
            }
        }
        if distinct_votes(upvotes) {
            assert(distinct_votes(before)) by {
                assert forall|i: int, j: int| 0 <= i < j < before.len() implies !same_pair(
                    #[trigger] before[i],
                    #[trigger] before[j],
                ) by {
                    assert(!same_pair(upvotes[i], upvotes[j]));
                }
            }
            assert forall|i: int, j: int| 0 <= i < j < kept.len() implies !same_pair(
                #[trigger] kept[i],
                #[trigger] kept[j],
            ) by {
                if j < kept_before.len() {
                    assert(!same_pair(kept_before[i], kept_before[j]));
                } else {
                    assert(kept_before.contains(kept_before[i]));
                    let m = before.index_of(kept_before[i]);
                    assert(!same_pair(upvotes[m], upvotes[upvotes.len() - 1]));
                }
            }
        }
        if last.reco_id != reco_id {
            assert(kept.drop_last() == kept_before);
        }
        assert forall|other: u128| other != reco_id implies #[trigger] voters(kept, other)
            == voters(upvotes, other) by {
            assert(voters(kept_before, other) == voters(before, other));
            if last.reco_id != reco_id {
                assert(kept.drop_last() == kept_before);
                assert(kept.last() == last);
            }
        }
    }
}

/// An item that is deleted takes its votes along: afterwards neither the
/// item nor a vote on it is stored, while every other item is there as it
/// was, with the voters it had. The schema's invariant is kept. Deleting
/// an identifier under which nothing is stored changes no item.
pub proof fn law_delete_takes_the_votes_along(tables: Tables, reco_id: u128)
    requires
        tables.wf(),
    ensures
        tables.without_reco(reco_id).wf(),
        !tables.without_reco(reco_id).has_reco(reco_id),
        voters(tables.without_reco(reco_id).upvotes, reco_id) == Seq::<u128>::empty(),
        forall|user_id: u128| !#[trigger] tables.without_reco(reco_id).vote(reco_id, user_id),
        forall|other: u128|
            other != reco_id ==> #[trigger] tables.without_reco(reco_id).has_reco(other)
                == tables.has_reco(other),
        forall|other: u128|
            other != reco_id && tables.has_reco(other) ==> #[trigger] tables.without_reco(
                reco_id,
            ).reco(other) == tables.reco(other),
        forall|other: u128|
            other != reco_id ==> #[trigger] voters(tables.without_reco(reco_id).upvotes, other)
                == voters(tables.upvotes, other),
        !tables.has_reco(reco_id) ==> tables.without_reco(reco_id).recommandations
            == tables.recommandations,
{
    let after = tables.without_reco(reco_id);
    let recos = tables.recommandations;
    let left = after.recommandations;
    lemma_votes_without(tables.upvotes, reco_id);
    assert forall|user_id: u128| !#[trigger] after.vote(reco_id, user_id) by {
        let row = Upvote { user_id, reco_id, vote: true };
        assert(voted(after.upvotes, reco_id, user_id) == after.upvotes.contains(row));
    }
    if tables.has_reco(reco_id) {
        let at = reco_at(recos, reco_id);
        assert forall|i: int, j: int| 0 <= i < j < left.len() implies (#[trigger] left[i]).id != (
        #[trigger] left[j]).id by {
            let a = if i < at { i } else { i + 1 };
            let b = if j < at { j } else { j + 1 };
            assert(recos[a].id != recos[b].id);
        }
        assert forall|other: u128| other != reco_id implies #[trigger] holds_reco(left, other)
            == holds_reco(recos, other) by {
            if holds_reco(recos, other) {
                let k = reco_at(recos, other);
                let m = if k < at { k } else { k - 1 };
                assert(left[m].id == other);
            }
            if holds_reco(left, other) {
                let m = reco_at(left, other);
                let k = if m < at { m } else { m + 1 };
                assert(recos[k].id == other);
            }
        }
        if holds_reco(left, reco_id) {
            let m = reco_at(left, reco_id);
            let k = if m < at { m } else { m + 1 };
            assert(recos[k].id == reco_id);
            assert(recos[at].id == reco_id);
            if k < at {
                assert(recos[k].id != recos[at].id);
            } else {
                assert(recos[at].id != recos[k].id);
            }
        }
        assert forall|other: u128|
            other != reco_id && holds_reco(recos, other) implies #[trigger] after.reco(other)
            == tables.reco(other) by {
            let k = reco_at(recos, other);
            assert(holds_reco(left, other));
            let m = reco_at(left, other);
            let back = if m < at { m } else { m + 1 };
            assert(recos[back].id == other);
            assert(recos[k].id == other);
            if back < k {
                assert(recos[back].id != recos[k].id);
            } else if k < back {
                assert(recos[k].id != recos[back].id);
            }
        }
    }
    assert forall|i: int| 0 <= i < after.upvotes.len() implies holds_reco(
        left,
        (#[trigger] after.upvotes[i]).reco_id,
    ) by {
        let row = after.upvotes[i];
        assert(after.upvotes.contains(row));
        let m = tables.upvotes.index_of(row);
        assert(holds_reco(recos, tables.upvotes[m].reco_id));
    }
}

/// Flipping a vote on a stored item keeps the schema's invariant.
pub proof fn lemma_flipped_keeps_schema(tables: Tables, reco_id: u128, user_id: u128)
    requires
        tables.wf(),
        tables.has_reco(reco_id),
    ensures
        tables.with_flipped(reco_id, user_id).wf(),
{
    let rows = tables.upvotes;
    let after = flipped(rows, reco_id, user_id);
    lemma_flipped(rows, reco_id, user_id);
    assert forall|i: int| 0 <= i < after.len() implies holds_reco(
        tables.recommandations,
        (#[trigger] after[i]).reco_id,
    ) by {
        if i < rows.len() {
            assert(holds_reco(tables.recommandations, rows[i].reco_id));
        }
    }
}

/// What a flip does to the votes: the flag of the pair is negated, the flag
/// of every other pair is kept, and no pair gets a second row.
pub proof fn lemma_flipped(upvotes: Seq<Upvote>, reco_id: u128, user_id: u128)
    requires
        distinct_votes(upvotes),
    ensures
        distinct_votes(flipped(upvotes, reco_id, user_id)),
        voted(flipped(upvotes, reco_id, user_id), reco_id, user_id) == !voted(
            upvotes,
            reco_id,
            user_id,
        ),
        forall|r: u128, u: u128|
            !(r == reco_id && u == user_id) ==> #[trigger] voted(
                flipped(upvotes, reco_id, user_id),
                r,
                u,
            ) == voted(upvotes, r, u),
{
    let after = flipped(upvotes, reco_id, user_id);
    let on = Upvote { user_id, reco_id, vote: true };
    let off = Upvote { user_id, reco_id, vote: false };
    if upvotes.contains(on) || upvotes.contains(off) {
        let at = if upvotes.contains(on) {
            upvotes.index_of(on)
        } else {
            upvotes.index_of(off)
        };
        assert forall|i: int, j: int| 0 <= i < j < after.len() implies !same_pair(
            #[trigger] after[i],
            #[trigger] after[j],
        ) by {
            assert(!same_pair(upvotes[i], upvotes[j]));
        }
        if after.contains(on) && upvotes.contains(on) {
            let k = after.index_of(on);
            if k < at {
                assert(!same_pair(upvotes[k], upvotes[at]));
            } else if at < k {
                assert(!same_pair(upvotes[at], upvotes[k]));
            }
        }
        if !upvotes.contains(on) {
            assert(after[at] == on);
        }
    } else {
        assert forall|i: int, j: int| 0 <= i < j < after.len() implies !same_pair(
            #[trigger] after[i],
            #[trigger] after[j],
        ) by {
            if j < upvotes.len() {
                assert(!same_pair(upvotes[i], upvotes[j]));
            } else if same_pair(upvotes[i], on) {
                if upvotes[i].vote {
                    assert(upvotes[i] == on);
                } else {
                    assert(upvotes[i] == off);
                }
            }
        }
        assert(after[upvotes.len() as int] == on);
    }
    assert forall|r: u128, u: u128| !(r == reco_id && u == user_id) implies #[trigger] voted(
        after,
        r,
        u,
    ) == voted(upvotes, r, u) by {
        let row = Upvote { user_id: u, reco_id: r, vote: true };
        if after.contains(row) {
            let k = after.index_of(row);
            assert(upvotes[k] == row);
        }
        if upvotes.contains(row) {
            let k = upvotes.index_of(row);
            assert(after[k] == row);
        }
    }
}

/// The list of voters holds each voter once, and nobody else.
pub proof fn lemma_voters(upvotes: Seq<Upvote>, reco_id: u128)
    requires
        distinct_votes(upvotes),
    ensures
        voters(upvotes, reco_id).no_duplicates(),
        forall|u: u128| #[trigger]
            voters(upvotes, reco_id).contains(u) <==> voted(upvotes, reco_id, u),
    decreases upvotes.len(),
{
    let list = voters(upvotes, reco_id);
    if upvotes.len() == 0 {
    } else {
        let before = upvotes.drop_last();
        let last = upvotes.last();
        let list_before = voters(before, reco_id);
        assert(distinct_votes(before)) by {
            assert forall|i: int, j: int| 0 <= i < j < before.len() implies !same_pair(
                #[trigger] before[i],
                #[trigger] before[j],
            ) by {
                assert(!same_pair(upvotes[i], upvotes[j]));
            }
        }
        lemma_voters(before, reco_id);
        let counts = last.reco_id == reco_id && last.vote;
        assert forall|u: u128| #[trigger] list.contains(u) <==> voted(upvotes, reco_id, u) by {
            let row = Upvote { user_id: u, reco_id, vote: true };
            if list.contains(u) {
                let k = list.index_of(u);
                if counts && k == list_before.len() {
                    assert(upvotes[upvotes.len() - 1] == row);
                } else {
                    assert(list_before[k] == u);
                    assert(list_before.contains(u));
                    assert(voted(before, reco_id, u));
                    let m = before.index_of(row);
                    assert(upvotes[m] == row);
                }
            }
            if upvotes.contains(row) {
                let m = upvotes.index_of(row);
                if m == upvotes.len() - 1 {
                    assert(list[list_before.len() as int] == u);
                } else {
                    assert(before[m] == row);
                    assert(voted(before, reco_id, u));
                    assert(list_before.contains(u));
                    let k = list_before.index_of(u);
                    assert(list[k] == u);
                }
            }
        }
        if counts {
            assert forall|i: int, j: int|
                0 <= i < list.len() && 0 <= j < list.len() && i != j implies list[i] != list[j] by {
                if i < list_before.len() && j < list_before.len() {
                    assert(list_before[i] != list_before[j]);
                } else {
                    let k = if i < list_before.len() { i } else { j };
                    let u = list_before[k];
                    assert(list_before.contains(u));
                    assert(voted(before, reco_id, u));
                    let m = before.index_of(Upvote { user_id: u, reco_id, vote: true });
                    assert(!same_pair(upvotes[m], upvotes[upvotes.len() - 1]));
                }
            }
        }
    }
}

/// A vote flipped twice is back where it was: the flag of the pair, the
/// flag of every other pair, and the voters of every item are as before
/// the two flips. One flip alone negates the flag of the pair.
pub proof fn law_flip_twice(tables: Tables, reco_id: u128, user_id: u128)
    requires
        tables.wf(),
    ensures
        tables.with_flipped(reco_id, user_id).vote(reco_id, user_id) == !tables.vote(
            reco_id,
            user_id,
        ),
        forall|r: u128, u: u128| #[trigger]
            tables.with_flipped(reco_id, user_id).with_flipped(reco_id, user_id).vote(r, u)
                == tables.vote(r, u),
        forall|r: u128| #[trigger]
            voters(
                tables.with_flipped(reco_id, user_id).with_flipped(reco_id, user_id).upvotes,
                r,
            ) == voters(tables.upvotes, r),
{
    let rows = tables.upvotes;
    let once = flipped(rows, reco_id, user_id);
    let twice = flipped(once, reco_id, user_id);
    let on = Upvote { user_id, reco_id, vote: true };
    let off = Upvote { user_id, reco_id, vote: false };
    lemma_flipped(rows, reco_id, user_id);
    lemma_flipped(once, reco_id, user_id);
    assert forall|r: u128, u: u128| #[trigger]
        tables.with_flipped(reco_id, user_id).with_flipped(reco_id, user_id).vote(r, u)
            == tables.vote(r, u) by {
        if !(r == reco_id && u == user_id) {
            assert(voted(twice, r, u) == voted(once, r, u));
            assert(voted(once, r, u) == voted(rows, r, u));
        }
    }
    if rows.contains(on) || rows.contains(off) {
        let at = if rows.contains(on) {
            rows.index_of(on)
        } else {
            rows.index_of(off)
        };
        let now = once[at];
        assert(once.contains(now));
        let back = once.index_of(now);
        if back < at {
            assert(!same_pair(once[back], once[at]));
        } else if at < back {
            assert(!same_pair(once[at], once[back]));
        }
        assert(twice == rows);
    } else {
        let end = rows.len() as int;
        assert(once[end] == on);
        let back = once.index_of(on);
        if back < end {
            assert(rows[back] == on);
        }
        assert(twice == rows.push(off));
        assert forall|r: u128| #[trigger] voters(twice, r) == voters(rows, r) by {
            assert(twice.drop_last() == rows);
        }
    }
}

/// Flips by pairwise different principals on one item do not disturb each
/// other: after all of them, in whatever order they were applied, the flag
/// of each of these principals is negated and every other flag is as it was.
/// The voters of the item are then those of the principals whom the flip
/// left voting, and the earlier voters who are none of them; where nobody
/// voted before, they are as many as the principals who flipped.
pub proof fn law_flips_by_distinct_principals(
    upvotes: Seq<Upvote>,
    reco_id: u128,
    users: Seq<u128>,
    reordered: Seq<u128>,
)
    requires
        distinct_votes(upvotes),
        users.no_duplicates(),
        reordered.no_duplicates(),
        reordered.to_set() == users.to_set(),
    ensures
        distinct_votes(flipped_by_all(upvotes, reco_id, users)),
        forall|u: u128|
            users.contains(u) ==> #[trigger] voted(
                flipped_by_all(upvotes, reco_id, users),
                reco_id,
                u,
            ) == !voted(upvotes, reco_id, u),
        forall|r: u128, u: u128|
            !(r == reco_id && users.contains(u)) ==> #[trigger] voted(
                flipped_by_all(upvotes, reco_id, users),
                r,
                u,
            ) == voted(upvotes, r, u),
        forall|r: u128, u: u128| #[trigger]
            voted(flipped_by_all(upvotes, reco_id, reordered), r, u) == voted(
                flipped_by_all(upvotes, reco_id, users),
                r,
                u,
            ),
        voters(flipped_by_all(upvotes, reco_id, users), reco_id).len() == users.to_set().intersect(
            voters(flipped_by_all(upvotes, reco_id, users), reco_id).to_set(),
        ).len() + voters(upvotes, reco_id).to_set().difference(users.to_set()).len(),
        voters(upvotes, reco_id).len() == 0 ==> voters(
            flipped_by_all(upvotes, reco_id, users),
            reco_id,
        ).len() == users.len(),
{
    broadcast use vstd::seq_lib::seq_to_set_is_finite;

    let after = flipped_by_all(upvotes, reco_id, users);
    lemma_flipped_by_all(upvotes, reco_id, users);
    lemma_flipped_by_all(upvotes, reco_id, reordered);
    assert forall|r: u128, u: u128| #[trigger]
        voted(flipped_by_all(upvotes, reco_id, reordered), r, u) == voted(after, r, u) by {
        assert(reordered.contains(u) == reordered.to_set().contains(u));
        assert(users.contains(u) == users.to_set().contains(u));
    }
    lemma_voters(upvotes, reco_id);
    lemma_voters(after, reco_id);
    let now = voters(after, reco_id).to_set();
    let then = voters(upvotes, reco_id).to_set();
    let flippers = users.to_set();
    voters(after, reco_id).unique_seq_to_set();
    assert(now =~= flippers.intersect(now) + then.difference(flippers)) by {
        assert forall|u: u128| now.contains(u) <==> (flippers.intersect(now) + then.difference(
            flippers,
        )).contains(u) by {
            assert(voters(after, reco_id).contains(u) == voted(after, reco_id, u));
            assert(voters(upvotes, reco_id).contains(u) == voted(upvotes, reco_id, u));
            assert(users.contains(u) == flippers.contains(u));
        }
    }
    vstd::set_lib::lemma_len_intersect(flippers, now);
    vstd::set_lib::lemma_len_difference(then, flippers);
    vstd::set_lib::lemma_len_subset(flippers.intersect(now), flippers);
    vstd::set_lib::lemma_len_subset(then.difference(flippers), then);
    vstd::set_lib::lemma_set_disjoint_lens(flippers.intersect(now), then.difference(flippers));
    if voters(upvotes, reco_id).len() == 0 {
        assert(now =~= flippers) by {
            assert forall|u: u128| now.contains(u) <==> flippers.contains(u) by {
                assert(voters(after, reco_id).contains(u) == voted(after, reco_id, u));
                assert(voters(upvotes, reco_id).contains(u) == voted(upvotes, reco_id, u));
                assert(users.contains(u) == flippers.contains(u));
            }
        }
        users.unique_seq_to_set();
    }
}

/// What a round of flips does, one principal after the other.
pub proof fn lemma_flipped_by_all(upvotes: Seq<Upvote>, reco_id: u128, users: Seq<u128>)
    requires
        distinct_votes(upvotes),
        users.no_duplicates(),
    ensures
        distinct_votes(flipped_by_all(upvotes, reco_id, users)),
        forall|u: u128|
            users.contains(u) ==> #[trigger] voted(
                flipped_by_all(upvotes, reco_id, users),
                reco_id,
                u,
            ) == !voted(upvotes, reco_id, u),
        forall|r: u128, u: u128|
            !(r == reco_id && users.contains(u)) ==> #[trigger] voted(
                flipped_by_all(upvotes, reco_id, users),
                r,
                u,
            ) == voted(upvotes, r, u),
    decreases users.len(),
{
    if users.len() == 0 {
    } else {
        let earlier = users.drop_last();
        let last = users.last();
        let before = flipped_by_all(upvotes, reco_id, earlier);
        let after = flipped_by_all(upvotes, reco_id, users);
        assert(earlier.no_duplicates());
        lemma_flipped_by_all(upvotes, reco_id, earlier);
        lemma_flipped(before, reco_id, last);
        assert(!earlier.contains(last)) by {
            if earlier.contains(last) {
                let k = earlier.index_of(last);
                assert(users[k] == users[users.len() - 1]);
            }
        }
        assert forall|u: u128| users.contains(u) implies #[trigger] voted(after, reco_id, u)
            == !voted(upvotes, reco_id, u) by {
            if u == last {
                assert(voted(before, reco_id, u) == voted(upvotes, reco_id, u));
            } else {
                let k = users.index_of(u);
                assert(earlier[k] == u);
                assert(earlier.contains(u));
                assert(voted(after, reco_id, u) == voted(before, reco_id, u));
            }
        }
        assert forall|r: u128, u: u128|
            !(r == reco_id && users.contains(u)) implies #[trigger] voted(after, r, u) == voted(
            upvotes,
            r,
            u,
        ) by {
            if r == reco_id && earlier.contains(u) {
                let k = earlier.index_of(u);
                assert(users[k] == u);
            }
            if r == reco_id && u == last {
                assert(users[users.len() - 1] == u);
            }
            assert(voted(after, r, u) == voted(before, r, u));
            assert(voted(before, r, u) == voted(upvotes, r, u));
        }
    }
}


} // verus!
