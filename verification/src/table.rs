use vstd::prelude::*;
use crate::user::{User, UserV};

verus! {

/// One persisted row of the user table.
pub struct UserRow {
    pub id: i32,
    pub name: String,
    pub email: String,
}

/// The mathematical value of a row.
pub ghost struct UserRowV {
    pub id: int,
    pub name: Seq<char>,
    pub email: Seq<char>,
}

impl View for UserRow {
    type V = UserRowV;

    open spec fn view(&self) -> UserRowV {
        UserRowV { id: self.id as int, name: self.name@, email: self.email@ }
    }
}

/// The user a row is read back as: the same fields, with the id present.
pub open spec fn user_of_row(r: UserRowV) -> UserV {
    UserV { id: Some(r.id), name: r.name, email: r.email }
}

/// The rows of `rows` whose id differs from `id`, kept in their original
/// order: the effect of the delete operation on the table's contents.
pub open spec fn remove_id(rows: Seq<UserRowV>, id: int) -> Seq<UserRowV> {
    rows.filter(|r: UserRowV| r.id != id)
}

/// How many rows of `rows` carry the id `id`.
pub open spec fn count_id(rows: Seq<UserRowV>, id: int) -> nat
    decreases rows.len(),
{
    if rows.len() == 0 {
        0
    } else {
        count_id(rows.drop_last(), id) + if rows.last().id == id {
            1nat
        } else {
            0nat
        }
    }
}

/// A model of the `users` table: the persisted rows in their natural order,
/// together with the store's id counter. The store assigns ids itself, one
/// per successful insert, so well-formedness pins the freshness discipline:
/// ids grow strictly along the row order and stay below the counter.
pub struct UserTable {
    rows: Vec<UserRow>,
    next_id: i32,
}

impl View for UserTable {
    type V = Seq<UserRowV>;

    closed spec fn view(&self) -> Seq<UserRowV> {
        self.rows@.map_values(|r: UserRow| r@)
    }
}

impl UserTable {
    /// The id the store will assign to the next inserted row.
    pub closed spec fn spec_next_id(&self) -> int {
        self.next_id as int
    }

    /// Well-formedness: ids start at 1, grow strictly along the row order,
    /// and every assigned id lies below the counter.
    pub closed spec fn wf(&self) -> bool {
        &&& 1 <= self.next_id
        &&& forall|i: int| 0 <= i < self@.len() ==> 1 <= #[trigger] self@[i].id < self.spec_next_id()
        &&& forall|i: int, j: int|
            0 <= i < j < self@.len() ==> #[trigger] self@[i].id < #[trigger] self@[j].id
    }

    /// Whether the counter can still hand out a fresh id.
    pub open spec fn can_insert(&self) -> bool {
        self.spec_next_id() < i32::MAX as int
    }

    /// An empty table, as a fresh store presents it.
    pub fn new() -> (t: UserTable)
        ensures
            t.wf(),
            t@ == Seq::<UserRowV>::empty(),
            t.spec_next_id() == 1,
            t.can_insert(),
    {
        let t = UserTable { rows: Vec::new(), next_id: 1 };
        proof {
            assert(t@ =~= Seq::<UserRowV>::empty());
        }
        t
    }

    /// Inserts a row with the given fields. The store assigns the id: it is
    /// the current counter value, which no existing row carries, and the new
    /// row is appended after the existing ones. Returns the created user,
    /// id included.
    pub fn insert(&mut self, name: String, email: String) -> (u: User)
        requires
            old(self).wf(),
            old(self).can_insert(),
        ensures
            final(self).wf(),
            final(self)@ == old(self)@.push(
                UserRowV { id: old(self).spec_next_id(), name: name@, email: email@ },
            ),
            u@.id == Some(old(self).spec_next_id()),
            u@.name == name@,
            u@.email == email@,
            forall|i: int|
                0 <= i < old(self)@.len() ==> #[trigger] old(self)@[i].id != old(
                    self,
                ).spec_next_id(),
            final(self).spec_next_id() == old(self).spec_next_id() + 1,
    {
        let id: i32 = self.next_id;
        let row = UserRow { id, name: name.clone(), email: email.clone() };
        let ghost prev = self@;
        self.rows.push(row);
        self.next_id = id + 1;
        proof {
            assert(self@ =~= prev.push(
                UserRowV { id: id as int, name: name@, email: email@ },
            ));
        }
        User { id: Some(id), name, email }
    }

    /// Reads every row back as a user, in the table's order.
    pub fn list(&self) -> (users: Vec<User>)
        ensures
            users@.len() == self@.len(),
            forall|i: int| 0 <= i < self@.len() ==> #[trigger] users@[i]@ == user_of_row(self@[i]),
    {
        let mut users: Vec<User> = Vec::new();
        let mut i: usize = 0;
        while i < self.rows.len()
            invariant
                i <= self.rows.len(),
                users@.len() == i,
                self@.len() == self.rows@.len(),
                forall|j: int|
                    0 <= j < i ==> #[trigger] users@[j]@ == user_of_row(self@[j]),
            decreases self.rows.len() - i,
        {
            let r = &self.rows[i];
            let u = User { id: Some(r.id), name: r.name.clone(), email: r.email.clone() };
            users.push(u);
            i = i + 1;
        }
        users
    }

    /// Deletes every row carrying `id` (there is at most one in a
    /// well-formed table) and keeps the rest in order. An id no row
    /// carries leaves the table unchanged: the operation does not
    /// distinguish the two outcomes.
    pub fn delete(&mut self, id: i32)
        requires
            old(self).wf(),
        ensures
            final(self).wf(),
            final(self)@ == remove_id(old(self)@, id as int),
            forall|i: int|
                0 <= i < final(self)@.len() ==> #[trigger] final(self)@[i].id != id as int,
            final(self).spec_next_id() == old(self).spec_next_id(),
    {
        let mut kept: Vec<UserRow> = Vec::new();
        let mut i: usize = 0;
        let n: usize = self.rows.len();
        while i < n
            invariant
                i <= n,
                n == self.rows@.len(),
                *self == *old(self),
                old(self).wf(),
                self@.len() == self.rows@.len(),
                kept@.map_values(|r: UserRow| r@) == remove_id(
                    self@.take(i as int),
                    id as int,
                ),
                forall|k: int|
                    0 <= k < kept@.len() ==> #[trigger] kept@[k]@.id != id as int,
                forall|k: int|
                    0 <= k < kept@.len() ==> 1 <= #[trigger] kept@[k]@.id < self.spec_next_id(),
                forall|k1: int, k2: int|
                    0 <= k1 < k2 < kept@.len() ==> #[trigger] kept@[k1]@.id
                        < #[trigger] kept@[k2]@.id,
                i > 0 && kept@.len() > 0 ==> kept@[kept@.len() - 1]@.id <= self@[i - 1].id,
                i == 0 ==> kept@.len() == 0,
            decreases n - i,
        {
            let ghost prev_kept = kept@;
            let r = &self.rows[i];
            proof {
                assert(self@.take(i as int + 1) =~= self@.take(i as int).push(self@[i as int]));
                lemma_remove_id_push(self@.take(i as int), self@[i as int], id as int);
                assert(self.wf());
                assert(1 <= self@[i as int].id < self.spec_next_id());
            }
            if r.id != id {
                let rc = UserRow { id: r.id, name: r.name.clone(), email: r.email.clone() };
                proof {
                    assert(rc@ == self@[i as int]);
                }
                kept.push(rc);
                proof {
                    assert(kept@.map_values(|rr: UserRow| rr@) =~= prev_kept.map_values(
                        |rr: UserRow| rr@,
                    ).push(self@[i as int]));
                    let m: int = kept@.len() - 1;
                    assert(kept@[m]@ == self@[i as int]);
                    assert forall|k: int| 0 <= k < m implies #[trigger] kept@[k]@.id < kept@[m]@.id by {
                        assert(kept@[k] == prev_kept[k]);
                        assert(i as int > 0);
                        if k < m - 1 {
                            assert(prev_kept[k]@.id < prev_kept[m - 1]@.id);
                        }
                        assert(prev_kept[m - 1]@.id <= self@[i as int - 1].id);
                        assert(self@[i as int - 1].id < self@[i as int].id);
                    }
                }
            }
            i = i + 1;
        }
        proof {
            assert(self@.take(n as int) =~= self@);
        }
        self.rows = kept;
    }
}

/// Unfolding step for `remove_id` over an appended row: the row is kept
/// exactly when its id differs from the deleted one.
pub proof fn lemma_remove_id_push(rows: Seq<UserRowV>, r: UserRowV, id: int)
    ensures
        remove_id(rows.push(r), id) == if r.id != id {
            remove_id(rows, id).push(r)
        } else {
            remove_id(rows, id)
        },
{
    reveal(Seq::filter);
    assert(rows.push(r).drop_last() =~= rows);
    assert(rows.push(r).last() == r);
}

/// A table none of whose rows carries `id` has `count_id` zero for it.
pub proof fn lemma_count_id_zero(rows: Seq<UserRowV>, id: int)
    requires
        forall|i: int| 0 <= i < rows.len() ==> #[trigger] rows[i].id != id,
    ensures
        count_id(rows, id) == 0,
    decreases rows.len(),
{
    if rows.len() > 0 {
        assert(forall|i: int|
            0 <= i < rows.drop_last().len() ==> #[trigger] rows.drop_last()[i].id != id);
        lemma_count_id_zero(rows.drop_last(), id);
    }
}

/// Law: an insert gives the table exactly one row with the freshly assigned
/// id, and touches the count of no other id. The premise — no existing row
/// carries the new id — is exactly what `insert` ensures of a well-formed
/// table.
pub proof fn lemma_insert_unique_id(rows: Seq<UserRowV>, row: UserRowV)
    requires
        forall|i: int| 0 <= i < rows.len() ==> #[trigger] rows[i].id != row.id,
    ensures
        count_id(rows.push(row), row.id) == 1,
        forall|x: int|
            x != row.id ==> #[trigger] count_id(rows.push(row), x) == count_id(rows, x),
{
    assert(rows.push(row).drop_last() =~= rows);
    assert(rows.push(row).last() == row);
    lemma_count_id_zero(rows, row.id);
    assert forall|x: int| x != row.id implies #[trigger] count_id(rows.push(row), x)
        == count_id(rows, x) by {
        assert(rows.push(row).drop_last() =~= rows);
    }
}

/// Law: an insert followed by a listing shows exactly one new user: one
/// with the freshly assigned id, carrying the inserted name and email, at
/// exactly one position. The first premise — no existing row carries the
/// new id — is what `insert` ensures of a well-formed table; the others are
/// what `list` ensures of the table after the insert.
pub proof fn lemma_insert_then_list(rows: Seq<UserRowV>, row: UserRowV, users: Seq<UserV>)
    requires
        forall|i: int| 0 <= i < rows.len() ==> #[trigger] rows[i].id != row.id,
        users.len() == rows.push(row).len(),
        forall|i: int|
            0 <= i < users.len() ==> #[trigger] users[i] == user_of_row(rows.push(row)[i]),
    ensures
        exists|i: int|
            0 <= i < users.len() && #[trigger] users[i].id == Some(row.id) && users[i].name
                == row.name && users[i].email == row.email,
        forall|i: int, j: int|
            0 <= i < users.len() && 0 <= j < users.len() && #[trigger] users[i].id == Some(row.id)
                && #[trigger] users[j].id == Some(row.id) ==> i == j,
{
    let last = users.len() - 1;
    assert(rows.push(row)[last] == row);
    assert(users[last].id == Some(row.id) && users[last].name == row.name && users[last].email
        == row.email);
    assert forall|i: int|
        0 <= i < users.len() && #[trigger] users[i].id == Some(row.id) implies i == last by {
        if i < last {
            assert(users[i] == user_of_row(rows.push(row)[i]));
            assert(rows.push(row)[i] == rows[i]);
            assert(rows[i].id != row.id);
        }
    }
}

/// Law: after a delete of `id`, a listing of the table contains no user
/// with that id. The first premise is what `delete` ensures of the new
/// table; the others are what `list` ensures.
pub proof fn lemma_delete_then_list(rows: Seq<UserRowV>, id: int, users: Seq<UserV>)
    requires
        forall|i: int| 0 <= i < rows.len() ==> #[trigger] rows[i].id != id,
        users.len() == rows.len(),
        forall|i: int| 0 <= i < users.len() ==> #[trigger] users[i] == user_of_row(rows[i]),
    ensures
        forall|i: int| 0 <= i < users.len() ==> #[trigger] users[i].id != Some(id),
{
}

/// Law: after a delete, no remaining row carries the deleted id — a
/// subsequent list can no longer contain that user.
pub proof fn lemma_remove_id_removes(rows: Seq<UserRowV>, id: int)
    ensures
        forall|i: int|
            0 <= i < remove_id(rows, id).len() ==> #[trigger] remove_id(rows, id)[i].id != id,
        count_id(remove_id(rows, id), id) == 0,
{
    assert forall|i: int|
        0 <= i < remove_id(rows, id).len() implies #[trigger] remove_id(rows, id)[i].id
        != id by {
        rows.lemma_filter_pred(|r: UserRowV| r.id != id, i);
    }
    lemma_count_id_zero(remove_id(rows, id), id);
}

/// Law: deleting an id that no row carries — one never inserted, or already
/// deleted — leaves the table's contents unchanged.
pub proof fn lemma_delete_absent_is_noop(rows: Seq<UserRowV>, id: int)
    requires
        forall|i: int| 0 <= i < rows.len() ==> #[trigger] rows[i].id != id,
    ensures
        remove_id(rows, id) == rows,
    decreases rows.len(),
{
    reveal(Seq::filter);
    if rows.len() == 0 {
        assert(remove_id(rows, id) =~= rows);
    } else {
        assert(forall|i: int|
            0 <= i < rows.drop_last().len() ==> #[trigger] rows.drop_last()[i].id != id);
        lemma_delete_absent_is_noop(rows.drop_last(), id);
        assert(remove_id(rows, id) =~= rows.drop_last().push(rows.last()));
        assert(rows.drop_last().push(rows.last()) =~= rows);
    }
}

/// Law: in a well-formed table no two rows share an id — every successful
/// insert received a distinct one.
pub proof fn lemma_wf_ids_distinct(t: &UserTable)
    requires
        t.wf(),
    ensures
        forall|i: int, j: int|
            0 <= i < t@.len() && 0 <= j < t@.len() && i != j ==> #[trigger] t@[i].id
                != #[trigger] t@[j].id,
{
}

} // verus!
