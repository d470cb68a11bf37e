use vstd::prelude::*;
use crate::dispatch::{reply_of, Call, Outcome, Status};
use crate::json::{models, user_json, users_json, users_json_items};
use crate::models::UserModel;
use crate::wire::{ascii_bytes, has_prefix, selector_of, Selector};

verus! {

broadcast use {vstd::seq_lib::group_filter_ensures, vstd::seq_lib::group_to_multiset_ensures};

/// The state of the users table: its rows, and the identifier that the next
/// insert will be given.
pub struct Table {
    pub rows: Seq<UserModel>,
    pub next_id: int,
}

/// Identifiers start at one; every row has one below `next_id`, and no two
/// rows share one.
pub open spec fn table_wf(t: Table) -> bool {
    &&& 1 <= t.next_id
    &&& forall|i: int|
        0 <= i < t.rows.len() ==> ((#[trigger] t.rows[i]).id matches Some(x) && x < t.next_id)
    &&& forall|i: int, j: int|
        0 <= i < t.rows.len() && 0 <= j < t.rows.len() && i != j ==> #[trigger] t.rows[i].id
            != #[trigger] t.rows[j].id
}

/// Some row has identifier `id`.
pub open spec fn has_id(t: Table, id: i32) -> bool {
    exists|i: int| 0 <= i < t.rows.len() && #[trigger] t.rows[i].id == Some(id)
}

/// The row that an update of record `id` leaves in place of `r`.
pub open spec fn updated(r: UserModel, id: i32, name: Seq<char>, email: Seq<char>) -> UserModel {
    if r.id == Some(id) {
        UserModel { id: r.id, name, email }
    } else {
        r
    }
}

/// The rows that a delete of record `id` leaves.
pub open spec fn without_id(rows: Seq<UserModel>, id: i32) -> Seq<UserModel> {
    rows.filter(|r: UserModel| r.id != Some(id))
}

/// What the table may do on a call: go from `t` to `t2` and report `o`.
/// Any call may fail, leaving the table as it was.
pub open spec fn performs(t: Table, c: Call, t2: Table, o: Outcome) -> bool {
    ||| (o is Failed && t2 == t)
    ||| match c {
        Call::Insert { name, email } => o is Inserted && t.next_id <= i32::MAX && t2 == Table {
            rows: t.rows.push(UserModel { id: Some(t.next_id as i32), name: name@, email: email@ }),
            next_id: t.next_id + 1,
        },
        Call::SelectById { id } => t2 == t && ((o matches Outcome::Row { user } && user.id == Some(
            id,
        ) && t.rows.contains(user@)) || (o is NoRow && !has_id(t, id))),
        Call::SelectAll => t2 == t && (o matches Outcome::Rows { users } && models(
            users@,
        ).to_multiset() == t.rows.to_multiset()),
        Call::UpdateById { id, name, email } => o is Updated && t2 == Table {
            rows: t.rows.map_values(|r: UserModel| updated(r, id, name@, email@)),
            next_id: t.next_id,
        },
        Call::DeleteById { id } => o matches Outcome::Deleted { count } && t2 == Table {
            rows: without_id(t.rows, id),
            next_id: t.next_id,
        } && count == t.rows.len() - t2.rows.len(),
    }
}

proof fn lemma_without_absent(rows: Seq<UserModel>, id: i32)
    requires
        forall|i: int| 0 <= i < rows.len() ==> #[trigger] rows[i].id != Some(id),
    ensures
        without_id(rows, id) == rows,
    decreases rows.len(),
{
    reveal_with_fuel(Seq::filter, 1);
    if rows.len() > 0 {
        let rest = rows.drop_last();
        assert forall|i: int| 0 <= i < rest.len() implies #[trigger] rest[i].id != Some(id) by {
            assert(rest[i] == rows[i]);
        }
        lemma_without_absent(rest, id);
        assert(rest.push(rows.last()) =~= rows);
    }
}

/// An insert followed by a read of all rows: the read holds exactly one
/// more record than before, with the inserted name and email and an
/// identifier that no earlier row had; the insert is answered with 200.
pub proof fn lemma_create_then_read_all(
    t: Table,
    insert: Call,
    t1: Table,
    o1: Outcome,
    read: Call,
    t2: Table,
    o2: Outcome,
)
    requires
        table_wf(t),
        insert is Insert,
        read is SelectAll,
        performs(t, insert, t1, o1),
        performs(t1, read, t2, o2),
        !(o1 is Failed),
        !(o2 is Failed),
    ensures
        reply_of(insert, o1) == (Status::Success, "user created"@),
        o2 matches Outcome::Rows { users } && models(users@).to_multiset() == t.rows.to_multiset().insert(
            UserModel {
                id: Some(t.next_id as i32),
                name: insert->Insert_name@,
                email: insert->Insert_email@,
            },
        ),
        !has_id(t, t.next_id as i32),
        table_wf(t1),
{
    let new = UserModel {
        id: Some(t.next_id as i32),
        name: insert->Insert_name@,
        email: insert->Insert_email@,
    };
    assert(t1.rows == t.rows.push(new));
    assert(t1.rows.to_multiset() == t.rows.to_multiset().insert(new));
    if has_id(t, t.next_id as i32) {
        let i = choose|i: int| 0 <= i < t.rows.len() && #[trigger] t.rows[i].id == Some(t.next_id as i32);
        assert(t.rows[i].id matches Some(x) && x < t.next_id);
    }
    assert forall|i: int| 0 <= i < t1.rows.len() implies (#[trigger] t1.rows[i]).id matches Some(x)
        && x < t1.next_id by {
        if i < t.rows.len() {
            assert(t1.rows[i] == t.rows[i]);
        }
    }
    assert forall|i: int, j: int|
        0 <= i < t1.rows.len() && 0 <= j < t1.rows.len() && i != j implies #[trigger] t1.rows[i].id
        != #[trigger] t1.rows[j].id by {
        if i < t.rows.len() {
            assert(t1.rows[i] == t.rows[i]);
            assert(t.rows[i].id matches Some(x) && x < t.next_id);
        }
        if j < t.rows.len() {
            assert(t1.rows[j] == t.rows[j]);
            assert(t.rows[j].id matches Some(x) && x < t.next_id);
        }
    }
}

/// An insert followed by a read of the identifier it was given: the read
/// returns that record, with the inserted name and email, as JSON.
pub proof fn lemma_create_then_read_one(
    t: Table,
    insert: Call,
    t1: Table,
    o1: Outcome,
    read: Call,
    t2: Table,
    o2: Outcome,
)
    requires
        table_wf(t),
        insert is Insert,
        read == (Call::SelectById { id: t.next_id as i32 }),
        performs(t, insert, t1, o1),
        performs(t1, read, t2, o2),
        !(o1 is Failed),
        !(o2 is Failed),
    ensures
        o2 matches Outcome::Row { user } && user.id == Some(t.next_id as i32) && user.name@
            == insert->Insert_name@ && user.email@ == insert->Insert_email@ && reply_of(read, o2)
            == (Status::Success, user_json(user@)),
{
    let new = UserModel {
        id: Some(t.next_id as i32),
        name: insert->Insert_name@,
        email: insert->Insert_email@,
    };
    assert(t1.rows == t.rows.push(new));
    assert(t1.rows[t.rows.len() as int] == new);
    assert(t1.rows[t.rows.len() as int].id == Some(t.next_id as i32));
    assert(has_id(t1, t.next_id as i32));
    if let Outcome::Row { user } = o2 {
        let k = choose|k: int| 0 <= k < t1.rows.len() && t1.rows[k] == user@;
        if k < t.rows.len() {
            assert(t1.rows[k] == t.rows[k]);
            assert(t.rows[k].id matches Some(x) && x < t.next_id);
        }
    }
}

/// For an identifier that no row has: reading it or deleting it is answered
/// with 404, while updating it is answered with 200 and changes nothing.
pub proof fn lemma_absent_id(
    t: Table,
    id: i32,
    read: Call,
    t1: Table,
    o1: Outcome,
    delete: Call,
    t2: Table,
    o2: Outcome,
    update: Call,
    t3: Table,
    o3: Outcome,
)
    requires
        !has_id(t, id),
        read == (Call::SelectById { id }),
        delete == (Call::DeleteById { id }),
        update matches Call::UpdateById { id: x, .. } && x == id,
        performs(t, read, t1, o1),
        performs(t, delete, t2, o2),
        performs(t, update, t3, o3),
        !(o1 is Failed),
        !(o2 is Failed),
        !(o3 is Failed),
    ensures
        reply_of(read, o1) == (Status::NotFound, "User not found"@),
        reply_of(delete, o2) == (Status::NotFound, "User not found"@),
        reply_of(update, o3) == (Status::Success, "User updated"@),
        t2 == t,
        t3 == t,
{
    if let Outcome::Row { user } = o1 {
        let k = choose|k: int| 0 <= k < t.rows.len() && t.rows[k] == user@;
        assert(t.rows[k].id == Some(id));
    }
    assert forall|i: int| 0 <= i < t.rows.len() implies #[trigger] t.rows[i].id != Some(id) by {
        if t.rows[i].id == Some(id) {
            assert(has_id(t, id));
        }
    }
    lemma_without_absent(t.rows, id);
    if let Call::UpdateById { id: x, name, email } = update {
        assert(t3.rows =~= t.rows) by {
            assert forall|i: int| 0 <= i < t.rows.len() implies t3.rows[i] == t.rows[i] by {
                assert(t.rows[i].id != Some(id));
            }
        }
    }
}

/// Deleting the same identifier twice: the second delete is answered with
/// 404 and removes nothing.
pub proof fn lemma_delete_twice(
    t: Table,
    id: i32,
    first: Call,
    t1: Table,
    o1: Outcome,
    second: Call,
    t2: Table,
    o2: Outcome,
)
    requires
        first == (Call::DeleteById { id }),
        second == first,
        performs(t, first, t1, o1),
        performs(t1, second, t2, o2),
        !(o1 is Failed),
        !(o2 is Failed),
    ensures
        reply_of(second, o2) == (Status::NotFound, "User not found"@),
        t2 == t1,
{
    assert forall|i: int| 0 <= i < t1.rows.len() implies #[trigger] t1.rows[i].id != Some(id) by {
        let p = |r: UserModel| r.id != Some(id);
        assert(p(t.rows.filter(p)[i]));
    }
    lemma_without_absent(t1.rows, id);
}

/// Reading all rows of an empty table is answered with 200 and an empty
/// JSON array.
pub proof fn lemma_read_all_empty(t: Table, read: Call, t1: Table, o: Outcome)
    requires
        t.rows.len() == 0,
        read is SelectAll,
        performs(t, read, t1, o),
        !(o is Failed),
    ensures
        reply_of(read, o) == (Status::Success, "[]"@),
{
    if let Outcome::Rows { users } = o {
        assert(t.rows.to_multiset().len() == 0);
        assert(models(users@).to_multiset().len() == models(users@).len());
        assert(models(users@).len() == 0);
        assert(models(users@) =~= Seq::<UserModel>::empty());
        assert(users_json_items(models(users@)) =~= Seq::<char>::empty());
        reveal_strlit("[");
        reveal_strlit("]");
        reveal_strlit("[]");
        assert(users_json(models(users@)) =~= "[]"@);
    }
}

/// A request that starts with `GET /users/` reads one record, whatever
/// follows the slash, and never reads all of them.
pub proof fn lemma_trailing_slash_reads_one(r: Seq<u8>)
    requires
        has_prefix(r, ascii_bytes("GET /users/"@)),
    ensures
        selector_of(r) == Selector::ReadOne,
{
    reveal_strlit("GET /users/");
    reveal_strlit("POST /users");
    assert(r[0] == ascii_bytes("GET /users/"@)[0]);
}

} // verus!
