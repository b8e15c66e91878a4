//! What chains of table operations guarantee, stated over the
//! mathematical rows that the operations' contracts speak of.

use vstd::prelude::*;
use crate::table::{
    UserView, contains_id, idx_for, row_for, distinct_ids, new_row, renamed, aged, lemma_row_at,
};

verus! {

/// How many rows of `rows` carry `id`.
pub open spec fn count_id(rows: Seq<UserView>, id: u128) -> nat
    decreases rows.len(),
{
    if rows.len() == 0 {
        0
    } else {
        (if rows[0].id == id {
            1nat
        } else {
            0nat
        }) + count_id(rows.drop_first(), id)
    }
}

/// Distinct identifiers survive the insertion of a row whose
/// identifier no present row carries; so a table that only accepts
/// fresh identifiers never holds a collision, however many creations
/// run against it.
pub proof fn lemma_push_fresh_keeps_distinct(rows: Seq<UserView>, r: UserView)
    requires
        distinct_ids(rows),
        !contains_id(rows, r.id),
    ensures
        distinct_ids(rows.push(r)),
{
    let rows2 = rows.push(r);
    assert forall|i: int, j: int| 0 <= i < j < rows2.len() implies rows2[i].id != rows2[j].id by {
        if j < rows.len() {
            assert(rows2[i] == rows[i] && rows2[j] == rows[j]);
        } else {
            assert(rows2[j] == r && rows2[i] == rows[i]);
            assert(rows[i].id != r.id);
        }
    }
}

/// Creating a user and then fetching it by its identifier yields the
/// same name and age, and a `created_at` equal to `updated_at`.
pub proof fn lemma_create_then_fetch(
    rows: Seq<UserView>,
    id: u128,
    name: Seq<char>,
    age: int,
    now: int,
)
    requires
        distinct_ids(rows),
        !contains_id(rows, id),
    ensures
        ({
            let rows2 = rows.push(new_row(id, name, age, now));
            &&& distinct_ids(rows2)
            &&& contains_id(rows2, id)
            &&& row_for(rows2, id).name == name
            &&& row_for(rows2, id).age == age
            &&& row_for(rows2, id).created_at == now
            &&& row_for(rows2, id).updated_at == now
        }),
{
    let r = new_row(id, name, age, now);
    lemma_push_fresh_keeps_distinct(rows, r);
    lemma_row_at(rows.push(r), id, rows.len() as int);
}

/// Replacing the row carrying `id` with a row carrying the same
/// identifier touches no other row: every other identifier is present
/// exactly as before, with its row unchanged.
pub proof fn lemma_update_keeps_others(rows: Seq<UserView>, id: u128, r: UserView)
    requires
        distinct_ids(rows),
        contains_id(rows, id),
        r.id == id,
    ensures
        ({
            let rows2 = rows.update(idx_for(rows, id), r);
            &&& distinct_ids(rows2)
            &&& contains_id(rows2, id)
            &&& row_for(rows2, id) == r
            &&& rows2.len() == rows.len()
            &&& forall|other: u128|
                other != id ==> contains_id(rows2, other) == contains_id(rows, other)
            &&& forall|other: u128|
                other != id && contains_id(rows, other) ==> row_for(rows2, other) == row_for(
                    rows,
                    other,
                )
        }),
{
    let k = idx_for(rows, id);
    assert(0 <= k < rows.len() && rows[k].id == id);
    let rows2 = rows.update(k, r);
    assert forall|i: int, j: int| 0 <= i < j < rows2.len() implies rows2[i].id != rows2[j].id by {
        assert(rows2[i].id == rows[i].id && rows2[j].id == rows[j].id);
    }
    lemma_row_at(rows2, id, k);
    assert forall|other: u128| other != id implies contains_id(rows2, other) == contains_id(
        rows,
        other,
    ) by {
        if contains_id(rows, other) {
            let w = choose|w: int| 0 <= w < rows.len() && rows[w].id == other;
            assert(rows2[w].id == other);
        }
        if contains_id(rows2, other) {
            let w = choose|w: int| 0 <= w < rows2.len() && rows2[w].id == other;
            assert(rows[w].id == other);
        }
    }
    assert forall|other: u128| other != id && contains_id(rows, other) implies row_for(
        rows2,
        other,
    ) == row_for(rows, other) by {
        let w = choose|w: int| 0 <= w < rows.len() && rows[w].id == other;
        lemma_row_at(rows, other, w);
        assert(rows2[w] == rows[w]);
        lemma_row_at(rows2, other, w);
    }
}

/// Setting a name changes only that row's name and `updated_at`; its
/// age and `created_at`, and every other row, keep their values, and
/// `updated_at` strictly increases when the clock has moved since the
/// row was last written.
pub proof fn lemma_rename_effect(rows: Seq<UserView>, id: u128, name: Seq<char>, now: int)
    requires
        distinct_ids(rows),
        contains_id(rows, id),
        now > row_for(rows, id).updated_at,
    ensures
        ({
            let rows2 = rows.update(idx_for(rows, id), renamed(row_for(rows, id), name, now));
            &&& distinct_ids(rows2)
            &&& rows2.len() == rows.len()
            &&& row_for(rows2, id).name == name
            &&& row_for(rows2, id).age == row_for(rows, id).age
            &&& row_for(rows2, id).created_at == row_for(rows, id).created_at
            &&& row_for(rows2, id).updated_at == now
            &&& row_for(rows2, id).updated_at > row_for(rows, id).updated_at
            &&& forall|other: u128|
                other != id ==> contains_id(rows2, other) == contains_id(rows, other)
            &&& forall|other: u128|
                other != id && contains_id(rows, other) ==> row_for(rows2, other) == row_for(
                    rows,
                    other,
                )
        }),
{
    lemma_update_keeps_others(rows, id, renamed(row_for(rows, id), name, now));
}

/// Setting an age changes only that row's age and `updated_at`; its
/// name and `created_at`, and every other row, keep their values, and
/// `updated_at` strictly increases when the clock has moved since the
/// row was last written.
pub proof fn lemma_change_age_effect(rows: Seq<UserView>, id: u128, age: int, now: int)
    requires
        distinct_ids(rows),
        contains_id(rows, id),
        now > row_for(rows, id).updated_at,
    ensures
        ({
            let rows2 = rows.update(idx_for(rows, id), aged(row_for(rows, id), age, now));
            &&& distinct_ids(rows2)
            &&& rows2.len() == rows.len()
            &&& row_for(rows2, id).age == age
            &&& row_for(rows2, id).name == row_for(rows, id).name
            &&& row_for(rows2, id).created_at == row_for(rows, id).created_at
            &&& row_for(rows2, id).updated_at == now
            &&& row_for(rows2, id).updated_at > row_for(rows, id).updated_at
            &&& forall|other: u128|
                other != id ==> contains_id(rows2, other) == contains_id(rows, other)
            &&& forall|other: u128|
                other != id && contains_id(rows, other) ==> row_for(rows2, other) == row_for(
                    rows,
                    other,
                )
        }),
{
    lemma_update_keeps_others(rows, id, aged(row_for(rows, id), age, now));
}

/// After a delete, no row carries the removed identifier, so a fetch
/// of it yields the not-found outcome; every other identifier is
/// present exactly as before, with its row unchanged.
pub proof fn lemma_delete_then_fetch(rows: Seq<UserView>, id: u128)
    requires
        distinct_ids(rows),
        contains_id(rows, id),
    ensures
        ({
            let rows2 = rows.remove(idx_for(rows, id));
            &&& distinct_ids(rows2)
            &&& !contains_id(rows2, id)
            &&& rows2.len() == rows.len() - 1
            &&& forall|other: u128|
                other != id ==> contains_id(rows2, other) == contains_id(rows, other)
            &&& forall|other: u128|
                other != id && contains_id(rows, other) ==> row_for(rows2, other) == row_for(
                    rows,
                    other,
                )
        }),
{
    let k = idx_for(rows, id);
    assert(0 <= k < rows.len() && rows[k].id == id);
    let rows2 = rows.remove(k);
    rows.remove_ensures(k);
    assert forall|i: int, j: int| 0 <= i < j < rows2.len() implies rows2[i].id != rows2[j].id by {
        let oi = if i < k {
            i
        } else {
            i + 1
        };
        let oj = if j < k {
            j
        } else {
            j + 1
        };
        assert(rows2[i] == rows[oi] && rows2[j] == rows[oj]);
    }
    if contains_id(rows2, id) {
        let w = choose|w: int| 0 <= w < rows2.len() && rows2[w].id == id;
        let ow = if w < k {
            w
        } else {
            w + 1
        };
        assert(rows2[w] == rows[ow]);
        assert(rows[ow].id == id && rows[k].id == id && ow != k);
        assert(false);
    }
    assert forall|other: u128| other != id implies contains_id(rows2, other) == contains_id(
        rows,
        other,
    ) by {
        if contains_id(rows, other) {
            let w = choose|w: int| 0 <= w < rows.len() && rows[w].id == other;
            let nw = if w < k {
                w
            } else {
                w - 1
            };
            assert(rows2[nw] == rows[w]);
        }
        if contains_id(rows2, other) {
            let w = choose|w: int| 0 <= w < rows2.len() && rows2[w].id == other;
            let ow = if w < k {
                w
            } else {
                w + 1
            };
            assert(rows[ow] == rows2[w]);
        }
    }
    assert forall|other: u128| other != id && contains_id(rows, other) implies row_for(
        rows2,
        other,
    ) == row_for(rows, other) by {
        let w = choose|w: int| 0 <= w < rows.len() && rows[w].id == other;
        lemma_row_at(rows, other, w);
        let nw = if w < k {
            w
        } else {
            w - 1
        };
        assert(rows2[nw] == rows[w]);
        lemma_row_at(rows2, other, nw);
    }
}

/// In a table whose identifiers are distinct, a listing names each
/// present identifier exactly once, and an absent one never.
pub proof fn lemma_each_id_once(rows: Seq<UserView>, id: u128)
    requires
        distinct_ids(rows),
    ensures
        count_id(rows, id) == (if contains_id(rows, id) {
            1nat
        } else {
            0nat
        }),
    decreases rows.len(),
{
    if rows.len() == 0 {
        assert(!contains_id(rows, id));
    } else {
        let rest = rows.drop_first();
        assert forall|i: int, j: int| 0 <= i < j < rest.len() implies rest[i].id != rest[j].id by {
            assert(rest[i] == rows[i + 1] && rest[j] == rows[j + 1]);
        }
        lemma_each_id_once(rest, id);
        if rows[0].id == id {
            if contains_id(rest, id) {
                let w = choose|w: int| 0 <= w < rest.len() && rest[w].id == id;
                assert(rows[w + 1].id == id && rows[0].id == id);
                assert(false);
            }
            assert(contains_id(rows, id));
        } else {
            if contains_id(rest, id) {
                let w = choose|w: int| 0 <= w < rest.len() && rest[w].id == id;
                assert(rows[w + 1].id == id);
            }
            if contains_id(rows, id) {
                let w = choose|w: int| 0 <= w < rows.len() && rows[w].id == id;
                assert(w != 0);
                assert(rest[w - 1].id == id);
            }
        }
    }
}

/// Two creations that both succeed receive distinct identifiers: when
/// the second insertion is accepted, the first row is already in the
/// table, so the second identifier cannot equal it.
pub proof fn lemma_created_ids_distinct(rows: Seq<UserView>, first: UserView, second_id: u128)
    requires
        !contains_id(rows.push(first), second_id),
    ensures
        second_id != first.id,
{
    assert(rows.push(first)[rows.len() as int] == first);
}

} // verus!
