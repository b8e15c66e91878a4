//! The user table: one record per user, keyed by a unique identifier,
//! with timestamps that record creation and the latest mutation.

use vstd::prelude::*;

verus! {

/// One row of the user table, as the service stores and returns it.
///
/// `id` never changes once the row exists; `created_at` is set once;
/// `updated_at` moves forward on every mutation. Timestamps are
/// seconds (or any fixed unit) on a single monotone clock.
#[derive(Debug)]
pub struct User {
    pub id: u128,
    pub name: String,
    pub age: i32,
    pub created_at: i64,
    pub updated_at: i64,
}

/// The mathematical image of one row.
pub ghost struct UserView {
    pub id: u128,
    pub name: Seq<char>,
    pub age: int,
    pub created_at: int,
    pub updated_at: int,
}

impl View for User {
    type V = UserView;

    open spec fn view(&self) -> UserView {
        UserView {
            id: self.id,
            name: self.name@,
            age: self.age as int,
            created_at: self.created_at as int,
            updated_at: self.updated_at as int,
        }
    }
}

/// Why a table operation could not do its work.
#[derive(Clone, Copy, Debug, PartialEq, Eq, Structural)]
pub enum UserError {
    /// No row carries the requested identifier.
    NotFound,
    /// A row already carries the identifier offered for a new row.
    DuplicateId,
}

/// Some row of `rows` carries `id`.
pub open spec fn contains_id(rows: Seq<UserView>, id: u128) -> bool {
    exists|k: int| 0 <= k < rows.len() && rows[k].id == id
}

/// The position of the row carrying `id` (meaningful when
/// `contains_id(rows, id)` holds and identifiers are distinct).
pub open spec fn idx_for(rows: Seq<UserView>, id: u128) -> int {
    choose|k: int| 0 <= k < rows.len() && rows[k].id == id
}

/// The row of `rows` carrying `id`.
pub open spec fn row_for(rows: Seq<UserView>, id: u128) -> UserView {
    rows[idx_for(rows, id)]
}

/// No two rows share an identifier.
pub open spec fn distinct_ids(rows: Seq<UserView>) -> bool {
    forall|i: int, j: int| 0 <= i < j < rows.len() ==> rows[i].id != rows[j].id
}

/// A freshly created row: both timestamps equal the creation instant.
pub open spec fn new_row(id: u128, name: Seq<char>, age: int, now: int) -> UserView {
    UserView { id, name, age, created_at: now, updated_at: now }
}

/// `u` after its name is set to `name` at instant `now`.
pub open spec fn renamed(u: UserView, name: Seq<char>, now: int) -> UserView {
    UserView { id: u.id, name, age: u.age, created_at: u.created_at, updated_at: now }
}

/// `u` after its age is set to `age` at instant `now`.
pub open spec fn aged(u: UserView, age: int, now: int) -> UserView {
    UserView { id: u.id, name: u.name, age, created_at: u.created_at, updated_at: now }
}

/// When identifiers are distinct, any position whose row carries `id`
/// is the position `idx_for` names, so `row_for` is that row.
pub proof fn lemma_row_at(rows: Seq<UserView>, id: u128, i: int)
    requires
        distinct_ids(rows),
        0 <= i < rows.len(),
        rows[i].id == id,
    ensures
        idx_for(rows, id) == i,
        row_for(rows, id) == rows[i],
        contains_id(rows, id),
{
    assert(contains_id(rows, id));
    let j = idx_for(rows, id);
    assert(0 <= j < rows.len() && rows[j].id == id);
}

/// The user table. Identifiers are unique across rows, every row was
/// created no later than it was last updated, and no timestamp lies
/// beyond the latest write the table has seen.
pub struct UserTable {
    users: Vec<User>,
    last_write: i64,
}

impl View for UserTable {
    type V = Seq<UserView>;

    closed spec fn view(&self) -> Seq<UserView> {
        Seq::new(self.users@.len(), |i: int| self.users@[i]@)
    }
}

/// Everything `create_user_auto` promises, for the identifier `id`
/// its draw produced: a fresh draw inserts the new row and owes the
/// success; a colliding draw is refused and leaves the table as it
/// came.
pub open spec fn create_auto_post(
    pre: UserTable,
    post: UserTable,
    id: u128,
    name: Seq<char>,
    age: int,
    now: int,
    r: Result<User, UserError>,
) -> bool {
    &&& (!contains_id(pre@, id) ==> (r matches Ok(u) && u@ == new_row(id, name, age, now)
        && post@ == pre@.push(new_row(id, name, age, now)) && post.spec_last_write() == now))
    &&& (contains_id(pre@, id) ==> (r matches Err(e) && e == UserError::DuplicateId && post
        == pre))
}

impl UserTable {
    /// The latest instant at which the table was written, or
    /// `i64::MIN` for a table never written.
    pub closed spec fn spec_last_write(&self) -> int {
        self.last_write as int
    }

    /// Table invariant: unique identifiers, ordered timestamps.
    pub open spec fn wf(&self) -> bool {
        &&& distinct_ids(self@)
        &&& forall|i: int|
            0 <= i < self@.len() ==> (#[trigger] self@[i]).created_at <= self@[i].updated_at
                <= self.spec_last_write()
    }

    /// An empty table.
    pub fn new() -> (t: UserTable)
        ensures
            t.wf(),
            t@ =~= Seq::<UserView>::empty(),
            t.spec_last_write() == i64::MIN,
    {
        UserTable { users: Vec::new(), last_write: i64::MIN }
    }

    /// How many rows the table holds.
    pub fn len(&self) -> (n: usize)
        ensures
            n == self@.len(),
    {
        self.users.len()
    }

    /// The latest write instant, for callers that must pick a `now`
    /// that does not run the clock backwards.
    pub fn last_write(&self) -> (t: i64)
        ensures
            t == self.spec_last_write(),
    {
        self.last_write
    }

    /// The position of the row carrying `id`, if any row does.
    fn find(&self, id: u128) -> (r: Option<usize>)
        requires
            self.wf(),
        ensures
            (r is Some) == contains_id(self@, id),
            r matches Some(i) ==> 0 <= i < self@.len() && self@[i as int].id == id && i as int
                == idx_for(self@, id),
    {
        let n = self.users.len();
        let mut i: usize = 0;
        while i < n
            invariant
                n == self.users.len(),
                i <= n,
                self.wf(),
                forall|k: int| 0 <= k < i ==> self@[k].id != id,
            decreases n - i,
        {
            if self.users[i].id == id {
                proof {
                    lemma_row_at(self@, id, i as int);
                }
                return Some(i);
            }
            i += 1;
        }
        None
    }

    /// Whether some row carries `id`.
    pub fn contains(&self, id: u128) -> (r: bool)
        requires
            self.wf(),
        ensures
            r == contains_id(self@, id),
    {
        self.find(id).is_some()
    }

    /// Fetch the row carrying `id`, or report that none does.
    pub fn get_user(&self, id: u128) -> (r: Result<User, UserError>)
        requires
            self.wf(),
        ensures
            (r is Ok) == contains_id(self@, id),
            r matches Ok(u) ==> u@ == row_for(self@, id),
            r matches Err(e) ==> e == UserError::NotFound,
    {
        match self.find(id) {
            Some(i) => {
                let u = &self.users[i];
                Ok(
                    User {
                        id: u.id,
                        name: u.name.clone(),
                        age: u.age,
                        created_at: u.created_at,
                        updated_at: u.updated_at,
                    },
                )
            },
            None => Err(UserError::NotFound),
        }
    }

    /// Insert a new row under the offered identifier, stamping both
    /// timestamps with `now`, or refuse it if the identifier is
    /// already taken.
    pub fn create_user(&mut self, id: u128, name: String, age: i32, now: i64) -> (r: Result<
        User,
        UserError,
    >)
        requires
            old(self).wf(),
            now >= old(self).spec_last_write(),
        ensures
            final(self).wf(),
            (r is Ok) == !contains_id(old(self)@, id),
            r matches Ok(u) ==> {
                &&& u@ == new_row(id, name@, age as int, now as int)
                &&& final(self)@ == old(self)@.push(new_row(id, name@, age as int, now as int))
                &&& final(self).spec_last_write() == now
            },
            r matches Err(e) ==> e == UserError::DuplicateId && *final(self) == *old(self),
    {
        let ghost old_view = self@;
        let ghost old_last = self.spec_last_write();
        if self.contains(id) {
            return Err(UserError::DuplicateId);
        }
        self.users.push(User { id, name: name.clone(), age, created_at: now, updated_at: now });
        self.last_write = now;
        proof {
            let r = new_row(id, name@, age as int, now as int);
            assert(self@ =~= old_view.push(r));
            assert forall|i: int, j: int| 0 <= i < j < self@.len() implies self@[i].id
                != self@[j].id by {
                if j < old_view.len() {
                    assert(self@[i] == old_view[i] && self@[j] == old_view[j]);
                } else {
                    assert(self@[j] == r && self@[i] == old_view[i]);
                    assert(old_view[i].id != id);
                }
            }
            assert forall|i: int| 0 <= i < self@.len() implies (#[trigger] self@[i]).created_at
                <= self@[i].updated_at <= self.spec_last_write() by {
                if i < old_view.len() {
                    assert(self@[i] == old_view[i]);
                    assert(old_view[i].created_at <= old_view[i].updated_at <= old_last);
                }
            }
        }
        Ok(User { id, name, age, created_at: now, updated_at: now })
    }

    /// Insert a new row under a freshly drawn identifier. The draw is
    /// random: a fresh draw owes the insertion, and only a draw that
    /// collides with a row already present is refused, leaving the
    /// table unchanged. In particular, on an empty table every draw is
    /// fresh, so the insertion is owed outright.
    pub fn create_user_auto(&mut self, name: String, age: i32, now: i64) -> (r: Result<
        User,
        UserError,
    >)
        requires
            old(self).wf(),
            now >= old(self).spec_last_write(),
        ensures
            final(self).wf(),
            exists|id: u128|
                #[trigger] create_auto_post(
                    *old(self),
                    *final(self),
                    id,
                    name@,
                    age as int,
                    now as int,
                    r,
                ),
            r matches Ok(u) ==> {
                &&& !contains_id(old(self)@, u@.id)
                &&& u@ == new_row(u@.id, name@, age as int, now as int)
                &&& final(self)@ == old(self)@.push(u@)
                &&& final(self).spec_last_write() == now
            },
            r matches Err(e) ==> e == UserError::DuplicateId && *final(self) == *old(self),
    {
        let ghost pre = *self;
        let ghost n = name@;
        let id = crate::ids::fresh_uuid();
        let r = self.create_user(id, name, age, now);
        proof {
            assert(create_auto_post(pre, *self, id, n, age as int, now as int, r));
        }
        r
    }

    /// Set the name of the row carrying `id` and stamp its
    /// `updated_at` with `now`; every other field and every other row
    /// keeps its value. Reports that no row carries `id` otherwise.
    pub fn update_name(&mut self, id: u128, name: String, now: i64) -> (r: Result<
        User,
        UserError,
    >)
        requires
            old(self).wf(),
            now >= old(self).spec_last_write(),
        ensures
            final(self).wf(),
            (r is Ok) == contains_id(old(self)@, id),
            r matches Ok(u) ==> {
                &&& u@ == renamed(row_for(old(self)@, id), name@, now as int)
                &&& final(self)@ == old(self)@.update(
                    idx_for(old(self)@, id),
                    renamed(row_for(old(self)@, id), name@, now as int),
                )
                &&& final(self).spec_last_write() == now
            },
            r matches Err(e) ==> e == UserError::NotFound && *final(self) == *old(self),
    {
        let ghost old_view = self@;
        let ghost old_last = self.spec_last_write();
        match self.find(id) {
            None => Err(UserError::NotFound),
            Some(i) => {
                let ghost k = i as int;
                let created = self.users[i].created_at;
                let age = self.users[i].age;
                self.users[i] = User {
                    id,
                    name: name.clone(),
                    age,
                    created_at: created,
                    updated_at: now,
                };
                self.last_write = now;
                proof {
                    let r = renamed(old_view[k], name@, now as int);
                    assert(self@ =~= old_view.update(k, r));
                    self.lemma_wf_after_update(old_view, old_last, k, now as int);
                }
                Ok(User { id, name, age, created_at: created, updated_at: now })
            },
        }
    }

    /// Set the age of the row carrying `id` and stamp its `updated_at`
    /// with `now`; every other field and every other row keeps its
    /// value. Reports that no row carries `id` otherwise.
    pub fn update_age(&mut self, id: u128, age: i32, now: i64) -> (r: Result<User, UserError>)
        requires
            old(self).wf(),
            now >= old(self).spec_last_write(),
        ensures
            final(self).wf(),
            (r is Ok) == contains_id(old(self)@, id),
            r matches Ok(u) ==> {
                &&& u@ == aged(row_for(old(self)@, id), age as int, now as int)
                &&& final(self)@ == old(self)@.update(
                    idx_for(old(self)@, id),
                    aged(row_for(old(self)@, id), age as int, now as int),
                )
                &&& final(self).spec_last_write() == now
            },
            r matches Err(e) ==> e == UserError::NotFound && *final(self) == *old(self),
    {
        let ghost old_view = self@;
        let ghost old_last = self.spec_last_write();
        match self.find(id) {
            None => Err(UserError::NotFound),
            Some(i) => {
                let ghost k = i as int;
                let created = self.users[i].created_at;
                let name = self.users[i].name.clone();
                self.users[i] = User {
                    id,
                    name: name.clone(),
                    age,
                    created_at: created,
                    updated_at: now,
                };
                self.last_write = now;
                proof {
                    let r = aged(old_view[k], age as int, now as int);
                    assert(self@ =~= old_view.update(k, r));
                    self.lemma_wf_after_update(old_view, old_last, k, now as int);
                }
                Ok(User { id, name, age, created_at: created, updated_at: now })
            },
        }
    }

    /// Remove the row carrying `id`, if any row does; the result says
    /// whether one was removed.
    pub fn delete_user(&mut self, id: u128) -> (r: bool)
        requires
            old(self).wf(),
        ensures
            final(self).wf(),
            r == contains_id(old(self)@, id),
            r ==> final(self)@ == old(self)@.remove(idx_for(old(self)@, id)),
            !r ==> *final(self) == *old(self),
            final(self).spec_last_write() == old(self).spec_last_write(),
    {
        let ghost old_view = self@;
        let ghost old_last = self.spec_last_write();
        match self.find(id) {
            None => false,
            Some(i) => {
                let ghost k = i as int;
                let _ = self.users.remove(i);
                proof {
                    assert(self@ =~= old_view.remove(k));
                    old_view.remove_ensures(k);
                    assert forall|x: int, j: int| 0 <= x < j < self@.len() implies self@[x].id
                        != self@[j].id by {
                        let ox = if x < k {
                            x
                        } else {
                            x + 1
                        };
                        let oj = if j < k {
                            j
                        } else {
                            j + 1
                        };
                        assert(self@[x] == old_view[ox] && self@[j] == old_view[oj]);
                    }
                    assert forall|x: int| 0 <= x < self@.len() implies (
                    #[trigger] self@[x]).created_at <= self@[x].updated_at
                        <= self.spec_last_write() by {
                        let ox = if x < k {
                            x
                        } else {
                            x + 1
                        };
                        assert(self@[x] == old_view[ox]);
                        assert(old_view[ox].created_at <= old_view[ox].updated_at <= old_last);
                    }
                }
                true
            },
        }
    }

    /// A copy of every row, in table order.
    pub fn list_users(&self) -> (r: Vec<User>)
        requires
            self.wf(),
        ensures
            r@.len() == self@.len(),
            forall|i: int| 0 <= i < self@.len() ==> (#[trigger] r@[i])@ == self@[i],
    {
        let mut out: Vec<User> = Vec::new();
        let n = self.users.len();
        let mut i: usize = 0;
        while i < n
            invariant
                n == self.users.len(),
                i <= n,
                out@.len() == i,
                forall|k: int| 0 <= k < i ==> (#[trigger] out@[k])@ == self@[k],
            decreases n - i,
        {
            let u = &self.users[i];
            out.push(
                User {
                    id: u.id,
                    name: u.name.clone(),
                    age: u.age,
                    created_at: u.created_at,
                    updated_at: u.updated_at,
                },
            );
            i += 1;
        }
        out
    }

    /// Both update operations touch one row and the latest-write
    /// stamp; this discharges the invariant for the new state.
    proof fn lemma_wf_after_update(&self, old_view: Seq<UserView>, old_last: int, k: int, now: int)
        requires
            distinct_ids(old_view),
            forall|i: int|
                0 <= i < old_view.len() ==> (#[trigger] old_view[i]).created_at
                    <= old_view[i].updated_at <= old_last,
            0 <= k < old_view.len(),
            old_last <= now,
            self@.len() == old_view.len(),
            forall|j: int| 0 <= j < old_view.len() && j != k ==> self@[j] == old_view[j],
            self@[k].id == old_view[k].id,
            self@[k].created_at == old_view[k].created_at,
            self@[k].updated_at == now,
            self.spec_last_write() == now,
        ensures
            self.wf(),
    {
        assert forall|i: int, j: int| 0 <= i < j < self@.len() implies self@[i].id
            != self@[j].id by {
            assert(self@[i].id == old_view[i].id && self@[j].id == old_view[j].id);
        }
        assert forall|i: int| 0 <= i < self@.len() implies (#[trigger] self@[i]).created_at
            <= self@[i].updated_at <= self.spec_last_write() by {
            if i != k {
                assert(self@[i] == old_view[i]);
                assert(old_view[i].created_at <= old_view[i].updated_at <= old_last);
            } else {
                assert(old_view[k].created_at <= old_view[k].updated_at <= old_last);
            }
        }
    }
}

} // verus!
