use vstd::prelude::*;

use crate::context::Context;
use crate::error::{Error, ErrorCode};
use crate::service::{UserFilter, UserUpdate};
use crate::user::{now_micros, stored_valid, User, Validable};

verus! {

/// What a users table holds: its rows in increasing order of id, and the last
/// id that it assigned.
pub struct TableView {
    pub rows: Seq<User>,
    pub last_id: i64,
}

/// The invariant of a users table: ids are positive, assigned in increasing
/// order and never above the last one assigned; no two rows share an email;
/// every row is a valid user.
pub open spec fn table_wf(t: TableView) -> bool {
    &&& t.last_id >= 0
    &&& forall|i: int| 0 <= i < t.rows.len() ==> 0 < #[trigger] t.rows[i].id <= t.last_id
    &&& forall|i: int, j: int|
        0 <= i < j < t.rows.len() ==> #[trigger] t.rows[i].id < #[trigger] t.rows[j].id
    &&& forall|i: int, j: int|
        0 <= i < t.rows.len() && 0 <= j < t.rows.len() && i != j ==> #[trigger] t.rows[i].email@
            != #[trigger] t.rows[j].email@
    &&& forall|i: int| 0 <= i < t.rows.len() ==> (#[trigger] t.rows[i]).is_valid()
}

/// Whether `u` meets every equality that `f` sets.
pub open spec fn user_matches(f: UserFilter, u: User) -> bool {
    &&& (f.id.is_some() ==> u.id == f.id->0)
    &&& (f.name.is_some() ==> u.name@ == f.name->0@)
    &&& (f.email.is_some() ==> u.email@ == f.email->0@)
}

/// The rows that `f` matches, in their order.
pub open spec fn matching(rows: Seq<User>, f: UserFilter) -> Seq<User>
    decreases rows.len(),
{
    if rows.len() == 0 {
        Seq::empty()
    } else {
        let rest = matching(rows.drop_last(), f);
        if user_matches(f, rows.last()) {
            rest.push(rows.last())
        } else {
            rest
        }
    }
}

/// The page of `s` that `limit` and `offset` select: the first `offset`
/// items are skipped, then at most `limit` are kept; a bound that is not
/// positive does nothing.
pub open spec fn page_of(s: Seq<User>, limit: i64, offset: i64) -> Seq<User> {
    let rest = if offset <= 0 {
        s
    } else if offset < s.len() {
        s.skip(offset as int)
    } else {
        Seq::empty()
    };
    if limit > 0 && limit < rest.len() {
        rest.take(limit as int)
    } else {
        rest
    }
}

/// The page of users that `f` selects, and how many users match `f` in all.
pub open spec fn find_many(t: TableView, f: UserFilter) -> (Seq<User>, nat) {
    let m = matching(t.rows, f);
    (page_of(m, f.limit, f.offset), m.len())
}

/// The first user that `f` matches, or `ENOTFOUND` where none does.
pub open spec fn find_one(t: TableView, f: UserFilter) -> Result<User, ErrorCode> {
    let m = matching(t.rows, f);
    if m.len() == 0 {
        Err(ErrorCode::ENOTFOUND)
    } else {
        Ok(m[0])
    }
}

pub open spec fn id_filter(id: i64) -> UserFilter {
    UserFilter { id: Some(id), name: None, email: None, limit: 0, offset: 0 }
}

pub open spec fn email_filter(email: String) -> UserFilter {
    UserFilter { id: None, name: None, email: Some(email), limit: 0, offset: 0 }
}

/// The user with id `id`, or `ENOTFOUND`.
pub open spec fn find_by_id(t: TableView, id: i64) -> Result<User, ErrorCode> {
    find_one(t, id_filter(id))
}

/// The user with email `email`, or `ENOTFOUND`.
pub open spec fn find_by_email(t: TableView, email: String) -> Result<User, ErrorCode> {
    find_one(t, email_filter(email))
}

/// Whether a row of `t` has the email `email`.
pub open spec fn email_taken(t: TableView, email: Seq<char>) -> bool {
    exists|i: int| 0 <= i < t.rows.len() && #[trigger] t.rows[i].email@ == email
}

/// Why creating `u` in `t` fails, if it does: an invalid user, an email that
/// a row already has, or no id left to assign.
pub open spec fn create_error(t: TableView, u: User) -> Option<ErrorCode> {
    if !u.is_valid() {
        Some(ErrorCode::EINVALID)
    } else if email_taken(t, u.email@) {
        Some(ErrorCode::ECONFLICT)
    } else if t.last_id == i64::MAX {
        Some(ErrorCode::EINTERNAL)
    } else {
        None
    }
}

/// `u` with both times set to `now`.
pub open spec fn stamped(u: User, now: i64) -> User {
    User { created_at: now, updated_at: now, ..u }
}

/// `u` with the id `id`.
pub open spec fn with_id(u: User, id: i64) -> User {
    User { id: id, ..u }
}

/// `t` after the row `u`, whose id is the next one, is added.
pub open spec fn inserted(t: TableView, u: User) -> TableView {
    TableView { rows: t.rows.push(u), last_id: u.id }
}

/// The user with id `id` where the acting id `acting` is that user's own;
/// `ENOTFOUND` where there is no such user, `EUNAUTHORIZED` where another
/// identity acts.
pub open spec fn authorized_target(t: TableView, acting: i64, id: i64) -> Result<User, ErrorCode> {
    match find_by_id(t, id) {
        Err(c) => Err(c),
        Ok(u) => if acting != u.id {
            Err(ErrorCode::EUNAUTHORIZED)
        } else {
            Ok(u)
        },
    }
}

/// The rows other than the one with id `id`.
pub open spec fn without_id(rows: Seq<User>, id: i64) -> Seq<User>
    decreases rows.len(),
{
    if rows.len() == 0 {
        Seq::empty()
    } else {
        let rest = without_id(rows.drop_last(), id);
        if rows.last().id != id {
            rest.push(rows.last())
        } else {
            rest
        }
    }
}

/// `t` after the row with id `id` is removed.
pub open spec fn deleted(t: TableView, id: i64) -> TableView {
    TableView { rows: without_id(t.rows, id), last_id: t.last_id }
}

/// `u` with the fields that `patch` holds, and updated at `now`.
pub open spec fn merged(u: User, patch: UserUpdate, now: i64) -> User {
    User {
        name: if patch.name.is_some() {
            patch.name->0
        } else {
            u.name
        },
        updated_at: now,
        ..u
    }
}

/// Why updating the user `id` with `patch` under the acting id `acting`
/// fails, if it does: no such user, another identity acts, or the merged
/// user may not be written back.
pub open spec fn update_error(t: TableView, acting: i64, id: i64, patch: UserUpdate) -> Option<
    ErrorCode,
> {
    match authorized_target(t, acting, id) {
        Err(c) => Some(c),
        Ok(u) => if !stored_valid(merged(u, patch, u.updated_at)) {
            Some(ErrorCode::EINVALID)
        } else {
            None
        },
    }
}

/// `t` with the row whose id is `u.id` replaced by `u`.
pub open spec fn replaced(t: TableView, u: User) -> TableView {
    TableView {
        rows: t.rows.map_values(|r: User| if r.id == u.id { u } else { r }),
        last_id: t.last_id,
    }
}

/// The error code of a failed result, the value of a successful one.
pub open spec fn codes<T>(r: Result<T, Error>) -> Result<T, ErrorCode> {
    match r {
        Ok(v) => Ok(v),
        Err(e) => Err(e.code),
    }
}

/// Where no row matches `f`, nothing matches.
proof fn lemma_matching_none(rows: Seq<User>, f: UserFilter)
    requires
        forall|j: int| 0 <= j < rows.len() ==> !user_matches(f, #[trigger] rows[j]),
    ensures
        matching(rows, f) == Seq::<User>::empty(),
    decreases rows.len(),
{
    if rows.len() > 0 {
        let head = rows.drop_last();
        assert forall|j: int| 0 <= j < head.len() implies !user_matches(f, #[trigger] head[j]) by {
            assert(head[j] == rows[j]);
        }
        lemma_matching_none(head, f);
        assert(!user_matches(f, rows[rows.len() - 1]));
    }
}

/// Where the row `i` alone matches `f`, the matches are that row.
proof fn lemma_matching_single(rows: Seq<User>, f: UserFilter, i: int)
    requires
        0 <= i < rows.len(),
        user_matches(f, rows[i]),
        forall|j: int| 0 <= j < rows.len() && j != i ==> !user_matches(f, #[trigger] rows[j]),
    ensures
        matching(rows, f) == seq![rows[i]],
    decreases rows.len(),
{
    let head = rows.drop_last();
    if i == rows.len() - 1 {
        assert forall|j: int| 0 <= j < head.len() implies !user_matches(f, #[trigger] head[j]) by {
            assert(head[j] == rows[j]);
        }
        lemma_matching_none(head, f);
        assert(matching(rows, f) =~= seq![rows[i]]);
    } else {
        assert forall|j: int| 0 <= j < head.len() && j != i implies !user_matches(
            f,
            #[trigger] head[j],
        ) by {
            assert(head[j] == rows[j]);
        }
        assert(head[i] == rows[i]);
        lemma_matching_single(head, f, i);
        assert(!user_matches(f, rows[rows.len() - 1]));
    }
}

/// On a well-formed table, the user with a given id is the row that has it.
proof fn lemma_find_by_id(t: TableView, id: i64)
    requires
        table_wf(t),
    ensures
        forall|i: int| 0 <= i < t.rows.len() && t.rows[i].id == id ==> find_by_id(t, id) == Ok::<
            User,
            ErrorCode,
        >(#[trigger] t.rows[i]),
        (forall|i: int| 0 <= i < t.rows.len() ==> #[trigger] t.rows[i].id != id) ==> find_by_id(
            t,
            id,
        ) == Err::<User, ErrorCode>(ErrorCode::ENOTFOUND),
{
    let f = id_filter(id);
    assert forall|i: int| 0 <= i < t.rows.len() && t.rows[i].id == id implies find_by_id(t, id)
        == Ok::<User, ErrorCode>(#[trigger] t.rows[i]) by {
        assert forall|j: int| 0 <= j < t.rows.len() && j != i implies !user_matches(
            f,
            #[trigger] t.rows[j],
        ) by {
            if j < i {
                assert(t.rows[j].id < t.rows[i].id);
            } else {
                assert(t.rows[i].id < t.rows[j].id);
            }
        }
        lemma_matching_single(t.rows, f, i);
    }
    if forall|i: int| 0 <= i < t.rows.len() ==> #[trigger] t.rows[i].id != id {
        lemma_matching_none(t.rows, f);
    }
}

/// On a well-formed table, the user with a given email is the row that has it.
proof fn lemma_find_by_email(t: TableView, email: String)
    requires
        table_wf(t),
    ensures
        forall|i: int|
            0 <= i < t.rows.len() && t.rows[i].email@ == email@ ==> find_by_email(t, email)
                == Ok::<User, ErrorCode>(#[trigger] t.rows[i]),
        !email_taken(t, email@) ==> find_by_email(t, email) == Err::<User, ErrorCode>(
            ErrorCode::ENOTFOUND,
        ),
{
    let f = email_filter(email);
    assert forall|i: int| 0 <= i < t.rows.len() && t.rows[i].email@ == email@ implies find_by_email(
        t,
        email,
    ) == Ok::<User, ErrorCode>(#[trigger] t.rows[i]) by {
        assert forall|j: int| 0 <= j < t.rows.len() && j != i implies !user_matches(
            f,
            #[trigger] t.rows[j],
        ) by {
            assert(t.rows[i].email@ != t.rows[j].email@);
        }
        lemma_matching_single(t.rows, f, i);
    }
    if !email_taken(t, email@) {
        assert forall|j: int| 0 <= j < t.rows.len() implies !user_matches(f, #[trigger] t.rows[j]) by {
            if t.rows[j].email@ == email@ {
                assert(email_taken(t, email@));
            }
        }
        lemma_matching_none(t.rows, f);
    }
}

/// Where no row has the id, removing it changes nothing.
proof fn lemma_without_id_none(rows: Seq<User>, id: i64)
    requires
        forall|j: int| 0 <= j < rows.len() ==> #[trigger] rows[j].id != id,
    ensures
        without_id(rows, id) == rows,
    decreases rows.len(),
{
    if rows.len() > 0 {
        let head = rows.drop_last();
        assert forall|j: int| 0 <= j < head.len() implies #[trigger] head[j].id != id by {
            assert(head[j] == rows[j]);
        }
        lemma_without_id_none(head, id);
        assert(rows[rows.len() - 1].id != id);
        assert(head.push(rows.last()) =~= rows);
    }
}

/// Where the row `i` alone has the id, removing it removes that row.
proof fn lemma_without_id_single(rows: Seq<User>, id: i64, i: int)
    requires
        0 <= i < rows.len(),
        rows[i].id == id,
        forall|j: int| 0 <= j < rows.len() && j != i ==> #[trigger] rows[j].id != id,
    ensures
        without_id(rows, id) == rows.remove(i),
    decreases rows.len(),
{
    let head = rows.drop_last();
    if i == rows.len() - 1 {
        assert forall|j: int| 0 <= j < head.len() implies #[trigger] head[j].id != id by {
            assert(head[j] == rows[j]);
        }
        lemma_without_id_none(head, id);
        assert(rows.remove(i) =~= head);
    } else {
        assert forall|j: int| 0 <= j < head.len() && j != i implies #[trigger] head[j].id != id by {
            assert(head[j] == rows[j]);
        }
        lemma_without_id_single(head, id, i);
        assert(rows[rows.len() - 1].id != id);
        assert(head.remove(i).push(rows.last()) =~= rows.remove(i));
    }
}

/// An in-memory users table: rows kept in increasing order of id, a unique
/// email per row, and ids assigned in sequence from one.
pub struct UserTable {
    rows: Vec<User>,
    last_id: i64,
}

impl View for UserTable {
    type V = TableView;

    closed spec fn view(&self) -> TableView {
        TableView { rows: self.rows@, last_id: self.last_id }
    }
}

/// Returns whether `u` meets every equality that `f` sets.
fn filter_matches(f: &UserFilter, u: &User) -> (r: bool)
    ensures
        r == user_matches(*f, *u),
{
    if let Some(id) = f.id {
        if u.id != id {
            return false;
        }
    }
    if let Some(name) = &f.name {
        if u.name != *name {
            return false;
        }
    }
    if let Some(email) = &f.email {
        if u.email != *email {
            return false;
        }
    }
    true
}

impl UserTable {
    /// An empty table that has assigned no id.
    pub fn new() -> (r: UserTable)
        ensures
            r@.rows.len() == 0,
            r@.last_id == 0,
            table_wf(r@),
    {
        UserTable { rows: Vec::new(), last_id: 0 }
    }

    /// A copy of the table, for a transaction to work on.
    pub fn snapshot(&self) -> (r: UserTable)
        ensures
            r@ == self@,
    {
        let mut rows: Vec<User> = Vec::new();
        let mut i: usize = 0;
        while i < self.rows.len()
            invariant
                i <= self.rows.len(),
                rows@ == self.rows@.take(i as int),
            decreases self.rows.len() - i,
        {
            rows.push(self.rows[i].duplicate());
            assert(rows@ =~= self.rows@.take(i + 1));
            i = i + 1;
        }
        assert(self.rows@.take(i as int) =~= self.rows@);
        UserTable { rows, last_id: self.last_id }
    }

    /// Returns the page of users that `filter` selects, in increasing order of
    /// id, and how many users match it in all.
    pub fn select(&self, filter: &UserFilter) -> (r: (Vec<User>, usize))
        ensures
            r.0@ == find_many(self@, *filter).0,
            r.1 == find_many(self@, *filter).1,
    {
        let mut found: Vec<User> = Vec::new();
        let mut i: usize = 0;
        while i < self.rows.len()
            invariant
                i <= self.rows.len(),
                found@ == matching(self.rows@.take(i as int), *filter),
            decreases self.rows.len() - i,
        {
            assert(self.rows@.take(i + 1).drop_last() =~= self.rows@.take(i as int));
            if filter_matches(filter, &self.rows[i]) {
                found.push(self.rows[i].duplicate());
            }
            i = i + 1;
        }
        assert(self.rows@.take(i as int) =~= self.rows@);
        let total = found.len();
        let start: usize = if filter.offset <= 0 {
            0
        } else if (filter.offset as u64) < (total as u64) {
            filter.offset as usize
        } else {
            total
        };
        let end: usize = if filter.limit > 0 && (filter.limit as u64) < ((total - start) as u64) {
            start + filter.limit as usize
        } else {
            total
        };
        let mut page: Vec<User> = Vec::new();
        let mut j: usize = start;
        while j < end
            invariant
                start <= j <= end <= total == found.len(),
                page@ == found@.subrange(start as int, j as int),
            decreases end - j,
        {
            page.push(found[j].duplicate());
            assert(page@ =~= found@.subrange(start as int, j + 1));
            j = j + 1;
        }
        assert(page@ =~= page_of(found@, filter.limit, filter.offset));
        (page, total)
    }

    /// Adds `user` with the next id. Fails with `ECONFLICT`, changing
    /// nothing, where a row has the same email, and with `EINTERNAL` where no
    /// id is left.
    pub(crate) fn insert(&mut self, user: &mut User) -> (r: Result<(), Error>)
        requires
            table_wf(old(self)@),
            old(user).is_valid(),
        ensures
            table_wf(final(self)@),
            if email_taken(old(self)@, old(user).email@) {
                &&& r.is_err() && r->Err_0.code == ErrorCode::ECONFLICT
                &&& final(self)@ == old(self)@ && *final(user) == *old(user)
            } else if old(self)@.last_id == i64::MAX {
                &&& r.is_err() && r->Err_0.code == ErrorCode::EINTERNAL
                &&& final(self)@ == old(self)@ && *final(user) == *old(user)
            } else {
                &&& r.is_ok()
                &&& *final(user) == with_id(*old(user), (old(self)@.last_id + 1) as i64)
                &&& final(self)@ == inserted(old(self)@, *final(user))
            },
    {
        let mut i: usize = 0;
        while i < self.rows.len()
            invariant
                i <= self.rows.len(),
                self@ == old(self)@,
                table_wf(self@),
                *user == *old(user),
                forall|j: int| 0 <= j < i ==> #[trigger] self.rows@[j].email@ != user.email@,
            decreases self.rows.len() - i,
        {
            if self.rows[i].email == user.email {
                assert(self@.rows[i as int].email@ == user.email@);
                return Err(Error::with_text(ErrorCode::ECONFLICT, "email already in use"));
            }
            i = i + 1;
        }
        if self.last_id == i64::MAX {
            return Err(Error::with_text(ErrorCode::EINTERNAL, "no user id left to assign"));
        }
        let id = self.last_id + 1;
        user.id = id;
        self.rows.push(user.duplicate());
        self.last_id = id;
        proof {
            let old_t = old(self)@;
            let t = self@;
            assert(t.rows == old_t.rows.push(*user));
            assert(!email_taken(old_t, old(user).email@)) by {
                if email_taken(old_t, old(user).email@) {
                    let w = choose|w: int| 0 <= w < old_t.rows.len() && #[trigger] old_t.rows[w].email@ == old(user).email@;
                    assert(self.rows@[w].email@ != user.email@);
                }
            }
            assert forall|a: int| 0 <= a < t.rows.len() implies 0 < #[trigger] t.rows[a].id
                <= t.last_id by {
                if a < old_t.rows.len() {
                    assert(old_t.rows[a] == t.rows[a]);
                }
            }
            assert forall|a: int, b: int| 0 <= a < b < t.rows.len() implies #[trigger] t.rows[a].id
                < #[trigger] t.rows[b].id by {
                assert(old_t.rows[a] == t.rows[a]);
                if b < old_t.rows.len() {
                    assert(old_t.rows[b] == t.rows[b]);
                }
            }
            assert forall|a: int| 0 <= a < t.rows.len() implies (#[trigger] t.rows[a]).is_valid() by {
                if a < old_t.rows.len() {
                    assert(old_t.rows[a] == t.rows[a]);
                }
            }
            assert forall|a: int, b: int|
                0 <= a < t.rows.len() && 0 <= b < t.rows.len() && a != b implies #[trigger] t.rows[a].email@
                != #[trigger] t.rows[b].email@ by {
                if a < old_t.rows.len() && b < old_t.rows.len() {
                    assert(old_t.rows[a] == t.rows[a] && old_t.rows[b] == t.rows[b]);
                } else if a < old_t.rows.len() {
                    assert(old_t.rows[a] == t.rows[a]);
                    assert(old_t.rows[a].email@ != old(user).email@);
                } else {
                    assert(old_t.rows[b] == t.rows[b]);
                    assert(old_t.rows[b].email@ != old(user).email@);
                }
            }
        }
        Ok(())
    }

    /// The index of the row with id `id`, if there is one.
    fn index_of_id(&self, id: i64) -> (r: Option<usize>)
        ensures
            match r {
                Some(i) => i < self.rows@.len() && self.rows@[i as int].id == id,
                None => forall|j: int| 0 <= j < self.rows@.len() ==> #[trigger] self.rows@[j].id != id,
            },
    {
        let mut i: usize = 0;
        while i < self.rows.len()
            invariant
                i <= self.rows.len(),
                forall|j: int| 0 <= j < i ==> #[trigger] self.rows@[j].id != id,
            decreases self.rows.len() - i,
        {
            if self.rows[i].id == id {
                return Some(i);
            }
            i = i + 1;
        }
        None
    }

    /// Replaces the row whose id is `user.id` by `user`, which keeps that row's
    /// email.
    pub(crate) fn replace_row(&mut self, user: User)
        requires
            table_wf(old(self)@),
            user.is_valid(),
            exists|i: int|
                0 <= i < old(self)@.rows.len() && #[trigger] old(self)@.rows[i].id == user.id
                    && old(self)@.rows[i].email@ == user.email@,
        ensures
            table_wf(final(self)@),
            final(self)@ == replaced(old(self)@, user),
    {
        let ghost k = choose|i: int|
            0 <= i < old(self)@.rows.len() && #[trigger] old(self)@.rows[i].id == user.id
                && old(self)@.rows[i].email@ == user.email@;
        let i = match self.index_of_id(user.id) {
            Some(i) => i,
            None => {
                assert(self.rows@[k].id == user.id);
                return;
            },
        };
        let ghost old_rows = self.rows@;
        assert(i as int == k) by {
            if (i as int) < k {
                assert(old_rows[i as int].id < old_rows[k].id);
            } else if k < i as int {
                assert(old_rows[k].id != user.id);
            }
        }
        self.rows.set(i, user);
        proof {
            let t = self@;
            assert forall|j: int| 0 <= j < old_rows.len() && j != i implies #[trigger] old_rows[j].id
                != user.id by {
                if j < i {
                } else {
                    assert(old_rows[i as int].id < old_rows[j].id);
                }
            }
            assert(t.rows =~= replaced(old(self)@, user).rows);
        }
    }

    /// Removes the row with id `id`, if there is one.
    pub(crate) fn delete_row(&mut self, id: i64)
        requires
            table_wf(old(self)@),
        ensures
            table_wf(final(self)@),
            final(self)@ == deleted(old(self)@, id),
    {
        let i = match self.index_of_id(id) {
            Some(i) => i,
            None => {
                proof {
                    lemma_without_id_none(self.rows@, id);
                }
                return;
            },
        };
        let ghost old_rows = self.rows@;
        proof {
            assert forall|j: int| 0 <= j < old_rows.len() && j != i implies #[trigger] old_rows[j].id
                != id by {
                if j > i {
                    assert(old_rows[i as int].id < old_rows[j].id);
                }
            }
            lemma_without_id_single(old_rows, id, i as int);
        }
        self.rows.remove(i);
        proof {
            let t = self@;
            assert(t.rows == old_rows.remove(i as int));
            assert forall|a: int| 0 <= a < t.rows.len() implies 0 < #[trigger] t.rows[a].id
                <= t.last_id by {
                if a < i {
                    assert(t.rows[a] == old_rows[a]);
                } else {
                    assert(t.rows[a] == old_rows[a + 1]);
                }
            }
            assert forall|a: int, b: int| 0 <= a < b < t.rows.len() implies #[trigger] t.rows[a].id
                < #[trigger] t.rows[b].id by {
                let oa = if a < i { a } else { a + 1 };
                let ob = if b < i { b } else { b + 1 };
                assert(t.rows[a] == old_rows[oa] && t.rows[b] == old_rows[ob]);
            }
            assert forall|a: int, b: int|
                0 <= a < t.rows.len() && 0 <= b < t.rows.len() && a != b implies #[trigger] t.rows[a].email@
                != #[trigger] t.rows[b].email@ by {
                let oa = if a < i { a } else { a + 1 };
                let ob = if b < i { b } else { b + 1 };
                assert(t.rows[a] == old_rows[oa] && t.rows[b] == old_rows[ob]);
            }
            assert forall|a: int| 0 <= a < t.rows.len() implies (#[trigger] t.rows[a]).is_valid() by {
                let oa = if a < i { a } else { a + 1 };
                assert(t.rows[a] == old_rows[oa]);
            }
        }
    }
}

/// Fails with `EUNAUTHORIZED` unless the acting identity of `ctx` is the
/// owner of `target`.
pub fn authorize_owner(ctx: &Context, target: &User) -> (r: Result<(), Error>)
    ensures
        r.is_ok() == (ctx.acting_id() == target.id),
        r.is_err() ==> r->Err_0.code == ErrorCode::EUNAUTHORIZED,
{
    if Context::user_id_from_context(ctx) != target.id {
        return Err(
            Error::with_text(
                ErrorCode::EUNAUTHORIZED,
                "You do not have permission to change this user",
            ),
        );
    }
    Ok(())
}

/// The first of the users that a lookup returned, or `ENOTFOUND` where it
/// returned none.
pub fn first_found(users: &Vec<User>) -> (r: Result<User, Error>)
    ensures
        users@.len() == 0 ==> r.is_err() && r->Err_0.code == ErrorCode::ENOTFOUND,
        users@.len() > 0 ==> r == Ok::<User, Error>(users@[0]),
{
    if users.len() == 0 {
        return Err(Error::with_text(ErrorCode::ENOTFOUND, "User not found"));
    }
    Ok(users[0].duplicate())
}

/// Sets both times of a user about to be created to `now`, then validates it.
pub fn prepare_new_user(user: &mut User, now: i64) -> (r: Result<(), Error>)
    ensures
        *final(user) == stamped(*old(user), now),
        r.is_ok() == old(user).is_valid(),
        r.is_err() ==> r->Err_0.code == ErrorCode::EINVALID,
{
    user.created_at = now;
    user.updated_at = now;
    assert(*user == stamped(*old(user), now));
    user.validate()
}

/// `user` with the fields that `update` holds and the update time `now`,
/// where that result has an id and is valid; `EINVALID` where it has not or
/// is not.
pub fn apply_update(user: User, update: UserUpdate, now: i64) -> (r: Result<User, Error>)
    ensures
        stored_valid(merged(user, update, now)) ==> r == Ok::<User, Error>(
            merged(user, update, now),
        ),
        !stored_valid(merged(user, update, now)) ==> r.is_err() && r->Err_0.code
            == ErrorCode::EINVALID,
{
    let ghost found = user;
    let ghost patch = update;
    let mut user = user;
    if let Some(name) = update.name {
        user.name = name;
    }
    user.updated_at = now;
    assert(user == merged(found, patch, now));
    match user.validate_stored() {
        Ok(()) => Ok(user),
        Err(e) => Err(e),
    }
}

/// The error for a failed write of the store: `ECONFLICT` where it broke a
/// uniqueness constraint, `EINTERNAL` for any other failure.
pub fn store_error(unique_violation: bool, message: String) -> (r: Error)
    ensures
        r.code == if unique_violation {
            ErrorCode::ECONFLICT
        } else {
            ErrorCode::EINTERNAL
        },
        r.message@ == message@,
{
    if unique_violation {
        Error::new(ErrorCode::ECONFLICT, message)
    } else {
        Error::new(ErrorCode::EINTERNAL, message)
    }
}

/// Returns the page of users that `filters` selects and how many match in
/// all, read inside the transaction `tx`.
fn find_users(_ctx: &Context, tx: &UserTable, filters: &UserFilter) -> (r: Result<
    (Vec<User>, usize),
    Error,
>)
    ensures
        r.is_ok(),
        r->Ok_0.0@ == find_many(tx@, *filters).0,
        r->Ok_0.1 == find_many(tx@, *filters).1,
{
    Ok(tx.select(filters))
}

/// Returns the user with id `id`, or fails with `ENOTFOUND`.
fn find_user_by_id(ctx: &Context, tx: &UserTable, id: i64) -> (r: Result<User, Error>)
    ensures
        codes(r) == find_by_id(tx@, id),
{
    let filters = UserFilter::by_id(id);
    assert(filters == id_filter(id));
    let (users, _total) = match find_users(ctx, tx, &filters) {
        Ok(found) => found,
        Err(e) => return Err(e),
    };
    first_found(&users)
}

/// Returns the user with email `email`, or fails with `ENOTFOUND`.
fn find_user_by_email(ctx: &Context, tx: &UserTable, email: String) -> (r: Result<User, Error>)
    ensures
        codes(r) == find_by_email(tx@, email),
{
    let ghost e = email;
    let filters = UserFilter::by_email(email);
    assert(filters == email_filter(e));
    let (users, _total) = match find_users(ctx, tx, &filters) {
        Ok(found) => found,
        Err(e) => return Err(e),
    };
    first_found(&users)
}

/// Stamps `user` with the time `now`, validates it and inserts it in `tx`,
/// where it gets the next id.
fn create_user(_ctx: &Context, tx: &mut UserTable, user: &mut User, now: i64) -> (r: Result<
    (),
    Error,
>)
    requires
        table_wf(old(tx)@),
    ensures
        table_wf(final(tx)@),
        match create_error(old(tx)@, *old(user)) {
            Some(c) => {
                &&& r.is_err() && r->Err_0.code == c
                &&& final(tx)@ == old(tx)@
                &&& *final(user) == stamped(*old(user), now)
            },
            None => {
                &&& r.is_ok()
                &&& *final(user) == with_id(stamped(*old(user), now), (old(tx)@.last_id + 1) as i64)
                &&& final(tx)@ == inserted(old(tx)@, *final(user))
            },
        },
{
    if let Err(e) = prepare_new_user(user, now) {
        return Err(e);
    }
    tx.insert(user)
}

/// Deletes the user with id `id` from `tx`, where the acting identity of
/// `ctx` is that user's own.
fn delete_user(ctx: &Context, tx: &mut UserTable, id: i64) -> (r: Result<(), Error>)
    requires
        table_wf(old(tx)@),
    ensures
        table_wf(final(tx)@),
        match authorized_target(old(tx)@, ctx.acting_id(), id) {
            Err(c) => r.is_err() && r->Err_0.code == c && final(tx)@ == old(tx)@,
            Ok(_) => r.is_ok() && final(tx)@ == deleted(old(tx)@, id),
        },
{
    let user = match find_user_by_id(ctx, tx, id) {
        Ok(user) => user,
        Err(e) => return Err(e),
    };
    if let Err(e) = authorize_owner(ctx, &user) {
        return Err(e);
    }
    tx.delete_row(id);
    Ok(())
}

/// Applies `update` at the time `now` to the user with id `id` in `tx`, where
/// the acting identity of `ctx` is that user's own, and returns the user as
/// written.
fn update_user(ctx: &Context, tx: &mut UserTable, id: i64, update: UserUpdate, now: i64) -> (r:
    Result<User, Error>)
    requires
        table_wf(old(tx)@),
    ensures
        table_wf(final(tx)@),
        match update_error(old(tx)@, ctx.acting_id(), id, update) {
            Some(c) => r.is_err() && r->Err_0.code == c && final(tx)@ == old(tx)@,
            None => {
                &&& r.is_ok()
                &&& r->Ok_0 == merged(
                    authorized_target(old(tx)@, ctx.acting_id(), id)->Ok_0,
                    update,
                    now,
                )
                &&& final(tx)@ == replaced(old(tx)@, r->Ok_0)
            },
        },
{
    let found = match find_user_by_id(ctx, tx, id) {
        Ok(user) => user,
        Err(e) => return Err(e),
    };
    if let Err(e) = authorize_owner(ctx, &found) {
        return Err(e);
    }
    let ghost target = found;
    let user = match apply_update(found, update, now) {
        Ok(user) => user,
        Err(e) => return Err(e),
    };
    proof {
        lemma_find_by_id(tx@, id);
        if forall|i: int| 0 <= i < tx@.rows.len() ==> #[trigger] tx@.rows[i].id != id {
        } else {
            let i = choose|i: int| 0 <= i < tx@.rows.len() && #[trigger] tx@.rows[i].id == id;
            assert(tx@.rows[i] == target);
        }
    }
    tx.replace_row(user.duplicate());
    Ok(user)
}

/// The user repository over an in-memory table. Each operation that writes
/// runs in a transaction of its own: it works on a copy of the table, which
/// replaces the table only where the operation succeeds, so a failed
/// operation leaves the table as it was.
pub struct UserService {
    db: UserTable,
}

impl View for UserService {
    type V = TableView;

    closed spec fn view(&self) -> TableView {
        self.db@
    }
}

impl UserService {
    #[verifier::type_invariant]
    closed spec fn inv(&self) -> bool {
        table_wf(self.db@)
    }

    /// A repository with no users.
    pub fn new() -> (r: UserService)
        ensures
            r@.rows.len() == 0,
            r@.last_id == 0,
            table_wf(r@),
    {
        UserService { db: UserTable::new() }
    }

    /// Creates `user`: sets both its times to now, validates it, and stores
    /// it under the next id, which it writes into `user`. Fails with
    /// `EINVALID` on an invalid user, `ECONFLICT` where the email is taken and
    /// `EINTERNAL` where no id is left; then nothing is stored.
    pub fn create_user(&mut self, ctx: &Context, user: &mut User) -> (r: Result<(), Error>)
        ensures
            table_wf(final(self)@),
            final(user).created_at == final(user).updated_at,
            match create_error(old(self)@, *old(user)) {
                Some(c) => {
                    &&& r.is_err() && r->Err_0.code == c
                    &&& final(self)@ == old(self)@
                    &&& *final(user) == stamped(*old(user), final(user).created_at)
                },
                None => {
                    &&& r.is_ok()
                    &&& *final(user) == with_id(
                        stamped(*old(user), final(user).created_at),
                        (old(self)@.last_id + 1) as i64,
                    )
                    &&& final(self)@ == inserted(old(self)@, *final(user))
                },
            },
    {
        proof {
            use_type_invariant(&*self);
        }
        let mut tx = self.db.snapshot();
        let now = now_micros();
        let result = create_user(ctx, &mut tx, user, now);
        if result.is_ok() {
            self.db = tx;
        }
        result
    }

    /// Deletes the user with id `id`. Fails with `ENOTFOUND` where there is no
    /// such user and with `EUNAUTHORIZED` where the acting identity of `ctx`
    /// is not that user; then nothing changes.
    pub fn delete_user(&mut self, ctx: &Context, id: i64) -> (r: Result<(), Error>)
        ensures
            table_wf(final(self)@),
            match authorized_target(old(self)@, ctx.acting_id(), id) {
                Err(c) => r.is_err() && r->Err_0.code == c && final(self)@ == old(self)@,
                Ok(_) => r.is_ok() && final(self)@ == deleted(old(self)@, id),
            },
    {
        proof {
            use_type_invariant(&*self);
        }
        let mut tx = self.db.snapshot();
        let result = delete_user(ctx, &mut tx, id);
        if result.is_ok() {
            self.db = tx;
        }
        result
    }

    /// Applies `user` to the user with id `id`, sets its update time to now,
    /// and returns the user as stored. Fails with `ENOTFOUND`,
    /// `EUNAUTHORIZED` where the acting identity of `ctx` is not that user, or
    /// `EINVALID` where the result would be invalid; then nothing changes.
    pub fn update_user(&mut self, ctx: &Context, id: i64, user: UserUpdate) -> (r: Result<
        User,
        Error,
    >)
        ensures
            table_wf(final(self)@),
            match update_error(old(self)@, ctx.acting_id(), id, user) {
                Some(c) => r.is_err() && r->Err_0.code == c && final(self)@ == old(self)@,
                None => {
                    &&& r.is_ok()
                    &&& r->Ok_0 == merged(
                        authorized_target(old(self)@, ctx.acting_id(), id)->Ok_0,
                        user,
                        r->Ok_0.updated_at,
                    )
                    &&& final(self)@ == replaced(old(self)@, r->Ok_0)
                },
            },
    {
        proof {
            use_type_invariant(&*self);
        }
        let mut tx = self.db.snapshot();
        let now = now_micros();
        let result = update_user(ctx, &mut tx, id, user, now);
        if result.is_ok() {
            self.db = tx;
        }
        result
    }

    /// Returns the user with id `id`, or fails with `ENOTFOUND`.
    pub fn find_user_by_id(&self, ctx: &Context, id: i64) -> (r: Result<User, Error>)
        ensures
            codes(r) == find_by_id(self@, id),
    {
        find_user_by_id(ctx, &self.db, id)
    }

    /// Returns the user with email `email`, or fails with `ENOTFOUND`.
    pub fn find_user_by_email(&self, ctx: &Context, email: String) -> (r: Result<User, Error>)
        ensures
            codes(r) == find_by_email(self@, email),
    {
        find_user_by_email(ctx, &self.db, email)
    }

    /// Returns the page of users that `filters` selects, in increasing order
    /// of id, and how many users match it in all.
    pub fn find_users(&self, ctx: &Context, filters: UserFilter) -> (r: Result<
        (Vec<User>, usize),
        Error,
    >)
        ensures
            r.is_ok(),
            r->Ok_0.0@ == find_many(self@, filters).0,
            r->Ok_0.1 == find_many(self@, filters).1,
    {
        find_users(ctx, &self.db, &filters)
    }
}

/// A user that is valid, with an email that no row has, is created under the
/// next id, and a lookup of that id then returns it with the name, email and
/// password it was given, a non-zero id and a creation time no later than its
/// update time.
pub proof fn lemma_create_then_find(t: TableView, u: User, now: i64)
    requires
        table_wf(t),
        u.is_valid(),
        !email_taken(t, u.email@),
        t.last_id < i64::MAX,
    ensures
        create_error(t, u).is_none(),
        ({
            let c = with_id(stamped(u, now), (t.last_id + 1) as i64);
            let after = inserted(t, c);
            &&& table_wf(after)
            &&& find_by_id(after, c.id) == Ok::<User, ErrorCode>(c)
            &&& c.name == u.name && c.email == u.email && c.password == u.password
            &&& c.id != 0
            &&& c.created_at <= c.updated_at
        }),
{
    let c = with_id(stamped(u, now), (t.last_id + 1) as i64);
    let after = inserted(t, c);
    lemma_inserted_wf(t, c);
    lemma_find_by_id(after, c.id);
    assert(after.rows[t.rows.len() as int] == c);
}

/// Adding a valid row with the next id and a free email keeps the invariant.
proof fn lemma_inserted_wf(t: TableView, c: User)
    requires
        table_wf(t),
        c.is_valid(),
        !email_taken(t, c.email@),
        c.id == t.last_id + 1,
    ensures
        table_wf(inserted(t, c)),
{
    let after = inserted(t, c);
    let n = t.rows.len() as int;
    assert forall|a: int| 0 <= a < after.rows.len() implies 0 < #[trigger] after.rows[a].id
        <= after.last_id by {
        if a < n {
            assert(after.rows[a] == t.rows[a]);
        }
    }
    assert forall|a: int, b: int| 0 <= a < b < after.rows.len() implies #[trigger] after.rows[a].id
        < #[trigger] after.rows[b].id by {
        assert(after.rows[a] == t.rows[a]);
        if b < n {
            assert(after.rows[b] == t.rows[b]);
        }
    }
    assert forall|a: int, b: int|
        0 <= a < after.rows.len() && 0 <= b < after.rows.len() && a != b implies #[trigger] after.rows[a].email@
        != #[trigger] after.rows[b].email@ by {
        if a < n && b < n {
            assert(after.rows[a] == t.rows[a] && after.rows[b] == t.rows[b]);
        } else if a < n {
            assert(after.rows[a] == t.rows[a]);
            assert(t.rows[a].email@ != c.email@);
        } else {
            assert(after.rows[b] == t.rows[b]);
            assert(t.rows[b].email@ != c.email@);
        }
    }
    assert forall|a: int| 0 <= a < after.rows.len() implies (#[trigger] after.rows[a]).is_valid() by {
        if a < n {
            assert(after.rows[a] == t.rows[a]);
        }
    }
}

/// Once a user is created, creating another valid user with the same email
/// fails with `ECONFLICT`, and the first is still found by its id.
pub proof fn lemma_same_email_conflicts(t: TableView, first: User, second: User, now: i64)
    requires
        table_wf(t),
        first.is_valid(),
        !email_taken(t, first.email@),
        t.last_id < i64::MAX,
        second.is_valid(),
        second.email@ == first.email@,
    ensures
        ({
            let c = with_id(stamped(first, now), (t.last_id + 1) as i64);
            let after = inserted(t, c);
            &&& create_error(after, second) == Some(ErrorCode::ECONFLICT)
            &&& find_by_id(after, c.id) == Ok::<User, ErrorCode>(c)
        }),
{
    let c = with_id(stamped(first, now), (t.last_id + 1) as i64);
    let after = inserted(t, c);
    lemma_create_then_find(t, first, now);
    assert(after.rows[t.rows.len() as int].email@ == second.email@);
    assert(email_taken(after, second.email@));
}

/// A lookup by an id or an email that no user has fails with `ENOTFOUND`.
pub proof fn lemma_missing_not_found(t: TableView, id: i64, email: String)
    requires
        table_wf(t),
    ensures
        (forall|i: int| 0 <= i < t.rows.len() ==> #[trigger] t.rows[i].id != id) ==> find_by_id(
            t,
            id,
        ) == Err::<User, ErrorCode>(ErrorCode::ENOTFOUND),
        !email_taken(t, email@) ==> find_by_email(t, email) == Err::<User, ErrorCode>(
            ErrorCode::ENOTFOUND,
        ),
{
    lemma_find_by_id(t, id);
    lemma_find_by_email(t, email);
}

/// Deleting an existing user is refused with `EUNAUTHORIZED` for any other
/// acting identity; for the user's own identity it succeeds, and a later
/// lookup of the id fails with `ENOTFOUND`.
pub proof fn lemma_delete_authorization(t: TableView, acting: i64, id: i64)
    requires
        table_wf(t),
        find_by_id(t, id).is_ok(),
    ensures
        acting != id ==> authorized_target(t, acting, id) == Err::<User, ErrorCode>(
            ErrorCode::EUNAUTHORIZED,
        ),
        acting == id ==> authorized_target(t, acting, id).is_ok() && find_by_id(deleted(t, id), id)
            == Err::<User, ErrorCode>(ErrorCode::ENOTFOUND),
{
    lemma_find_by_id(t, id);
    let i = choose|i: int| 0 <= i < t.rows.len() && #[trigger] t.rows[i].id == id;
    assert(find_by_id(t, id) == Ok::<User, ErrorCode>(t.rows[i]));
    assert forall|j: int| 0 <= j < t.rows.len() && j != i implies #[trigger] t.rows[j].id != id by {
        if j < i {
            assert(t.rows[j].id < t.rows[i].id);
        } else {
            assert(t.rows[i].id < t.rows[j].id);
        }
    }
    lemma_without_id_single(t.rows, id, i);
    let rest = deleted(t, id).rows;
    assert forall|j: int| 0 <= j < rest.len() implies !user_matches(id_filter(id), #[trigger] rest[j]) by {
        if j < i {
            assert(rest[j] == t.rows[j]);
        } else {
            assert(rest[j] == t.rows[j + 1]);
        }
    }
    lemma_matching_none(rest, id_filter(id));
}

/// Renaming an existing user to a non-empty name is refused with
/// `EUNAUTHORIZED` for any other acting identity; for the user's own identity
/// it succeeds, changes only the name and the update time, and a later lookup
/// of the id returns the renamed user.
pub proof fn lemma_update_authorization(t: TableView, acting: i64, id: i64, name: String, now: i64)
    requires
        table_wf(t),
        find_by_id(t, id).is_ok(),
        name@.len() > 0,
    ensures
        ({
            let patch = UserUpdate { name: Some(name) };
            let before = find_by_id(t, id)->Ok_0;
            let after = merged(before, patch, now);
            &&& acting != id ==> update_error(t, acting, id, patch) == Some(ErrorCode::EUNAUTHORIZED)
            &&& acting == id ==> {
                &&& update_error(t, acting, id, patch).is_none()
                &&& after.name == name && after.updated_at == now
                &&& after.id == before.id && after.email == before.email
                &&& after.password == before.password && after.created_at == before.created_at
                &&& table_wf(replaced(t, after))
                &&& find_by_id(replaced(t, after), id) == Ok::<User, ErrorCode>(after)
            }
        }),
{
    let patch = UserUpdate { name: Some(name) };
    lemma_find_by_id(t, id);
    let i = choose|i: int| 0 <= i < t.rows.len() && #[trigger] t.rows[i].id == id;
    let before = t.rows[i];
    assert(find_by_id(t, id) == Ok::<User, ErrorCode>(before));
    let after = merged(before, patch, now);
    assert(t.rows[i].is_valid());
    if acting == id {
        let t2 = replaced(t, after);
        assert forall|j: int| 0 <= j < t.rows.len() implies #[trigger] t2.rows[j] == if j == i {
            after
        } else {
            t.rows[j]
        } by {
            if j < i {
                assert(t.rows[j].id < t.rows[i].id);
            } else if j > i {
                assert(t.rows[i].id < t.rows[j].id);
            }
        }
        assert forall|a: int, b: int|
            0 <= a < t2.rows.len() && 0 <= b < t2.rows.len() && a != b implies #[trigger] t2.rows[a].email@
            != #[trigger] t2.rows[b].email@ by {
            assert(t.rows[a].email@ != t.rows[b].email@);
        }
        assert forall|a: int, b: int| 0 <= a < b < t2.rows.len() implies #[trigger] t2.rows[a].id
            < #[trigger] t2.rows[b].id by {
            assert(t.rows[a].id < t.rows[b].id);
        }
        assert forall|a: int| 0 <= a < t2.rows.len() implies 0 < #[trigger] t2.rows[a].id
            <= t2.last_id by {
            assert(t.rows[a].id == t2.rows[a].id);
        }
        assert forall|a: int| 0 <= a < t2.rows.len() implies (#[trigger] t2.rows[a]).is_valid() by {
            assert(t.rows[a].is_valid());
        }
        lemma_find_by_id(t2, id);
        assert(t2.rows[i] == after);
    }
}

} // verus!
