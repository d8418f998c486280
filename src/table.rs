use vstd::prelude::*;

use crate::query::{choose_selector, page_offset, selected_by, str_view, Selector};
use crate::user::{User, UserRole};

verus! {

/// Why the table refused a change.
#[derive(Debug, Clone, Copy, PartialEq, Eq, Structural)]
pub enum StoreError {
    DuplicateId,
    DuplicateName,
    DuplicateEmail,
    DuplicateToken,
    NotFound,
}

/// Two records share none of the unique columns.
pub open spec fn distinct(a: User, b: User) -> bool {
    &&& a.id != b.id
    &&& a.name@ != b.name@
    &&& a.email@ != b.email@
    &&& !(a.verification_token matches Some(t) && b.holds_token(t@))
}

/// The table's invariant over its rows, kept in order of insertion, and the
/// time of its latest write.
pub open spec fn rows_wf(rows: Seq<User>, clock: i64) -> bool {
    &&& rows.len() <= i64::MAX
    &&& forall|i: int| 0 <= i < rows.len() ==> (#[trigger] rows[i]).wf() && rows[i].updated_at <= clock
    &&& forall|i: int, j: int|
        0 <= i < rows.len() && 0 <= j < rows.len() && i != j ==> distinct(
            #[trigger] rows[i],
            #[trigger] rows[j],
        )
    &&& forall|i: int, j: int|
        0 <= i <= j < rows.len() ==> (#[trigger] rows[i]).created_at <= (#[trigger] rows[j]).created_at
}

/// The time stamped on a write made at `now`: timestamps never go back.
pub open spec fn next_clock(clock: i64, now: i64) -> i64 {
    if now > clock {
        now
    } else {
        clock
    }
}

/// The rows listed newest first.
pub open spec fn newest_first(rows: Seq<User>) -> Seq<User> {
    Seq::new(rows.len(), |k: int| rows[rows.len() - 1 - k])
}

/// Page `page` of size `limit` of the newest-first listing: it skips
/// `page_offset(page, limit)` rows and holds at most `limit` of those left.
pub open spec fn page_of(rows: Seq<User>, page: nat, limit: nat) -> Seq<User> {
    let n = rows.len();
    let start = if page_offset(page, limit) < n {
        page_offset(page, limit)
    } else {
        n
    };
    let end = if start + limit < n {
        start + limit
    } else {
        n
    };
    newest_first(rows).subrange(start as int, end as int)
}

/// Some row has id `id`.
pub open spec fn has_id(rows: Seq<User>, id: u128) -> bool {
    exists|i: int| 0 <= i < rows.len() && (#[trigger] rows[i]).id == id
}

/// The first unique column that a new record would share with a row.
pub open spec fn insert_clash(
    rows: Seq<User>,
    id: u128,
    name: Seq<char>,
    email: Seq<char>,
    token: Seq<char>,
) -> Option<StoreError> {
    if has_id(rows, id) {
        Some(StoreError::DuplicateId)
    } else if exists|i: int| 0 <= i < rows.len() && (#[trigger] rows[i]).name@ == name {
        Some(StoreError::DuplicateName)
    } else if exists|i: int| 0 <= i < rows.len() && (#[trigger] rows[i]).email@ == email {
        Some(StoreError::DuplicateEmail)
    } else if exists|i: int| 0 <= i < rows.len() && (#[trigger] rows[i]).holds_token(token) {
        Some(StoreError::DuplicateToken)
    } else {
        None
    }
}

/// `u` is the record an insert writes at time `at`: unverified, with the
/// default role and its token pending.
pub open spec fn is_new_record(
    u: User,
    id: u128,
    name: Seq<char>,
    email: Seq<char>,
    password: Seq<char>,
    token: Seq<char>,
    expires_at: i64,
    at: i64,
) -> bool {
    &&& u.id == id
    &&& u.name@ == name
    &&& u.email@ == email
    &&& u.password@ == password
    &&& !u.verified
    &&& u.created_at == at
    &&& u.updated_at == at
    &&& u.holds_token(token)
    &&& u.token_expires_at == Some(expires_at)
    &&& u.role == UserRole::User
}

/// `u` after its pending token was redeemed at time `at`.
pub open spec fn redeemed(u: User, at: i64) -> User {
    User { verified: true, verification_token: None, token_expires_at: None, updated_at: at, ..u }
}

/// A row other than the one with id `id` has name `name`.
pub open spec fn name_taken_by_other(rows: Seq<User>, id: u128, name: Seq<char>) -> bool {
    exists|j: int| 0 <= j < rows.len() && (#[trigger] rows[j]).id != id && rows[j].name@ == name
}

/// A row other than the one with id `id` holds token `token`.
pub open spec fn token_taken_by_other(rows: Seq<User>, id: u128, token: Seq<char>) -> bool {
    exists|j: int| 0 <= j < rows.len() && (#[trigger] rows[j]).id != id && rows[j].holds_token(token)
}

/// An in-memory `users` table.
pub struct UserTable {
    rows: Vec<User>,
    clock: i64,
}

impl View for UserTable {
    type V = Seq<User>;

    closed spec fn view(&self) -> Seq<User> {
        self.rows@
    }
}

impl UserTable {
    /// The time of the latest write.
    pub closed spec fn time(&self) -> i64 {
        self.clock
    }

    pub open spec fn wf(&self) -> bool {
        rows_wf(self@, self.time())
    }

    /// An empty table.
    pub fn new() -> (r: UserTable)
        ensures
            r.wf(),
            r@ == Seq::<User>::empty(),
    {
        UserTable { rows: Vec::new(), clock: i64::MIN }
    }

    /// Looks a record up by the first selector supplied, in the order id,
    /// name, email, token; the others are ignored. `None` when no row
    /// matches or no selector is supplied.
    pub fn get_user(
        &self,
        user_id: Option<u128>,
        name: Option<&str>,
        email: Option<&str>,
        token: Option<&str>,
    ) -> (r: Option<User>)
        ensures
            r matches Some(u) ==> self@.contains(u) && selected_by(
                u,
                user_id,
                str_view(name),
                str_view(email),
                str_view(token),
            ),
            r is None <==> forall|i: int|
                0 <= i < self@.len() ==> !selected_by(
                    #[trigger] self@[i],
                    user_id,
                    str_view(name),
                    str_view(email),
                    str_view(token),
                ),
    {
        match choose_selector(user_id, name, email, token) {
            None => None,
            Some(sel) => {
                assert forall|u: User|
                    sel.matches(u) == selected_by(
                        u,
                        user_id,
                        str_view(name),
                        str_view(email),
                        str_view(token),
                    ) by {}
                match self.position(&sel) {
                    Some(i) => {
                        let u = self.rows[i].snapshot();
                        assert(self@[i as int] == u);
                        Some(u)
                    },
                    None => None,
                }
            },
        }
    }

    /// Page `page` (counted from 1; 0 reads as 1) of size `limit` of the
    /// records, newest first. A page past the end is empty.
    pub fn get_users(&self, page: u32, limit: usize) -> (r: Vec<User>)
        ensures
            r@ == page_of(self@, page as nat, limit as nat),
    {
        let n: usize = self.rows.len();
        let before: u32 = page.saturating_sub(1);
        proof {
            assert((before as nat) * (limit as nat) <= (u32::MAX as nat) * (u64::MAX as nat))
                by (nonlinear_arith)
                requires
                    before <= u32::MAX,
                    limit <= u64::MAX,
            ;
            if page > 0 {
                assert(page_offset(page as nat, limit as nat) == (page - 1) as nat * limit as nat);
            }
        }
        let skipped: u128 = (before as u128) * (limit as u128);
        assert(skipped == page_offset(page as nat, limit as nat));
        let start: usize = if skipped < n as u128 {
            skipped as usize
        } else {
            n
        };
        let end: usize = if limit < n - start {
            start + limit
        } else {
            n
        };
        let mut out: Vec<User> = Vec::new();
        let mut k: usize = start;
        while k < end
            invariant
                start <= k <= end <= n,
                n == self@.len(),
                out@ == newest_first(self@).subrange(start as int, k as int),
            decreases end - k,
        {
            let u = self.rows[n - 1 - k].snapshot();
            out.push(u);
            k += 1;
            assert(out@ =~= newest_first(self@).subrange(start as int, k as int));
        }
        out
    }

    /// The number of records.
    pub fn get_user_count(&self) -> (r: i64)
        requires
            self.wf(),
        ensures
            r == self@.len(),
    {
        self.rows.len() as i64
    }

    /// Inserts a new record with id `id`, written at time `now`: it starts
    /// unverified, with the default role and its token pending. Fails, and
    /// leaves the table as it was, when the id, name, email or token is
    /// already held by a row.
    pub fn save_user(
        &mut self,
        id: u128,
        name: &str,
        email: &str,
        password: &str,
        verification_token: &str,
        token_expires_at: i64,
        now: i64,
    ) -> (r: Result<User, StoreError>)
        requires
            old(self).wf(),
            old(self)@.len() < i64::MAX,
        ensures
            final(self).wf(),
            match insert_clash(old(self)@, id, name@, email@, verification_token@) {
                Some(e) => r == Err::<User, StoreError>(e) && *final(self) == *old(self),
                None => r matches Ok(u) && is_new_record(
                    u,
                    id,
                    name@,
                    email@,
                    password@,
                    verification_token@,
                    token_expires_at,
                    next_clock(old(self).time(), now),
                ) && final(self)@ == old(self)@.push(u) && final(self).time() == next_clock(
                    old(self).time(),
                    now,
                ),
            },
    {
        let ghost rows = self@;
        if let Some(i) = self.position(&Selector::Id(id)) {
            assert(rows[i as int].id == id);
            return Err(StoreError::DuplicateId);
        }
        if let Some(i) = self.position(&Selector::Name(name.to_owned())) {
            assert(rows[i as int].name@ == name@);
            return Err(StoreError::DuplicateName);
        }
        if let Some(i) = self.position(&Selector::Email(email.to_owned())) {
            assert(rows[i as int].email@ == email@);
            return Err(StoreError::DuplicateEmail);
        }
        let by_token = Selector::Token(verification_token.to_owned());
        if let Some(i) = self.position(&by_token) {
            assert(rows[i as int].holds_token(verification_token@));
            return Err(StoreError::DuplicateToken);
        }
        let at: i64 = if now > self.clock {
            now
        } else {
            self.clock
        };
        let u = User {
            id,
            name: name.to_owned(),
            email: email.to_owned(),
            password: password.to_owned(),
            verified: false,
            created_at: at,
            updated_at: at,
            verification_token: Some(verification_token.to_owned()),
            token_expires_at: Some(token_expires_at),
            role: UserRole::User,
        };
        self.rows.push(u.snapshot());
        self.clock = at;
        proof {
            let n = rows.len() as int;
            assert(self@ == rows.push(u));
            assert forall|i: int| 0 <= i < n implies distinct(rows[i], u) && distinct(u, rows[i]) by {
                assert(!by_token.matches(rows[i]));
            }
            assert forall|i: int, j: int|
                0 <= i < self@.len() && 0 <= j < self@.len() && i != j implies distinct(
                #[trigger] self@[i],
                #[trigger] self@[j],
            ) by {
                if i < n && j < n {
                    assert(self@[i] == rows[i] && self@[j] == rows[j]);
                }
            }
        }
        Ok(u)
    }

    /// Looks the row with id `id` up.
    fn index_of_id(&self, id: u128) -> (r: Option<usize>)
        requires
            self.wf(),
        ensures
            r matches Some(i) ==> i < self@.len() && self@[i as int].id == id,
            r is None <==> !has_id(self@, id),
    {
        let r = self.position(&Selector::Id(id));
        if r.is_none() {
            assert(forall|i: int| 0 <= i < self@.len() ==> !Selector::Id(id).matches(#[trigger] self@[i]));
        }
        r
    }

    /// Writes `u` over row `i` at time `at`.
    fn replace_row(&mut self, i: usize, u: User, at: i64)
        requires
            old(self).wf(),
            i < old(self)@.len(),
            u.wf(),
            u.created_at == old(self)@[i as int].created_at,
            u.updated_at == at,
            old(self).time() <= at,
            forall|j: int|
                0 <= j < old(self)@.len() && j != i ==> distinct(u, #[trigger] old(self)@[j])
                    && distinct(old(self)@[j], u),
        ensures
            final(self).wf(),
            final(self)@ == old(self)@.update(i as int, u),
            final(self).time() == at,
    {
        let ghost rows = self@;
        self.rows.set(i, u);
        self.clock = at;
        proof {
            assert forall|a: int, b: int|
                0 <= a < self@.len() && 0 <= b < self@.len() && a != b implies distinct(
                #[trigger] self@[a],
                #[trigger] self@[b],
            ) by {
                if a != i && b != i {
                    assert(self@[a] == rows[a] && self@[b] == rows[b]);
                }
            }
            assert forall|a: int, b: int| 0 <= a <= b < self@.len() implies (
            #[trigger] self@[a]).created_at <= (#[trigger] self@[b]).created_at by {
                assert(self@[a].created_at == rows[a].created_at);
                assert(self@[b].created_at == rows[b].created_at);
            }
        }
    }

    /// The time stamped on a write made at `now`.
    fn tick(&self, now: i64) -> (r: i64)
        ensures
            r == next_clock(self.time(), now),
    {
        if now > self.clock {
            now
        } else {
            self.clock
        }
    }

    /// Renames the record with id `id` at time `now`. Fails, and leaves the
    /// table as it was, when no row has that id or another row has that name.
    pub fn update_user_name(&mut self, user_id: u128, name: &str, now: i64) -> (r: Result<
        User,
        StoreError,
    >)
        requires
            old(self).wf(),
        ensures
            final(self).wf(),
            !has_id(old(self)@, user_id) ==> r == Err::<User, StoreError>(StoreError::NotFound)
                && *final(self) == *old(self),
            has_id(old(self)@, user_id) && name_taken_by_other(old(self)@, user_id, name@) ==> r
                == Err::<User, StoreError>(StoreError::DuplicateName) && *final(self) == *old(self),
            has_id(old(self)@, user_id) && !name_taken_by_other(old(self)@, user_id, name@) ==> (
            r matches Ok(u) && u.name@ == name@ && exists|i: int|
                0 <= i < old(self)@.len() && old(self)@[i].id == user_id && u == (User {
                    name: u.name,
                    updated_at: next_clock(old(self).time(), now),
                    ..old(self)@[i]
                }) && final(self)@ == old(self)@.update(i, u)) && final(self).time() == next_clock(
                old(self).time(),
                now,
            ),
    {
        let ghost rows = self@;
        let i = match self.index_of_id(user_id) {
            None => return Err(StoreError::NotFound),
            Some(i) => i,
        };
        let by_name = Selector::Name(name.to_owned());
        if let Some(j) = self.position(&by_name) {
            if j != i {
                assert(rows[j as int].id != user_id);
                return Err(StoreError::DuplicateName);
            }
        }
        assert(!name_taken_by_other(rows, user_id, name@)) by {
            assert forall|j: int| 0 <= j < rows.len() && (#[trigger] rows[j]).id != user_id implies rows[j].name@ != name@ by {
                assert(!by_name.matches(rows[j]) || j == i);
            }
        }
        let at = self.tick(now);
        let mut u = self.rows[i].snapshot();
        u.name = name.to_owned();
        u.updated_at = at;
        self.replace_row(i, u.snapshot(), at);
        Ok(u)
    }

    /// Sets the role of the record with id `id` at time `now`. Fails, and
    /// leaves the table as it was, when no row has that id.
    pub fn update_user_role(&mut self, user_id: u128, new_role: UserRole, now: i64) -> (r: Result<
        User,
        StoreError,
    >)
        requires
            old(self).wf(),
        ensures
            final(self).wf(),
            !has_id(old(self)@, user_id) ==> r == Err::<User, StoreError>(StoreError::NotFound)
                && *final(self) == *old(self),
            has_id(old(self)@, user_id) ==> (r matches Ok(u) && exists|i: int|
                0 <= i < old(self)@.len() && old(self)@[i].id == user_id && u == (User {
                    role: new_role,
                    updated_at: next_clock(old(self).time(), now),
                    ..old(self)@[i]
                }) && final(self)@ == old(self)@.update(i, u)) && final(self).time() == next_clock(
                old(self).time(),
                now,
            ),
    {
        let i = match self.index_of_id(user_id) {
            None => return Err(StoreError::NotFound),
            Some(i) => i,
        };
        let at = self.tick(now);
        let mut u = self.rows[i].snapshot();
        u.role = new_role;
        u.updated_at = at;
        self.replace_row(i, u.snapshot(), at);
        Ok(u)
    }

    /// Sets the password hash of the record with id `id` at time `now`.
    /// Fails, and leaves the table as it was, when no row has that id.
    pub fn update_user_password(&mut self, user_id: u128, new_password: String, now: i64) -> (r:
        Result<User, StoreError>)
        requires
            old(self).wf(),
        ensures
            final(self).wf(),
            !has_id(old(self)@, user_id) ==> r == Err::<User, StoreError>(StoreError::NotFound)
                && *final(self) == *old(self),
            has_id(old(self)@, user_id) ==> (r matches Ok(u) && exists|i: int|
                0 <= i < old(self)@.len() && old(self)@[i].id == user_id && u == (User {
                    password: new_password,
                    updated_at: next_clock(old(self).time(), now),
                    ..old(self)@[i]
                }) && final(self)@ == old(self)@.update(i, u)) && final(self).time() == next_clock(
                old(self).time(),
                now,
            ),
    {
        let i = match self.index_of_id(user_id) {
            None => return Err(StoreError::NotFound),
            Some(i) => i,
        };
        let at = self.tick(now);
        let mut u = self.rows[i].snapshot();
        u.password = new_password;
        u.updated_at = at;
        self.replace_row(i, u.snapshot(), at);
        Ok(u)
    }

    /// Redeems token `token` at time `now`: the row that holds it becomes
    /// verified and its token and expiry are cleared. When no row holds it
    /// nothing changes, and that is no error.
    pub fn verifed_token(&mut self, token: &str, now: i64)
        requires
            old(self).wf(),
        ensures
            final(self).wf(),
            (forall|i: int| 0 <= i < old(self)@.len() ==> !(#[trigger] old(self)@[i]).holds_token(token@))
                ==> *final(self) == *old(self),
            forall|i: int|
                0 <= i < old(self)@.len() && (#[trigger] old(self)@[i]).holds_token(token@) ==> final(self)@ == old(self)@.update(i, redeemed(old(self)@[i], next_clock(old(self).time(), now)))
                    && final(self).time() == next_clock(old(self).time(), now),
    {
        let ghost rows = self@;
        let by_token = Selector::Token(token.to_owned());
        if let Some(i) = self.position(&by_token) {
            let at = self.tick(now);
            let mut u = self.rows[i].snapshot();
            u.verified = true;
            u.verification_token = None;
            u.token_expires_at = None;
            u.updated_at = at;
            assert(u == redeemed(rows[i as int], at));
            self.replace_row(i, u, at);
            assert forall|k: int| 0 <= k < rows.len() && (#[trigger] rows[k]).holds_token(token@) implies k == i by {
                if k != i {
                    assert(distinct(rows[k], rows[i as int]));
                }
            }
        }
    }

    /// Gives the record with id `id` the pending token `token`, expiring at
    /// `expires_at`, at time `now`, over whatever token it held. With no row
    /// of that id nothing changes, and that is no error; when another row
    /// holds the token it fails and nothing changes.
    pub fn add_verifed_token(&mut self, user_id: u128, token: &str, expires_at: i64, now: i64) -> (r:
        Result<(), StoreError>)
        requires
            old(self).wf(),
        ensures
            final(self).wf(),
            !has_id(old(self)@, user_id) ==> r == Ok::<(), StoreError>(()) && *final(self) == *old(self),
            has_id(old(self)@, user_id) && token_taken_by_other(old(self)@, user_id, token@) ==> r
                == Err::<(), StoreError>(StoreError::DuplicateToken) && *final(self) == *old(self),
            has_id(old(self)@, user_id) && !token_taken_by_other(old(self)@, user_id, token@) ==> r
                == Ok::<(), StoreError>(()) && (exists|i: int|
                0 <= i < old(self)@.len() && old(self)@[i].id == user_id && final(self)@[i].holds_token(
                    token@,
                ) && final(self)@ == old(self)@.update(
                    i,
                    User {
                        verification_token: final(self)@[i].verification_token,
                        token_expires_at: Some(expires_at),
                        updated_at: next_clock(old(self).time(), now),
                        ..old(self)@[i]
                    },
                )) && final(self).time() == next_clock(old(self).time(), now),
    {
        let ghost rows = self@;
        let i = match self.index_of_id(user_id) {
            None => return Ok(()),
            Some(i) => i,
        };
        let by_token = Selector::Token(token.to_owned());
        if let Some(j) = self.position(&by_token) {
            if j != i {
                assert(rows[j as int].id != user_id);
                return Err(StoreError::DuplicateToken);
            }
        }
        assert(!token_taken_by_other(rows, user_id, token@)) by {
            assert forall|j: int| 0 <= j < rows.len() && (#[trigger] rows[j]).id != user_id implies !rows[j].holds_token(token@) by {
                assert(!by_token.matches(rows[j]) || j == i);
            }
        }
        let at = self.tick(now);
        let mut u = self.rows[i].snapshot();
        u.verification_token = Some(token.to_owned());
        u.token_expires_at = Some(expires_at);
        u.updated_at = at;
        proof {
            assert forall|j: int| 0 <= j < rows.len() && j != i implies distinct(u, #[trigger] rows[j])
                && distinct(rows[j], u) by {
                assert(distinct(rows[i as int], rows[j]));
                assert(!by_token.matches(rows[j]));
            }
        }
        self.replace_row(i, u, at);
        Ok(())
    }

    /// The index of the first row that `sel` picks.
    fn position(&self, sel: &Selector) -> (r: Option<usize>)
        ensures
            r matches Some(i) ==> i < self@.len() && sel.matches(self@[i as int]),
            r is None ==> forall|i: int| 0 <= i < self@.len() ==> !sel.matches(#[trigger] self@[i]),
    {
        let mut i: usize = 0;
        while i < self.rows.len()
            invariant
                i <= self@.len(),
                forall|k: int| 0 <= k < i ==> !sel.matches(#[trigger] self@[k]),
            decreases self@.len() - i,
        {
            if sel.matches_user(&self.rows[i]) {
                return Some(i);
            }
            i += 1;
        }
        None
    }
}

} // verus!
