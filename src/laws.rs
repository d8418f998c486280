use vstd::prelude::*;

use crate::query::{page_offset, selected_by};
use crate::table::{
    distinct, has_id, insert_clash, is_new_record, next_clock, page_of, redeemed, rows_wf,
    StoreError,
};
use crate::user::User;

verus! {

/// A record that an insert writes has an id that no earlier row had, and
/// once it is added no other row shares that id.
pub proof fn insert_gives_fresh_id(
    rows: Seq<User>,
    clock: i64,
    u: User,
    id: u128,
    name: Seq<char>,
    email: Seq<char>,
    password: Seq<char>,
    token: Seq<char>,
    expires_at: i64,
    now: i64,
)
    requires
        rows_wf(rows, clock),
        insert_clash(rows, id, name, email, token) is None,
        is_new_record(u, id, name, email, password, token, expires_at, next_clock(clock, now)),
    ensures
        forall|i: int| 0 <= i < rows.len() ==> (#[trigger] rows[i]).id != u.id,
        forall|i: int|
            0 <= i < rows.push(u).len() && (#[trigger] rows.push(u)[i]).id == u.id ==> i == rows.len(),
{
    assert forall|i: int| 0 <= i < rows.len() implies (#[trigger] rows[i]).id != u.id by {
        if rows[i].id == u.id {
            assert(exists|k: int| 0 <= k < rows.len() && (#[trigger] rows[k]).id == id);
        }
    }
    assert forall|i: int|
        0 <= i < rows.push(u).len() && (#[trigger] rows.push(u)[i]).id == u.id implies i
        == rows.len() by {
        if i < rows.len() {
            assert(rows.push(u)[i] == rows[i]);
        }
    }
}

/// In a well-formed table a lookup can match at most one row: the row it
/// finds is the record with that id, name, email or token.
pub proof fn lookup_matches_one_row(
    rows: Seq<User>,
    clock: i64,
    user_id: Option<u128>,
    name: Option<Seq<char>>,
    email: Option<Seq<char>>,
    token: Option<Seq<char>>,
    i: int,
    j: int,
)
    requires
        rows_wf(rows, clock),
        0 <= i < rows.len(),
        0 <= j < rows.len(),
        selected_by(rows[i], user_id, name, email, token),
        selected_by(rows[j], user_id, name, email, token),
    ensures
        i == j,
{
    if i != j {
        assert(distinct(rows[i], rows[j]));
    }
}

/// An insert whose email a row already has fails with a uniqueness error;
/// when its id and name are free, the error is the duplicate email.
pub proof fn duplicate_email_rejected(
    rows: Seq<User>,
    clock: i64,
    i: int,
    id: u128,
    name: Seq<char>,
    email: Seq<char>,
    token: Seq<char>,
)
    requires
        rows_wf(rows, clock),
        0 <= i < rows.len(),
        rows[i].email@ == email,
    ensures
        insert_clash(rows, id, name, email, token) is Some,
        insert_clash(rows, id, name, email, token) != Some(StoreError::DuplicateToken),
        !has_id(rows, id) && !(exists|k: int|
            0 <= k < rows.len() && (#[trigger] rows[k]).name@ == name) ==> insert_clash(
            rows,
            id,
            name,
            email,
            token,
        ) == Some(StoreError::DuplicateEmail),
{
    assert(exists|k: int| 0 <= k < rows.len() && (#[trigger] rows[k]).email@ == email);
}

/// A page of the listing: it holds the rows from position
/// `page_offset(page, limit)` on of the newest-first order, at most `limit`
/// of them, in descending order of creation; a page past the end is empty,
/// and page 0 is page 1.
pub proof fn page_is_window_of_newest_first(rows: Seq<User>, clock: i64, page: nat, limit: nat)
    requires
        rows_wf(rows, clock),
    ensures
        page_offset(page, limit) >= rows.len() ==> page_of(rows, page, limit).len() == 0,
        page_offset(page, limit) < rows.len() ==> page_of(rows, page, limit).len() == if page_offset(
            page,
            limit,
        ) + limit < rows.len() {
            limit as int
        } else {
            rows.len() - page_offset(page, limit)
        },
        forall|k: int|
            0 <= k < page_of(rows, page, limit).len() ==> #[trigger] page_of(rows, page, limit)[k]
                == rows[rows.len() - 1 - (page_offset(page, limit) + k)],
        forall|a: int, b: int|
            0 <= a <= b < page_of(rows, page, limit).len() ==> (#[trigger] page_of(
                rows,
                page,
                limit,
            )[a]).created_at >= (#[trigger] page_of(rows, page, limit)[b]).created_at,
        page_of(rows, 0, limit) == page_of(rows, 1, limit),
{
    let p = page_of(rows, page, limit);
    let n = rows.len();
    assert forall|a: int, b: int| 0 <= a <= b < p.len() implies (#[trigger] p[a]).created_at >= (
    #[trigger] p[b]).created_at by {
        let x = n - 1 - (page_offset(page, limit) + b);
        let y = n - 1 - (page_offset(page, limit) + a);
        assert(p[a] == rows[y]);
        assert(p[b] == rows[x]);
        assert(rows[x].created_at <= rows[y].created_at);
    }
    assert((1 - 1) as nat * limit == 0) by (nonlinear_arith);
    assert(page_offset(0, limit) == page_offset(1, limit));
}

/// Redeeming the token that row `i` holds leaves that row verified with
/// no pending token, and afterwards no row holds the token, so a lookup by
/// it finds nothing.
pub proof fn redeem_clears_token(rows: Seq<User>, clock: i64, i: int, token: Seq<char>, at: i64)
    requires
        rows_wf(rows, clock),
        0 <= i < rows.len(),
        rows[i].holds_token(token),
    ensures
        rows.update(i, redeemed(rows[i], at))[i].verified,
        rows.update(i, redeemed(rows[i], at))[i].verification_token is None,
        rows.update(i, redeemed(rows[i], at))[i].token_expires_at is None,
        forall|k: int|
            0 <= k < rows.len() ==> !selected_by(
                #[trigger] rows.update(i, redeemed(rows[i], at))[k],
                None,
                None,
                None,
                Some(token),
            ),
{
    let after = rows.update(i, redeemed(rows[i], at));
    assert forall|k: int| 0 <= k < rows.len() implies !selected_by(
        #[trigger] after[k],
        None,
        None,
        None,
        Some(token),
    ) by {
        if k != i {
            assert(distinct(rows[k], rows[i]));
        }
    }
}

} // verus!
