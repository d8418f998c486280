use vstd::prelude::*;

use crate::user::User;

verus! {

/// The one column a lookup filters on, with the value it must equal.
#[derive(Debug, Clone, PartialEq, Eq)]
pub enum Selector {
    Id(u128),
    Name(String),
    Email(String),
    Token(String),
}

impl Selector {
    /// Whether record `u` is the one this selector asks for.
    pub open spec fn matches(&self, u: User) -> bool {
        match self {
            Selector::Id(id) => u.id == *id,
            Selector::Name(n) => u.name@ == n@,
            Selector::Email(e) => u.email@ == e@,
            Selector::Token(t) => u.holds_token(t@),
        }
    }

    /// Tests record `u` against this selector.
    pub fn matches_user(&self, u: &User) -> (r: bool)
        ensures
            r == self.matches(*u),
    {
        match self {
            Selector::Id(id) => u.id == *id,
            Selector::Name(n) => u.name == *n,
            Selector::Email(e) => u.email == *e,
            Selector::Token(t) => match &u.verification_token {
                Some(v) => *v == *t,
                None => false,
            },
        }
    }
}

/// The text an optional string selector carries.
pub open spec fn str_view(o: Option<&str>) -> Option<Seq<char>> {
    match o {
        Some(s) => Some(s@),
        None => None,
    }
}

/// Whether record `u` is what a lookup with these optional selectors asks
/// for: the first selector supplied, in the order id, name, email, token,
/// decides alone.
pub open spec fn selected_by(
    u: User,
    user_id: Option<u128>,
    name: Option<Seq<char>>,
    email: Option<Seq<char>>,
    token: Option<Seq<char>>,
) -> bool {
    match user_id {
        Some(id) => u.id == id,
        None => match name {
            Some(n) => u.name@ == n,
            None => match email {
                Some(e) => u.email@ == e,
                None => match token {
                    Some(t) => u.holds_token(t),
                    None => false,
                },
            },
        },
    }
}

/// Picks the lookup to run from the optional selectors, in the fixed
/// priority id, name, email, token: the first one supplied wins and the
/// rest are ignored. With none supplied there is nothing to look up.
pub fn choose_selector(
    user_id: Option<u128>,
    name: Option<&str>,
    email: Option<&str>,
    token: Option<&str>,
) -> (r: Option<Selector>)
    ensures
        user_id matches Some(id) ==> r == Some(Selector::Id(id)),
        user_id is None && name is Some ==> (r matches Some(Selector::Name(n))
            && n@ == name.unwrap()@),
        user_id is None && name is None && email is Some ==> (r matches Some(
            Selector::Email(e),
        ) && e@ == email.unwrap()@),
        user_id is None && name is None && email is None && token is Some ==> (r matches Some(
            Selector::Token(t),
        ) && t@ == token.unwrap()@),
        r is None <==> (user_id is None && name is None && email is None && token is None),
{
    if let Some(id) = user_id {
        Some(Selector::Id(id))
    } else if let Some(n) = name {
        Some(Selector::Name(n.to_owned()))
    } else if let Some(e) = email {
        Some(Selector::Email(e.to_owned()))
    } else if let Some(t) = token {
        Some(Selector::Token(t.to_owned()))
    } else {
        None
    }
}

/// How many rows a listing skips: pages are numbered from 1, and page 0
/// reads the same rows as page 1.
pub open spec fn page_offset(page: nat, limit: nat) -> nat {
    if page == 0 {
        0
    } else {
        ((page - 1) as nat * limit) as nat
    }
}

/// Whether the window of a listing fits the store's signed 64-bit
/// `LIMIT` and `OFFSET` parameters.
pub open spec fn window_fits(page: nat, limit: nat) -> bool {
    &&& limit <= i64::MAX
    &&& page_offset(page, limit) <= i64::MAX
}

/// The `LIMIT` and `OFFSET` of one page of a newest-first listing.
#[derive(Debug, Clone, Copy, PartialEq, Eq, Structural)]
pub struct PageWindow {
    pub limit: i64,
    pub offset: i64,
}

/// The window of rows that page `page` of size `limit` covers.
pub fn page_window(page: u32, limit: usize) -> (r: PageWindow)
    requires
        window_fits(page as nat, limit as nat),
    ensures
        r.limit == limit,
        r.offset == page_offset(page as nat, limit as nat),
{
    let skipped: u32 = page.saturating_sub(1);
    proof {
        assert(skipped as nat == if page == 0 { 0 } else { (page - 1) as nat });
        if page > 0 {
            assert(page_offset(page as nat, limit as nat) == (page - 1) as nat * limit as nat);
        }
    }
    let offset: u128 = (skipped as u128) * (limit as u128);
    PageWindow { limit: limit as i64, offset: offset as i64 }
}

/// The total number of rows, from what a `COUNT(*)` handed back: a missing
/// value counts as an empty table.
pub fn count_or_zero(count: Option<i64>) -> (r: i64)
    ensures
        r == match count {
            Some(c) => c,
            None => 0,
        },
{
    match count {
        Some(c) => c,
        None => 0,
    }
}

} // verus!
