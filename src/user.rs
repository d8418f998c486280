use vstd::prelude::*;

verus! {

/// The closed set of roles an account can hold.
#[derive(Debug, Clone, Copy, PartialEq, Eq, Structural)]
pub enum UserRole {
    Admin,
    Moderator,
    User,
}

/// The text under which each role is stored.
pub open spec fn role_text(r: UserRole) -> Seq<char> {
    match r {
        UserRole::Admin => seq!['a', 'd', 'm', 'i', 'n'],
        UserRole::Moderator => seq!['m', 'o', 'd', 'e', 'r', 'a', 't', 'o', 'r'],
        UserRole::User => seq!['u', 's', 'e', 'r'],
    }
}

impl UserRole {
    /// The stored name of this role.
    pub fn to_str(&self) -> (r: &'static str)
        ensures
            r@ == role_text(*self),
    {
        match self {
            UserRole::Admin => {
                proof { reveal_strlit("admin"); }
                "admin"
            },
            UserRole::Moderator => {
                proof { reveal_strlit("moderator"); }
                "moderator"
            },
            UserRole::User => {
                proof { reveal_strlit("user"); }
                "user"
            },
        }
    }

    /// Reads a stored role name; any text outside the closed set is rejected.
    pub fn parse(s: &str) -> (r: Option<UserRole>)
        ensures
            r matches Some(role) ==> role_text(role) == s@,
            r is None <==> (forall|role: UserRole| role_text(role) != s@),
    {
        let owned = s.to_owned();
        if owned == UserRole::Admin.to_str().to_owned() {
            Some(UserRole::Admin)
        } else if owned == UserRole::Moderator.to_str().to_owned() {
            Some(UserRole::Moderator)
        } else if owned == UserRole::User.to_str().to_owned() {
            Some(UserRole::User)
        } else {
            None
        }
    }
}

/// One row of the `users` table.
///
/// The id is the 128-bit value of the account's UUID; timestamps are
/// microseconds since the Unix epoch, in UTC.
#[derive(Debug, Clone)]
pub struct User {
    pub id: u128,
    pub name: String,
    pub email: String,
    pub password: String,
    pub verified: bool,
    pub created_at: i64,
    pub updated_at: i64,
    pub verification_token: Option<String>,
    pub token_expires_at: Option<i64>,
    pub role: UserRole,
}

impl User {
    /// A record is well formed when its token and expiry are present or
    /// absent together and it was not updated before it was created.
    pub open spec fn wf(&self) -> bool {
        &&& self.verification_token.is_some() == self.token_expires_at.is_some()
        &&& self.created_at <= self.updated_at
    }

    /// A field-for-field copy of this record.
    pub fn snapshot(&self) -> (r: User)
        ensures
            r == *self,
    {
        User {
            id: self.id,
            name: self.name.clone(),
            email: self.email.clone(),
            password: self.password.clone(),
            verified: self.verified,
            created_at: self.created_at,
            updated_at: self.updated_at,
            verification_token: match &self.verification_token {
                Some(t) => Some(t.clone()),
                None => None,
            },
            token_expires_at: self.token_expires_at,
            role: self.role,
        }
    }

    /// Whether this record currently holds the pending token `t`.
    pub open spec fn holds_token(&self, t: Seq<char>) -> bool {
        self.verification_token matches Some(v) && v@ == t
    }
}

} // verus!
