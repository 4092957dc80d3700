use vstd::prelude::*;

use crate::error_handler::AuthError;

verus! {

#[allow(non_camel_case_types)]
#[derive(Debug, Clone, Copy, PartialEq, Eq, Structural)]
pub enum BundleTypeEnum {
    random,
    select,
}

#[allow(non_camel_case_types)]
#[derive(Debug, Clone, Copy, PartialEq, Eq, Structural)]
pub enum LinkTypeEnum {
    info,
    other,
    netorder,
    notice,
    prepayment,
    demand,
}

/// Capability tier of an identity.
#[allow(non_camel_case_types)]
#[derive(Debug, Clone, Copy, PartialEq, Eq, Structural)]
pub enum RoleTypeEnum {
    admin,
    moderator,
    user,
}

/// Admins and moderators may do everything.
pub open spec fn is_privileged(role: RoleTypeEnum) -> bool {
    role == RoleTypeEnum::admin || role == RoleTypeEnum::moderator
}

pub struct Circle {
    pub id: i32,
    pub name: Option<String>,
    pub description: Option<String>,
    pub location: Option<String>,
}

pub struct Good {
    pub id: i32,
    pub name: Option<String>,
    pub description: Option<String>,
    pub price: Option<i32>,
    pub category_id: i32,
}

pub struct FullGood {
    pub id: i32,
    pub name: Option<String>,
    pub description: Option<String>,
    pub price: Option<i32>,
    pub category: Category,
    pub characters: Vec<CharacterWithReference>,
}

pub struct CharacterWithReference {
    pub id: i32,
    pub character: String,
    pub reference: String,
}

pub struct Bundle {
    pub id: i32,
    pub name: Option<String>,
    pub price: Option<i32>,
    pub description: Option<String>,
    pub type_: BundleTypeEnum,
    pub count: i32,
}

pub struct BundleGoods {
    pub id: i32,
    pub bundle_id: i32,
    pub goods_id: i32,
    pub count: i32,
}

pub struct Character {
    pub id: i32,
    pub name: String,
    pub reference_id: i32,
}

pub struct Ref {
    pub id: i32,
    pub name: String,
}

pub struct Category {
    pub id: i32,
    pub name: String,
}

pub struct Artist {
    pub id: i32,
    pub name: String,
    pub account_url: Option<String>,
}

pub struct Link {
    pub id: i32,
    pub type_: LinkTypeEnum,
    pub url: String,
    pub name: Option<String>,
}

/// An identity's stored record, credential and pending linking attempt included.
pub struct UserSensitive {
    pub id: i32,
    pub handle: String,
    pub nickname: String,
    /// PHC-encoded password hash.
    pub password: String,
    pub twitter_id: Option<String>,
    pub role: RoleTypeEnum,
    pub email: String,
    pub code_verifier: Option<String>,
    pub oauth_state: Option<String>,
    /// When the pending linking attempt lapses (seconds since the epoch).
    pub oauth_expires: Option<u64>,
}

/// The public face of an identity.
pub struct User {
    pub handle: String,
    pub nickname: String,
    pub twitter_id: Option<String>,
    pub role: RoleTypeEnum,
}

pub open spec fn opt_view(o: Option<String>) -> Option<Seq<char>> {
    match o {
        Some(s) => Some(s@),
        None => None,
    }
}

/// `u` shows the public fields of `s`.
pub open spec fn is_public_view(u: User, s: UserSensitive) -> bool {
    &&& u.handle@ == s.handle@
    &&& u.nickname@ == s.nickname@
    &&& opt_view(u.twitter_id) == opt_view(s.twitter_id)
    &&& u.role == s.role
}

impl UserSensitive {
    /// Drops the credential and the linking attempt.
    pub fn into_user(self) -> (r: User)
        ensures
            is_public_view(r, self),
    {
        User { handle: self.handle, nickname: self.nickname, twitter_id: self.twitter_id, role: self.role }
    }
}

/// An identity resolved from a valid session, with the circles it owns.
pub struct AuthenticatedUser {
    pub id: i32,
    pub handle: String,
    pub nickname: String,
    pub twitter_id: Option<String>,
    pub email: String,
    pub role: RoleTypeEnum,
    pub circles: Vec<i32>,
}

impl AuthenticatedUser {
    /// May this identity act on a resource of circle `circle_id`?
    pub fn check_permission(&self, circle_id: i32) -> (r: Result<(), AuthError>)
        ensures
            r is Ok <==> (is_privileged(self.role) || self.circles@.contains(circle_id)),
            r is Err ==> r == Err::<(), AuthError>(AuthError::NotAuthorized),
    {
        match self.role {
            RoleTypeEnum::admin | RoleTypeEnum::moderator => Ok(()),
            RoleTypeEnum::user => {
                let mut i: usize = 0;
                while i < self.circles.len()
                    invariant
                        i <= self.circles@.len(),
                        forall|j: int| 0 <= j < i ==> self.circles@[j] != circle_id,
                    decreases self.circles@.len() - i,
                {
                    if self.circles[i] == circle_id {
                        return Ok(());
                    }
                    i = i + 1;
                }
                Err(AuthError::NotAuthorized)
            },
        }
    }

    /// Moderation-only actions: every `user` is refused.
    pub fn check_moderator(&self) -> (r: Result<(), AuthError>)
        ensures
            r is Ok <==> is_privileged(self.role),
            r is Err ==> r == Err::<(), AuthError>(AuthError::NotAuthorized),
    {
        match self.role {
            RoleTypeEnum::admin | RoleTypeEnum::moderator => Ok(()),
            RoleTypeEnum::user => Err(AuthError::NotAuthorized),
        }
    }

    /// Artist-gated actions: a `user` must own at least one circle.
    pub fn check_artist(&self) -> (r: Result<(), AuthError>)
        ensures
            r is Ok <==> (is_privileged(self.role) || self.circles@.len() > 0),
            r is Err ==> r == Err::<(), AuthError>(AuthError::NotAuthorized),
    {
        match self.role {
            RoleTypeEnum::admin | RoleTypeEnum::moderator => Ok(()),
            RoleTypeEnum::user => {
                if self.circles.is_empty() {
                    Err(AuthError::NotAuthorized)
                } else {
                    Ok(())
                }
            },
        }
    }
}

/// A session row: public selector, digest of the secret validator, owner and
/// optional absolute expiry (seconds since the epoch; none for a persistent session).
pub struct Token {
    pub id: i32,
    pub selector: String,
    pub hashed_validator: String,
    pub user_id: i32,
    pub expires: Option<u64>,
}

} // verus!
