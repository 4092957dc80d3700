use vstd::prelude::*;

use crate::credentials::{hash_password_with_salt, hash_refusal, is_hash_of, MAX_PASSWORD_LENGTH, SALT_LENGTH, validate_handle, validate_nickname, validate_password, verify_outcome, verify_password, MIN_PASSWORD_LENGTH};
use crate::crypto::random_bytes;
use crate::error_handler::AuthError;
use crate::models::{is_public_view, opt_view, AuthenticatedUser, RoleTypeEnum, User, UserSensitive};
use crate::session::{clone_opt, not_owned_by, AuthStore, UserCircle};

verus! {

/// A registration request.
pub struct NewUser {
    pub handle: String,
    pub nickname: String,
    pub password: String,
    pub email: String,
}

/// A profile change; `password` is the current one, required for any change.
pub struct UpdateUser {
    pub nickname: Option<String>,
    pub email: Option<String>,
    pub password: String,
    pub new_password: Option<String>,
}

/// A profile change with the new password already hashed.
pub struct UpdateUserHashed {
    pub nickname: Option<String>,
    pub email: Option<String>,
    pub password: Option<String>,
}

/// A login request.
pub struct LoginData {
    pub handle: String,
    pub password: String,
    pub persist: bool,
}

/// `n` is the request `o` with the password replaced by a hash of it.
pub open spec fn is_hashed_request(n: NewUser, o: NewUser) -> bool {
    &&& n.handle@ == o.handle@
    &&& n.nickname@ == o.nickname@
    &&& n.email@ == o.email@
    &&& is_hash_of(o.password@, n.password@)
}

/// `h` is the change `u` with its new password, if any, replaced by a hash of it.
pub open spec fn is_hashed_update(h: UpdateUserHashed, u: UpdateUser) -> bool {
    &&& opt_view(h.nickname) == opt_view(u.nickname)
    &&& opt_view(h.email) == opt_view(u.email)
    &&& match u.new_password {
        None => h.password is None,
        Some(p) => h.password is Some && is_hash_of(p@, h.password->0@),
    }
}

/// Why a change's new password, if any, cannot be hashed at all.
pub open spec fn update_refusal(u: UpdateUser) -> Option<AuthError> {
    match u.new_password {
        None => None,
        Some(p) => hash_refusal(p@),
    }
}

impl NewUser {
    /// The same request with the password hashed with the given salt bytes.
    pub fn hash_password_with_salt(&self, salt: &Vec<u8>) -> (r: Result<NewUser, AuthError>)
        ensures
            hash_refusal(self.password@) is Some ==> r == Err::<NewUser, AuthError>(hash_refusal(self.password@)->0),
            hash_refusal(self.password@) is None && salt@.len() != SALT_LENGTH ==> r == Err::<NewUser, AuthError>(
                AuthError::HashingFailure,
            ),
            hash_refusal(self.password@) is None && salt@.len() == SALT_LENGTH ==> r is Ok && is_hashed_request(r->Ok_0, *self),
    {
        let password = hash_password_with_salt(self.password.as_str(), salt)?;
        Ok(NewUser { handle: self.handle.clone(), nickname: self.nickname.clone(), password, email: self.email.clone() })
    }

    /// The same request with the password hashed with a fresh random salt;
    /// `HashingFailure` only when no salt can be drawn.
    pub fn hash_password(&self) -> (r: Result<NewUser, AuthError>)
        ensures
            hash_refusal(self.password@) is Some ==> r == Err::<NewUser, AuthError>(hash_refusal(self.password@)->0),
            hash_refusal(self.password@) is None ==> r is Ok || r == Err::<NewUser, AuthError>(AuthError::HashingFailure),
            r is Ok ==> is_hashed_request(r->Ok_0, *self),
    {
        if let Some(e) = refusal_of(self.password.as_str()) {
            return Err(e);
        }
        match random_bytes(SALT_LENGTH) {
            Some(salt) => self.hash_password_with_salt(&salt),
            None => Err(AuthError::HashingFailure),
        }
    }
}

/// Why a password cannot be hashed at all, if it cannot.
fn refusal_of(password: &str) -> (r: Option<AuthError>)
    ensures
        r == hash_refusal(password@),
{
    let n = password.unicode_len();
    if n == 0 {
        Some(AuthError::PasswordTooShort)
    } else if n > MAX_PASSWORD_LENGTH {
        Some(AuthError::PasswordTooLong)
    } else {
        None
    }
}

impl UpdateUser {
    /// The change with its new password, if any, hashed with the given salt bytes.
    pub fn hash_password_with_salt(&self, salt: &Vec<u8>) -> (r: Result<UpdateUserHashed, AuthError>)
        ensures
            update_refusal(*self) is Some ==> r == Err::<UpdateUserHashed, AuthError>(update_refusal(*self)->0),
            update_refusal(*self) is None && self.new_password is Some && salt@.len() != SALT_LENGTH ==> r == Err::<
                UpdateUserHashed,
                AuthError,
            >(AuthError::HashingFailure),
            update_refusal(*self) is None && (self.new_password is None || salt@.len() == SALT_LENGTH) ==> r is Ok
                && is_hashed_update(r->Ok_0, *self),
    {
        let password = match &self.new_password {
            Some(p) => Some(hash_password_with_salt(p.as_str(), salt)?),
            None => None,
        };
        Ok(UpdateUserHashed { nickname: clone_opt(&self.nickname), email: clone_opt(&self.email), password })
    }

    /// The change with its new password, if any, hashed with a fresh random
    /// salt; `HashingFailure` only when no salt can be drawn.
    pub fn hash_password(&self) -> (r: Result<UpdateUserHashed, AuthError>)
        ensures
            update_refusal(*self) is Some ==> r == Err::<UpdateUserHashed, AuthError>(update_refusal(*self)->0),
            update_refusal(*self) is None && self.new_password is None ==> r is Ok,
            update_refusal(*self) is None && self.new_password is Some ==> r is Ok || r == Err::<
                UpdateUserHashed,
                AuthError,
            >(AuthError::HashingFailure),
            r is Ok ==> is_hashed_update(r->Ok_0, *self),
    {
        match &self.new_password {
            None => self.hash_password_with_salt(&Vec::new()),
            Some(p) => {
                if let Some(e) = refusal_of(p.as_str()) {
                    return Err(e);
                }
                match random_bytes(SALT_LENGTH) {
                    Some(salt) => self.hash_password_with_salt(&salt),
                    None => Err(AuthError::HashingFailure),
                }
            },
        }
    }
}

/// Keeps the ownership edges of every identity but `uid`.
pub open spec fn edge_not_of(uid: i32) -> spec_fn(UserCircle) -> bool {
    |e: UserCircle| e.user_id != uid
}

impl AuthStore {
    /// Why a registration is refused before hashing, if it is.
    pub open spec fn registration_check(&self, nu: &NewUser) -> Option<AuthError> {
        if nu.handle@.len() == 0 {
            Some(AuthError::HandleTooShort)
        } else if nu.password@.len() < MIN_PASSWORD_LENGTH {
            Some(AuthError::PasswordTooShort)
        } else if nu.password@.len() > MAX_PASSWORD_LENGTH {
            Some(AuthError::PasswordTooLong)
        } else if nu.nickname@.len() == 0 {
            Some(AuthError::NicknameTooShort)
        } else if self.handle_index(nu.handle@) is Some {
            Some(AuthError::HandleExists)
        } else if self.next_user_id == i32::MAX {
            Some(AuthError::StoreConflict)
        } else {
            None
        }
    }

    /// Registers a new identity with role `user` and a hashed password.
    pub fn add_user(&mut self, new_user: &NewUser) -> (r: Result<User, AuthError>)
        requires
            old(self).wf(),
        ensures
            final(self).wf(),
            r is Err ==> *final(self) == *old(self),
            match old(self).registration_check(new_user) {
                Some(e) => r == Err::<User, AuthError>(e),
                None => r is Ok || r == Err::<User, AuthError>(AuthError::HashingFailure),
            },
            r is Ok ==> {
                let u = final(self).users@.last();
                &&& final(self).users@ == old(self).users@.push(u)
                &&& final(self).tokens@ == old(self).tokens@
                &&& final(self).user_circles@ == old(self).user_circles@
                &&& final(self).next_user_id == old(self).next_user_id + 1
                &&& u.id == old(self).next_user_id
                &&& u.handle@ == new_user.handle@
                &&& u.nickname@ == new_user.nickname@
                &&& u.email@ == new_user.email@
                &&& is_hash_of(new_user.password@, u.password@)
                &&& u.role == RoleTypeEnum::user
                &&& u.twitter_id is None
                &&& u.code_verifier is None
                &&& u.oauth_state is None
                &&& is_public_view(r->Ok_0, u)
            },
    {
        validate_handle(new_user.handle.as_str())?;
        validate_password(new_user.password.as_str())?;
        validate_nickname(new_user.nickname.as_str())?;
        if self.check_handle(new_user.handle.as_str()) {
            return Err(AuthError::HandleExists);
        }
        if self.next_user_id == i32::MAX {
            return Err(AuthError::StoreConflict);
        }
        let hashed = new_user.hash_password()?;
        let id = self.next_user_id;
        let user = User { handle: hashed.handle.clone(), nickname: hashed.nickname.clone(), twitter_id: None, role: RoleTypeEnum::user };
        let record = UserSensitive {
            id,
            handle: hashed.handle,
            nickname: hashed.nickname,
            password: hashed.password,
            twitter_id: None,
            role: RoleTypeEnum::user,
            email: hashed.email,
            code_verifier: None,
            oauth_state: None,
            oauth_expires: None,
        };
        let ghost before = *self;
        self.users.push(record);
        self.next_user_id = id + 1;
        proof {
            let p = before.users@.len() as int;
            assert forall|i: int, j: int|
                #![trigger self.users@[i].handle@, self.users@[j].handle@]
                0 <= i < self.users@.len() && 0 <= j < self.users@.len() && i != j
                    implies self.users@[i].handle@ != self.users@[j].handle@ by {
                if i == p {
                    assert(before.users@[j].handle@ != new_user.handle@);
                } else if j == p {
                    assert(before.users@[i].handle@ != new_user.handle@);
                } else {
                    assert(before.users@[i] == self.users@[i] && before.users@[j] == self.users@[j]);
                }
            }
            assert forall|i: int, j: int|
                #![trigger self.users@[i].id, self.users@[j].id]
                0 <= i < self.users@.len() && 0 <= j < self.users@.len() && i != j
                    implies self.users@[i].id != self.users@[j].id by {
                if i == p {
                    assert(before.users@[j].id < id);
                } else if j == p {
                    assert(before.users@[i].id < id);
                } else {
                    assert(before.users@[i] == self.users@[i] && before.users@[j] == self.users@[j]);
                }
            }
            assert forall|i: int| 0 <= i < self.users@.len() implies 0 < #[trigger] self.users@[i].id < self.next_user_id by {
                if i < p {
                    assert(before.users@[i] == self.users@[i]);
                }
            }
        }
        Ok(user)
    }

    /// Why a profile change is refused before hashing, if it is.
    pub open spec fn update_check(&self, uid: i32, up: &UpdateUser) -> Option<AuthError> {
        if up.new_password is Some && up.new_password->0@.len() < MIN_PASSWORD_LENGTH {
            Some(AuthError::PasswordTooShort)
        } else if up.new_password is Some && up.new_password->0@.len() > MAX_PASSWORD_LENGTH {
            Some(AuthError::PasswordTooLong)
        } else if up.nickname is Some && up.nickname->0@.len() == 0 {
            Some(AuthError::NicknameTooShort)
        } else if self.user_index(uid) is None {
            Some(AuthError::AuthenticationFailed)
        } else if verify_outcome(up.password@, self.users@[self.user_index(uid)->0].password@) != Ok::<bool, AuthError>(true) {
            Some(AuthError::AuthenticationFailed)
        } else {
            None
        }
    }

    /// Changes nickname, email or password of identity `user_id`, after
    /// checking its current password. A new password ends every session.
    pub fn patch_me(&mut self, user_id: i32, update: &UpdateUser) -> (r: Result<User, AuthError>)
        requires
            old(self).wf(),
        ensures
            final(self).wf(),
            r is Err ==> *final(self) == *old(self),
            match old(self).update_check(user_id, update) {
                Some(e) => r == Err::<User, AuthError>(e),
                None => r is Ok || (update.new_password is Some && r == Err::<User, AuthError>(AuthError::HashingFailure)),
            },
            r is Ok ==> {
                let j = old(self).user_index(user_id)->0;
                let o = old(self).users@[j];
                let n = final(self).users@[j];
                &&& final(self).users@ == old(self).users@.update(j, n)
                &&& final(self).user_circles@ == old(self).user_circles@
                &&& final(self).next_user_id == old(self).next_user_id
                &&& n.id == o.id
                &&& n.handle@ == o.handle@
                &&& n.role == o.role
                &&& opt_view(n.twitter_id) == opt_view(o.twitter_id)
                &&& opt_view(n.code_verifier) == opt_view(o.code_verifier)
                &&& opt_view(n.oauth_state) == opt_view(o.oauth_state)
                &&& n.oauth_expires == o.oauth_expires
                &&& n.nickname@ == (match update.nickname {
                    Some(x) => x@,
                    None => o.nickname@,
                })
                &&& n.email@ == (match update.email {
                    Some(x) => x@,
                    None => o.email@,
                })
                &&& match update.new_password {
                    None => n.password@ == o.password@ && final(self).tokens@ == old(self).tokens@,
                    Some(p) => is_hash_of(p@, n.password@) && final(self).tokens@ == old(self).tokens@.filter(
                        not_owned_by(user_id),
                    ),
                }
                &&& is_public_view(r->Ok_0, n)
            },
    {
        if let Some(p) = &update.new_password {
            validate_password(p.as_str())?;
        }
        if let Some(nick) = &update.nickname {
            validate_nickname(nick.as_str())?;
        }
        let j = match self.find_user_by_id(user_id) {
            Some(j) => j,
            None => return Err(AuthError::AuthenticationFailed),
        };
        match verify_password(update.password.as_str(), self.users[j].password.as_str()) {
            Ok(true) => {},
            _ => return Err(AuthError::AuthenticationFailed),
        }
        let hashed = update.hash_password()?;
        let o = &self.users[j];
        let nickname = match hashed.nickname {
            Some(x) => x,
            None => o.nickname.clone(),
        };
        let email = match hashed.email {
            Some(x) => x,
            None => o.email.clone(),
        };
        let rotated = hashed.password.is_some();
        let password = match hashed.password {
            Some(x) => x,
            None => o.password.clone(),
        };
        let record = UserSensitive {
            id: o.id,
            handle: o.handle.clone(),
            nickname,
            password,
            twitter_id: clone_opt(&o.twitter_id),
            role: o.role,
            email,
            code_verifier: clone_opt(&o.code_verifier),
            oauth_state: clone_opt(&o.oauth_state),
            oauth_expires: o.oauth_expires,
        };
        let user = User {
            handle: record.handle.clone(),
            nickname: record.nickname.clone(),
            twitter_id: clone_opt(&record.twitter_id),
            role: record.role,
        };
        let ghost before = *self;
        self.users.set(j, record);
        proof {
            assert forall|a: int, b: int|
                #![trigger self.users@[a].handle@, self.users@[b].handle@]
                0 <= a < self.users@.len() && 0 <= b < self.users@.len() && a != b
                    implies self.users@[a].handle@ != self.users@[b].handle@ by {
                assert(before.users@[a].handle@ == self.users@[a].handle@);
                assert(before.users@[b].handle@ == self.users@[b].handle@);
            }
            assert forall|a: int, b: int|
                #![trigger self.users@[a].id, self.users@[b].id]
                0 <= a < self.users@.len() && 0 <= b < self.users@.len() && a != b
                    implies self.users@[a].id != self.users@[b].id by {
                assert(before.users@[a].id == self.users@[a].id);
                assert(before.users@[b].id == self.users@[b].id);
            }
            assert forall|a: int| 0 <= a < self.users@.len() implies 0 < #[trigger] self.users@[a].id < self.next_user_id by {
                assert(before.users@[a].id == self.users@[a].id);
            }
        }
        if rotated {
            self.revoke_all(user_id);
        }
        Ok(user)
    }

    /// Deletes identity `user_id` with its sessions and ownership edges.
    pub fn delete_me(&mut self, user_id: i32) -> (r: Result<(), AuthError>)
        requires
            old(self).wf(),
        ensures
            final(self).wf(),
            old(self).user_index(user_id) is None ==> r == Err::<(), AuthError>(AuthError::NotFound) && *final(self) == *old(self),
            old(self).user_index(user_id) is Some ==> {
                &&& r is Ok
                &&& final(self).users@ == old(self).users@.remove(old(self).user_index(user_id)->0)
                &&& final(self).tokens@ == old(self).tokens@.filter(not_owned_by(user_id))
                &&& final(self).user_circles@ == old(self).user_circles@.filter(edge_not_of(user_id))
            },
    {
        let j = match self.find_user_by_id(user_id) {
            Some(j) => j,
            None => return Err(AuthError::NotFound),
        };
        let ghost before = *self;
        self.users.remove(j);
        proof {
            assert forall|a: int| 0 <= a < self.users@.len() implies #[trigger] self.users@[a] == before.users@[if a < j { a } else { a + 1 }] by {}
            assert forall|a: int, b: int|
                #![trigger self.users@[a].handle@, self.users@[b].handle@]
                0 <= a < self.users@.len() && 0 <= b < self.users@.len() && a != b
                    implies self.users@[a].handle@ != self.users@[b].handle@ by {
                let a1 = if a < j { a } else { a + 1 };
                let b1 = if b < j { b } else { b + 1 };
                assert(self.users@[a] == before.users@[a1]);
                assert(self.users@[b] == before.users@[b1]);
                assert(before.users@[a1].handle@ != before.users@[b1].handle@);
            }
            assert forall|a: int, b: int|
                #![trigger self.users@[a].id, self.users@[b].id]
                0 <= a < self.users@.len() && 0 <= b < self.users@.len() && a != b
                    implies self.users@[a].id != self.users@[b].id by {
                let a1 = if a < j { a } else { a + 1 };
                let b1 = if b < j { b } else { b + 1 };
                assert(self.users@[a] == before.users@[a1]);
                assert(self.users@[b] == before.users@[b1]);
                assert(before.users@[a1].id != before.users@[b1].id);
            }
            assert forall|a: int| 0 <= a < self.users@.len() implies 0 < #[trigger] self.users@[a].id < self.next_user_id by {
                let a1 = if a < j { a } else { a + 1 };
                assert(self.users@[a] == before.users@[a1]);
            }
        }
        self.revoke_all(user_id);
        self.remove_edges_of(user_id);
        Ok(())
    }

    /// Drops every ownership edge of identity `user_id`.
    fn remove_edges_of(&mut self, user_id: i32)
        requires
            old(self).wf(),
        ensures
            final(self).wf(),
            final(self).users@ == old(self).users@,
            final(self).tokens@ == old(self).tokens@,
            final(self).next_user_id == old(self).next_user_id,
            final(self).user_circles@ == old(self).user_circles@.filter(edge_not_of(user_id)),
    {
        let ghost orig = self.user_circles@;
        let mut rest: Vec<UserCircle> = Vec::new();
        std::mem::swap(&mut self.user_circles, &mut rest);
        let n = rest.len();
        let mut k: usize = 0;
        proof {
            assert(orig.subrange(0, 0).filter(edge_not_of(user_id)) =~= Seq::<UserCircle>::empty()) by {
                reveal(Seq::filter);
            }
            assert(orig.subrange(0, n as int) =~= orig);
        }
        while k < n
            invariant
                n == orig.len(),
                k <= n,
                rest@ == orig.subrange(k as int, n as int),
                self.user_circles@ == orig.subrange(0, k as int).filter(edge_not_of(user_id)),
                self.users@ == old(self).users@,
                self.tokens@ == old(self).tokens@,
                self.next_user_id == old(self).next_user_id,
                old(self).wf(),
            decreases n - k,
        {
            let e = rest.remove(0);
            proof {
                reveal(Seq::filter);
                let s1 = orig.subrange(0, k as int + 1);
                assert(s1.drop_last() =~= orig.subrange(0, k as int));
                assert(s1.last() == orig[k as int]);
            }
            if e.user_id != user_id {
                self.user_circles.push(e);
            }
            k = k + 1;
            assert(rest@ =~= orig.subrange(k as int, n as int));
        }
    }

    /// Logs out: every session of the identity ends.
    pub fn logout(&mut self, user: &AuthenticatedUser)
        requires
            old(self).wf(),
        ensures
            final(self).wf(),
            final(self).users@ == old(self).users@,
            final(self).user_circles@ == old(self).user_circles@,
            final(self).tokens@ == old(self).tokens@.filter(not_owned_by(user.id)),
    {
        self.revoke_all(user.id);
    }
}

} // verus!
