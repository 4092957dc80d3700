use vstd::prelude::*;

use crate::credentials::{verify_outcome, verify_password};
use crate::crypto::{digest_hex, sha256_hex};
use crate::error_handler::AuthError;
use crate::models::{opt_view, AuthenticatedUser, Token, UserSensitive};
use crate::strings::{generate_random_string, is_token_char, push_char};

verus! {

/// Lifetime of a session that was not asked to persist: three hours.
pub const SESSION_TTL_SECS: u64 = 10800;

/// Length of a session selector, the public lookup key.
pub const SELECTOR_LENGTH: usize = 12;

/// Selectors drawn before a login gives up on collisions.
pub const SELECTOR_ATTEMPTS: usize = 4;

/// Length of a session validator, the secret.
pub const VALIDATOR_LENGTH: usize = 48;

/// An ownership edge: identity `user_id` controls circle `circle_id`.
#[derive(Debug, Clone, Copy, PartialEq, Eq, Structural)]
pub struct UserCircle {
    pub user_id: i32,
    pub circle_id: i32,
}

/// The persisted identities, sessions and ownership edges.
pub struct AuthStore {
    pub users: Vec<UserSensitive>,
    pub tokens: Vec<Token>,
    pub user_circles: Vec<UserCircle>,
    pub next_user_id: i32,
    pub next_token_id: i32,
}

/// `p` is the one separator of `t`.
pub open spec fn well_split(t: Seq<char>, p: int) -> bool {
    &&& 0 <= p < t.len()
    &&& t[p] == ':'
    &&& forall|q: int| 0 <= q < t.len() && q != p ==> t[q] != ':'
}

/// A token `selector:validator` split at its only separator; `None` unless
/// it has exactly two parts.
pub open spec fn split_spec(t: Seq<char>) -> Option<(Seq<char>, Seq<char>)> {
    if exists|p: int| well_split(t, p) {
        let p = choose|p: int| well_split(t, p);
        Some((t.subrange(0, p), t.subrange(p + 1, t.len() as int)))
    } else {
        None
    }
}

/// The selector of a token that splits.
pub open spec fn selector_part(t: Seq<char>) -> Seq<char> {
    match split_spec(t) {
        Some((sel, _)) => sel,
        None => Seq::empty(),
    }
}

/// The validator of a token that splits.
pub open spec fn validator_part(t: Seq<char>) -> Seq<char> {
    match split_spec(t) {
        Some((_, val)) => val,
        None => Seq::empty(),
    }
}

/// A session with an expiry in the past (before `now`) is dead.
pub open spec fn is_expired(expires: Option<u64>, now: int) -> bool {
    match expires {
        Some(e) => e < now,
        None => false,
    }
}

/// Expiry of a session issued at `now`.
pub open spec fn expiry_for(persist: bool, now: int) -> Option<u64> {
    if persist {
        None
    } else {
        Some((now + SESSION_TTL_SECS) as u64)
    }
}

impl AuthStore {
    /// Selectors, handles and identity ids are unique; ids are below the next one.
    pub open spec fn wf(&self) -> bool {
        &&& forall|i: int, j: int|
            #![trigger self.tokens@[i].selector@, self.tokens@[j].selector@]
            0 <= i < self.tokens@.len() && 0 <= j < self.tokens@.len() && i != j
                ==> self.tokens@[i].selector@ != self.tokens@[j].selector@
        &&& forall|i: int, j: int|
            #![trigger self.users@[i].handle@, self.users@[j].handle@]
            0 <= i < self.users@.len() && 0 <= j < self.users@.len() && i != j
                ==> self.users@[i].handle@ != self.users@[j].handle@
        &&& forall|i: int, j: int|
            #![trigger self.users@[i].id, self.users@[j].id]
            0 <= i < self.users@.len() && 0 <= j < self.users@.len() && i != j
                ==> self.users@[i].id != self.users@[j].id
        &&& forall|i: int|
            0 <= i < self.users@.len() ==> 0 < #[trigger] self.users@[i].id < self.next_user_id
        &&& self.next_user_id >= 1
    }

    /// Position of the session with this selector.
    pub open spec fn session_index(&self, sel: Seq<char>) -> Option<int> {
        if exists|i: int| 0 <= i < self.tokens@.len() && #[trigger] self.tokens@[i].selector@ == sel {
            Some(choose|i: int| 0 <= i < self.tokens@.len() && #[trigger] self.tokens@[i].selector@ == sel)
        } else {
            None
        }
    }

    /// Position of the identity with this id.
    pub open spec fn user_index(&self, id: i32) -> Option<int> {
        if exists|i: int| 0 <= i < self.users@.len() && #[trigger] self.users@[i].id == id {
            Some(choose|i: int| 0 <= i < self.users@.len() && #[trigger] self.users@[i].id == id)
        } else {
            None
        }
    }

    /// Position of the identity with this handle.
    pub open spec fn handle_index(&self, handle: Seq<char>) -> Option<int> {
        if exists|i: int| 0 <= i < self.users@.len() && #[trigger] self.users@[i].handle@ == handle {
            Some(choose|i: int| 0 <= i < self.users@.len() && #[trigger] self.users@[i].handle@ == handle)
        } else {
            None
        }
    }

    /// Identity `uid` owns circle `c`.
    pub open spec fn owns(&self, uid: i32, c: i32) -> bool {
        exists|k: int|
            0 <= k < self.user_circles@.len() && #[trigger] self.user_circles@[k] == (UserCircle { user_id: uid, circle_id: c })
    }

    /// Whom a presented token authenticates at time `now`, or why it fails.
    pub open spec fn validate_spec(&self, token: Seq<char>, now: int) -> Result<i32, AuthError> {
        match split_spec(token) {
            None => Err(AuthError::TokenMalformed),
            Some((sel, val)) => match self.session_index(sel) {
                None => Err(AuthError::TokenInvalid),
                Some(i) => {
                    let row = self.tokens@[i];
                    if row.hashed_validator@ != sha256_hex(val) || is_expired(row.expires, now)
                        || self.user_index(row.user_id) is None {
                        Err(AuthError::TokenInvalid)
                    } else {
                        Ok(row.user_id)
                    }
                },
            },
        }
    }

    /// `au` is identity `uid` as stored, with every circle it owns.
    pub open spec fn resolves(&self, uid: i32, au: AuthenticatedUser) -> bool {
        match self.user_index(uid) {
            None => false,
            Some(j) => {
                let u = self.users@[j];
                &&& au.id == uid
                &&& au.handle@ == u.handle@
                &&& au.nickname@ == u.nickname@
                &&& opt_view(au.twitter_id) == opt_view(u.twitter_id)
                &&& au.email@ == u.email@
                &&& au.role == u.role
                &&& forall|c: i32| au.circles@.contains(c) <==> self.owns(uid, c)
            },
        }
    }

    /// `new` is this store with one more session, for `uid`, handed out as
    /// `token` at time `now`: a fresh selector, the digest of the validator,
    /// and an expiry unless the session persists.
    pub open spec fn issued(&self, new: &AuthStore, token: Seq<char>, uid: i32, persist: bool, now: int) -> bool {
        match split_spec(token) {
            None => false,
            Some((sel, val)) => {
                &&& self.session_index(sel) is None
                &&& new.users@ == self.users@
                &&& new.user_circles@ == self.user_circles@
                &&& new.next_user_id == self.next_user_id
                &&& new.tokens@.len() == self.tokens@.len() + 1
                &&& new.tokens@.subrange(0, self.tokens@.len() as int) == self.tokens@
                &&& new.tokens@.last().selector@ == sel
                &&& new.tokens@.last().hashed_validator@ == sha256_hex(val)
                &&& new.tokens@.last().user_id == uid
                &&& new.tokens@.last().expires == expiry_for(persist, now)
            },
        }
    }

    /// The handle belongs to an identity whose stored hash accepts the password.
    pub open spec fn accepts_login(&self, handle: Seq<char>, password: Seq<char>) -> bool {
        match self.handle_index(handle) {
            None => false,
            Some(j) => verify_outcome(password, self.users@[j].password@) == Ok::<bool, AuthError>(true),
        }
    }

    /// Id of the identity with this handle.
    pub open spec fn id_of_handle(&self, handle: Seq<char>) -> i32 {
        self.users@[self.handle_index(handle)->0].id
    }

    /// An empty store.
    pub fn new() -> (r: Self)
        ensures
            r.wf(),
            r.users@.len() == 0,
            r.tokens@.len() == 0,
            r.user_circles@.len() == 0,
    {
        AuthStore { users: Vec::new(), tokens: Vec::new(), user_circles: Vec::new(), next_user_id: 1, next_token_id: 1 }
    }

    /// Looks a session up by selector.
    pub fn find_session(&self, sel: &str) -> (r: Option<usize>)
        requires
            self.wf(),
        ensures
            match r {
                None => self.session_index(sel@) is None,
                Some(k) => self.session_index(sel@) == Some(k as int) && k < self.tokens@.len(),
            },
    {
        let mut i: usize = 0;
        while i < self.tokens.len()
            invariant
                i <= self.tokens@.len(),
                self.wf(),
                forall|k: int| 0 <= k < i ==> #[trigger] self.tokens@[k].selector@ != sel@,
            decreases self.tokens@.len() - i,
        {
            if ct_eq(self.tokens[i].selector.as_str(), sel) {
                proof {
                    let c = choose|c: int| 0 <= c < self.tokens@.len() && #[trigger] self.tokens@[c].selector@ == sel@;
                    if c != i as int {
                        assert(self.tokens@[c].selector@ != self.tokens@[i as int].selector@);
                    }
                }
                return Some(i);
            }
            i = i + 1;
        }
        None
    }

    /// Looks an identity up by id.
    pub fn find_user_by_id(&self, id: i32) -> (r: Option<usize>)
        requires
            self.wf(),
        ensures
            match r {
                None => self.user_index(id) is None,
                Some(k) => self.user_index(id) == Some(k as int) && k < self.users@.len(),
            },
    {
        let mut i: usize = 0;
        while i < self.users.len()
            invariant
                i <= self.users@.len(),
                self.wf(),
                forall|k: int| 0 <= k < i ==> #[trigger] self.users@[k].id != id,
            decreases self.users@.len() - i,
        {
            if self.users[i].id == id {
                proof {
                    let c = choose|c: int| 0 <= c < self.users@.len() && #[trigger] self.users@[c].id == id;
                    if c != i as int {
                        assert(self.users@[c].id != self.users@[i as int].id);
                    }
                }
                return Some(i);
            }
            i = i + 1;
        }
        None
    }

    /// Looks an identity up by handle.
    pub fn find_user_by_handle(&self, handle: &str) -> (r: Option<usize>)
        requires
            self.wf(),
        ensures
            match r {
                None => self.handle_index(handle@) is None,
                Some(k) => self.handle_index(handle@) == Some(k as int) && k < self.users@.len(),
            },
    {
        let mut i: usize = 0;
        while i < self.users.len()
            invariant
                i <= self.users@.len(),
                self.wf(),
                forall|k: int| 0 <= k < i ==> #[trigger] self.users@[k].handle@ != handle@,
            decreases self.users@.len() - i,
        {
            if ct_eq(self.users[i].handle.as_str(), handle) {
                proof {
                    let c = choose|c: int| 0 <= c < self.users@.len() && #[trigger] self.users@[c].handle@ == handle@;
                    if c != i as int {
                        assert(self.users@[c].handle@ != self.users@[i as int].handle@);
                    }
                }
                return Some(i);
            }
            i = i + 1;
        }
        None
    }

    /// Whether an identity already holds this handle.
    pub fn check_handle(&self, handle: &str) -> (r: bool)
        requires
            self.wf(),
        ensures
            r == (self.handle_index(handle@) is Some),
    {
        self.find_user_by_handle(handle).is_some()
    }

    /// The circles that identity `uid` owns.
    pub fn circles_of(&self, uid: i32) -> (r: Vec<i32>)
        ensures
            forall|c: i32| r@.contains(c) <==> self.owns(uid, c),
    {
        let mut r: Vec<i32> = Vec::new();
        let mut i: usize = 0;
        while i < self.user_circles.len()
            invariant
                i <= self.user_circles@.len(),
                forall|c: i32| r@.contains(c) <==> exists|k: int|
                    0 <= k < i && #[trigger] self.user_circles@[k] == (UserCircle { user_id: uid, circle_id: c }),
            decreases self.user_circles@.len() - i,
        {
            let e = self.user_circles[i];
            if e.user_id == uid {
                let ghost prev = r@;
                r.push(e.circle_id);
                assert forall|c: i32| r@.contains(c) <==> exists|k: int|
                    0 <= k < i + 1 && #[trigger] self.user_circles@[k] == (UserCircle { user_id: uid, circle_id: c }) by {
                    if r@.contains(c) {
                        let m = choose|m: int| 0 <= m < r@.len() && r@[m] == c;
                        if m < prev.len() {
                            assert(prev.contains(c));
                        } else {
                            assert(self.user_circles@[i as int] == (UserCircle { user_id: uid, circle_id: c }));
                        }
                    }
                    if exists|k: int| 0 <= k < i + 1 && #[trigger] self.user_circles@[k] == (UserCircle { user_id: uid, circle_id: c }) {
                        let k = choose|k: int| 0 <= k < i + 1 && #[trigger] self.user_circles@[k] == (UserCircle { user_id: uid, circle_id: c });
                        if k < i {
                            assert(prev.contains(c));
                            let m = choose|m: int| 0 <= m < prev.len() && prev[m] == c;
                            assert(r@[m] == c);
                        } else {
                            assert(r@[prev.len() as int] == c);
                        }
                    }
                }
            } else {
                assert forall|c: i32| r@.contains(c) <==> exists|k: int|
                    0 <= k < i + 1 && #[trigger] self.user_circles@[k] == (UserCircle { user_id: uid, circle_id: c }) by {
                    if exists|k: int| 0 <= k < i + 1 && #[trigger] self.user_circles@[k] == (UserCircle { user_id: uid, circle_id: c }) {
                        let k = choose|k: int| 0 <= k < i + 1 && #[trigger] self.user_circles@[k] == (UserCircle { user_id: uid, circle_id: c });
                        assert(k < i);
                    }
                }
            }
            i = i + 1;
        }
        r
    }

    /// Stores a session for `user_id` under `selector` with the digest of
    /// `validator`, and returns the client's token `selector:validator`.
    pub fn issue_session(&mut self, user_id: i32, selector: String, validator: &str, persist: bool, now: u64) -> (r: Result<String, AuthError>)
        requires
            old(self).wf(),
            now + SESSION_TTL_SECS <= u64::MAX,
        ensures
            final(self).wf(),
            r is Err ==> *final(self) == *old(self),
            has_colon(selector@) || has_colon(validator@) ==> r == Err::<String, AuthError>(AuthError::TokenMalformed),
            !has_colon(selector@) && !has_colon(validator@) ==> (r is Err <==> (old(self).session_index(selector@) is Some
                || old(self).next_token_id == i32::MAX)),
            !has_colon(selector@) && !has_colon(validator@) && r is Err ==> r == Err::<String, AuthError>(AuthError::StoreConflict),
            r is Ok ==> r->Ok_0@ == selector@ + seq![':'] + validator@,
            r is Ok ==> old(self).issued(final(self), r->Ok_0@, user_id, persist, now as int),
    {
        if contains_colon(selector.as_str()) || contains_colon(validator) {
            return Err(AuthError::TokenMalformed);
        }
        if self.find_session(selector.as_str()).is_some() || self.next_token_id == i32::MAX {
            return Err(AuthError::StoreConflict);
        }
        let mut token = selector.clone();
        push_char(&mut token, ':');
        token.append(validator);
        let expires = if persist {
            None
        } else {
            Some(now + SESSION_TTL_SECS)
        };
        let ghost before = *self;
        let row = Token {
            id: self.next_token_id,
            selector,
            hashed_validator: digest_hex(validator),
            user_id,
            expires,
        };
        self.tokens.push(row);
        self.next_token_id = self.next_token_id + 1;
        proof {
            let t = token@;
            let p = before.tokens@.len();
            let sl = selector@.len() as int;
            assert(t =~= selector@ + seq![':'] + validator@);
            assert(well_split(t, sl));
            let q = choose|q: int| well_split(t, q);
            assert(q == sl);
            assert(t.subrange(0, sl) =~= selector@);
            assert(t.subrange(sl + 1, t.len() as int) =~= validator@);
            assert(self.tokens@.subrange(0, p as int) =~= before.tokens@);
            assert forall|i: int, j: int|
                #![trigger self.tokens@[i].selector@, self.tokens@[j].selector@]
                0 <= i < self.tokens@.len() && 0 <= j < self.tokens@.len() && i != j
                    implies self.tokens@[i].selector@ != self.tokens@[j].selector@ by {
                if i == p {
                    assert(before.tokens@[j].selector@ != selector@);
                } else if j == p {
                    assert(before.tokens@[i].selector@ != selector@);
                } else {
                    assert(before.tokens@[i] == self.tokens@[i]);
                    assert(before.tokens@[j] == self.tokens@[j]);
                }
            }
        }
        Ok(token)
    }

    /// Some stored session has a selector of length `n`, so that a fresh
    /// random selector of that length could collide with it.
    pub open spec fn has_selector_of_length(&self, n: nat) -> bool {
        exists|i: int| 0 <= i < self.tokens@.len() && (#[trigger] self.tokens@[i]).selector@.len() == n
    }

    /// Draws a random selector that no stored session uses, retrying up to
    /// `SELECTOR_ATTEMPTS` times on a collision.
    fn fresh_selector(&self) -> (r: Result<String, AuthError>)
        requires
            self.wf(),
        ensures
            r is Ok ==> r->Ok_0@.len() == SELECTOR_LENGTH && !has_colon(r->Ok_0@) && self.session_index(r->Ok_0@) is None,
            r is Ok ==> forall|i: int| 0 <= i < SELECTOR_LENGTH ==> is_token_char(#[trigger] r->Ok_0@[i]),
            r is Err ==> r == Err::<String, AuthError>(AuthError::RandomUnavailable) || r == Err::<String, AuthError>(
                AuthError::StoreConflict,
            ),
            r == Err::<String, AuthError>(AuthError::StoreConflict) ==> self.has_selector_of_length(SELECTOR_LENGTH as nat),
    {
        let mut attempt: usize = 0;
        while attempt < SELECTOR_ATTEMPTS
            invariant
                self.wf(),
                attempt > 0 ==> self.has_selector_of_length(SELECTOR_LENGTH as nat),
            decreases SELECTOR_ATTEMPTS - attempt,
        {
            let selector = match generate_random_string(SELECTOR_LENGTH) {
                Some(s) => s,
                None => return Err(AuthError::RandomUnavailable),
            };
            proof {
                lemma_token_text_has_no_colon(selector@);
            }
            match self.find_session(selector.as_str()) {
                None => return Ok(selector),
                Some(k) => {
                    assert(self.tokens@[k as int].selector@ == selector@);
                },
            }
            attempt = attempt + 1;
        }
        Err(AuthError::StoreConflict)
    }

    /// Logs in with handle and password: on success a new session is stored
    /// and the client's token `selector:validator` returned. Unknown handle
    /// and wrong password fail alike. A selector that collides with a stored
    /// one is redrawn.
    pub fn login(&mut self, handle: &str, password: &str, persist: bool, now: u64) -> (r: Result<String, AuthError>)
        requires
            old(self).wf(),
            now + SESSION_TTL_SECS <= u64::MAX,
        ensures
            final(self).wf(),
            r is Err ==> *final(self) == *old(self),
            !old(self).accepts_login(handle@, password@) ==> r == Err::<String, AuthError>(AuthError::AuthenticationFailed),
            old(self).accepts_login(handle@, password@) && old(self).next_token_id == i32::MAX ==> r == Err::<
                String,
                AuthError,
            >(AuthError::StoreConflict),
            old(self).accepts_login(handle@, password@) && old(self).next_token_id < i32::MAX
                && !old(self).has_selector_of_length(SELECTOR_LENGTH as nat) ==> r is Ok || r == Err::<String, AuthError>(
                AuthError::RandomUnavailable,
            ),
            old(self).accepts_login(handle@, password@) ==> r is Ok || r == Err::<String, AuthError>(AuthError::StoreConflict)
                || r == Err::<String, AuthError>(AuthError::RandomUnavailable),
            r == Err::<String, AuthError>(AuthError::StoreConflict) ==> old(self).next_token_id == i32::MAX
                || old(self).has_selector_of_length(SELECTOR_LENGTH as nat),
            r is Ok ==> old(self).issued(final(self), r->Ok_0@, old(self).id_of_handle(handle@), persist, now as int),
            r is Ok ==> issued_shape(r->Ok_0@),
    {
        let j = match self.find_user_by_handle(handle) {
            Some(j) => j,
            None => return Err(AuthError::AuthenticationFailed),
        };
        match verify_password(password, self.users[j].password.as_str()) {
            Ok(true) => {},
            _ => return Err(AuthError::AuthenticationFailed),
        }
        if self.next_token_id == i32::MAX {
            return Err(AuthError::StoreConflict);
        }
        let user_id = self.users[j].id;
        let selector = self.fresh_selector()?;
        let validator = match generate_random_string(VALIDATOR_LENGTH) {
            Some(v) => v,
            None => return Err(AuthError::RandomUnavailable),
        };
        proof {
            lemma_token_text_has_no_colon(validator@);
        }
        let ghost sel = selector@;
        let ghost val = validator@;
        let r = self.issue_session(user_id, selector, validator.as_str(), persist, now);
        proof {
            let t = r->Ok_0@;
            let sl = SELECTOR_LENGTH as int;
            assert(t.subrange(0, sl) =~= sel);
            assert(t.subrange(sl + 1, t.len() as int) =~= val);
            assert(t =~= sel + seq![':'] + val);
            assert forall|i: int| 0 <= i < t.len() && i != SELECTOR_LENGTH implies is_token_char(#[trigger] t[i]) by {
                if i < sl {
                    assert(t[i] == sel[i]);
                } else {
                    assert(t[i] == val[i - sl - 1]);
                }
            }
        }
        r
    }

    /// Deletes every session of identity `user_id` (logout, password
    /// rotation, account deletion).
    pub fn revoke_all(&mut self, user_id: i32)
        requires
            old(self).wf(),
        ensures
            final(self).wf(),
            final(self).users@ == old(self).users@,
            final(self).user_circles@ == old(self).user_circles@,
            final(self).next_user_id == old(self).next_user_id,
            final(self).tokens@ == old(self).tokens@.filter(not_owned_by(user_id)),
    {
        let ghost orig = self.tokens@;
        let mut rest: Vec<Token> = Vec::new();
        std::mem::swap(&mut self.tokens, &mut rest);
        let n = rest.len();
        let mut k: usize = 0;
        proof {
            assert(orig.subrange(0, 0).filter(not_owned_by(user_id)) =~= Seq::<Token>::empty()) by {
                reveal(Seq::filter);
            }
            assert(rest@.subrange(0, 0) =~= orig.subrange(0, 0));
            assert(orig.subrange(0, n as int) =~= orig);
        }
        while k < n
            invariant
                n == orig.len(),
                k <= n,
                rest@ == orig.subrange(k as int, n as int),
                self.tokens@ == orig.subrange(0, k as int).filter(not_owned_by(user_id)),
                self.users@ == old(self).users@,
                self.user_circles@ == old(self).user_circles@,
                self.next_user_id == old(self).next_user_id,
            decreases n - k,
        {
            let t = rest.remove(0);
            proof {
                reveal(Seq::filter);
                let s1 = orig.subrange(0, k as int + 1);
                assert(s1.drop_last() =~= orig.subrange(0, k as int));
                assert(s1.last() == orig[k as int]);
                assert(t == orig[k as int]);
            }
            if t.user_id != user_id {
                self.tokens.push(t);
            }
            k = k + 1;
            assert(rest@ =~= orig.subrange(k as int, n as int));
        }
        proof {
            lemma_filter_distinct_selectors(orig, user_id);
        }
    }

    /// Resolves the identity of a request from its `token` cookie, if any.
    pub fn authenticate(&self, token: Option<&str>, now: u64) -> (r: Result<AuthenticatedUser, AuthError>)
        requires
            self.wf(),
        ensures
            token is None ==> r == Err::<AuthenticatedUser, AuthError>(AuthError::TokenMissing),
            token is Some ==> match self.validate_spec(token->0@, now as int) {
                Err(e) => r == Err::<AuthenticatedUser, AuthError>(e),
                Ok(uid) => r is Ok && self.resolves(uid, r->Ok_0),
            },
    {
        match token {
            None => Err(AuthError::TokenMissing),
            Some(t) => self.validate(t, now),
        }
    }

    /// Resolves the identity behind a presented `selector:validator` token at
    /// time `now` (seconds since the epoch).
    pub fn validate(&self, token: &str, now: u64) -> (r: Result<AuthenticatedUser, AuthError>)
        requires
            self.wf(),
        ensures
            match self.validate_spec(token@, now as int) {
                Err(e) => r == Err::<AuthenticatedUser, AuthError>(e),
                Ok(uid) => r is Ok && self.resolves(uid, r->Ok_0),
            },
    {
        let (selector, validator) = match split_token(token) {
            Ok(parts) => parts,
            Err(e) => return Err(e),
        };
        let presented = digest_hex(validator.as_str());
        let i = match self.find_session(selector.as_str()) {
            Some(i) => i,
            None => return Err(AuthError::TokenInvalid),
        };
        let row = &self.tokens[i];
        let same = ct_eq(row.hashed_validator.as_str(), presented.as_str());
        let expired = match row.expires {
            Some(e) => e < now,
            None => false,
        };
        if !same || expired {
            return Err(AuthError::TokenInvalid);
        }
        let j = match self.find_user_by_id(row.user_id) {
            Some(j) => j,
            None => return Err(AuthError::TokenInvalid),
        };
        let u = &self.users[j];
        Ok(AuthenticatedUser {
            id: u.id,
            handle: u.handle.clone(),
            nickname: u.nickname.clone(),
            twitter_id: clone_opt(&u.twitter_id),
            email: u.email.clone(),
            role: u.role,
            circles: self.circles_of(u.id),
        })
    }
}

/// A token of a random selector and validator of the configured lengths.
pub open spec fn issued_shape(token: Seq<char>) -> bool {
    &&& token.len() == SELECTOR_LENGTH + 1 + VALIDATOR_LENGTH
    &&& token[SELECTOR_LENGTH as int] == ':'
    &&& forall|i: int| 0 <= i < token.len() && i != SELECTOR_LENGTH ==> is_token_char(#[trigger] token[i])
}

/// Keeps the sessions of every identity but `uid`.
pub open spec fn not_owned_by(uid: i32) -> spec_fn(Token) -> bool {
    |t: Token| t.user_id != uid
}

/// No two sessions share a selector.
pub open spec fn distinct_selectors(s: Seq<Token>) -> bool {
    forall|i: int, j: int|
        #![trigger s[i].selector@, s[j].selector@]
        0 <= i < s.len() && 0 <= j < s.len() && i != j ==> s[i].selector@ != s[j].selector@
}

proof fn lemma_filter_distinct_selectors(s: Seq<Token>, uid: i32)
    requires
        distinct_selectors(s),
    ensures
        distinct_selectors(s.filter(not_owned_by(uid))),
    decreases s.len(),
{
    reveal(Seq::filter);
    if s.len() > 0 {
        let sub = s.drop_last();
        assert(distinct_selectors(sub)) by {
            assert forall|i: int, j: int|
                #![trigger sub[i].selector@, sub[j].selector@]
                0 <= i < sub.len() && 0 <= j < sub.len() && i != j implies sub[i].selector@ != sub[j].selector@ by {
                assert(sub[i] == s[i] && sub[j] == s[j]);
            }
        }
        lemma_filter_distinct_selectors(sub, uid);
        let f = sub.filter(not_owned_by(uid));
        if not_owned_by(uid)(s.last()) {
            let g = f.push(s.last());
            assert forall|i: int, j: int|
                #![trigger g[i].selector@, g[j].selector@]
                0 <= i < g.len() && 0 <= j < g.len() && i != j implies g[i].selector@ != g[j].selector@ by {
                if i == f.len() || j == f.len() {
                    let m = if i == f.len() { j } else { i };
                    assert(f.contains(g[m])) by {
                        assert(f[m] == g[m]);
                    }
                    sub.lemma_filter_contains_rev(not_owned_by(uid), g[m]);
                    let a = choose|a: int| 0 <= a < sub.len() && sub[a] == g[m];
                    assert(s[a] == sub[a]);
                    assert(s[a].selector@ != s[s.len() - 1].selector@);
                } else {
                    assert(g[i] == f[i] && g[j] == f[j]);
                }
            }
        }
    }
}

/// After `revoke_all(uid)`, a token whose session belonged to `uid` fails
/// with `TokenInvalid`, at any time.
pub proof fn lemma_revoked_token_fails(before: AuthStore, after: AuthStore, uid: i32, token: Seq<char>, now: int)
    requires
        before.wf(),
        after.tokens@ == before.tokens@.filter(not_owned_by(uid)),
        split_spec(token) is Some,
        before.session_index(selector_part(token)) is Some,
        before.tokens@[before.session_index(selector_part(token))->0].user_id == uid,
    ensures
        after.validate_spec(token, now) == Err::<i32, AuthError>(AuthError::TokenInvalid),
{
    let sel = selector_part(token);
    let m = before.session_index(sel)->0;
    assert(0 <= m < before.tokens@.len() && before.tokens@[m].selector@ == sel);
    if after.session_index(sel) is Some {
        let i = after.session_index(sel)->0;
        assert(0 <= i < after.tokens@.len() && after.tokens@[i].selector@ == sel);
        before.tokens@.lemma_filter_pred(not_owned_by(uid), i);
        assert(after.tokens@.contains(after.tokens@[i]));
        before.tokens@.lemma_filter_contains_rev(not_owned_by(uid), after.tokens@[i]);
        let a = choose|a: int| 0 <= a < before.tokens@.len() && before.tokens@[a] == after.tokens@[i];
        if a != m {
            assert(before.tokens@[a].selector@ != before.tokens@[m].selector@);
        }
    }
}

/// Two stores with the same sessions and the same id and handle at every
/// position of the identities.
pub open spec fn same_keys(a: AuthStore, b: AuthStore) -> bool {
    &&& b.tokens@ == a.tokens@
    &&& b.next_user_id == a.next_user_id
    &&& b.users@.len() == a.users@.len()
    &&& forall|k: int| 0 <= k < a.users@.len() ==> (#[trigger] b.users@[k]).id == a.users@[k].id && b.users@[k].handle@ == a.users@[k].handle@
}

/// Changing fields other than id and handle keeps the store well formed, and
/// every identity where it was.
pub proof fn lemma_same_keys_wf(a: AuthStore, b: AuthStore)
    requires
        a.wf(),
        same_keys(a, b),
    ensures
        b.wf(),
        forall|id: i32| b.user_index(id) == a.user_index(id),
{
    assert forall|i: int, j: int|
        #![trigger b.users@[i].handle@, b.users@[j].handle@]
        0 <= i < b.users@.len() && 0 <= j < b.users@.len() && i != j implies b.users@[i].handle@ != b.users@[j].handle@ by {
        assert(a.users@[i].handle@ != a.users@[j].handle@);
    }
    assert forall|i: int, j: int|
        #![trigger b.users@[i].id, b.users@[j].id]
        0 <= i < b.users@.len() && 0 <= j < b.users@.len() && i != j implies b.users@[i].id != b.users@[j].id by {
        assert(a.users@[i].id != a.users@[j].id);
    }
    assert forall|i: int| 0 <= i < b.users@.len() implies 0 < #[trigger] b.users@[i].id < b.next_user_id by {
        assert(a.users@[i].id == b.users@[i].id);
    }
    assert forall|id: i32| b.user_index(id) == a.user_index(id) by {
        if a.user_index(id) is Some {
            let i = a.user_index(id)->0;
            assert(b.users@[i].id == id);
            let c = b.user_index(id)->0;
            assert(b.users@[c].id == id);
            assert(a.users@[c].id == id);
            if c != i {
                assert(a.users@[c].id != a.users@[i].id);
            }
        } else {
            if b.user_index(id) is Some {
                let c = b.user_index(id)->0;
                assert(a.users@[c].id == id);
            }
        }
    }
}

/// A well-formed token whose selector names a stored session but whose
/// validator does not hash to the stored digest fails with `TokenInvalid`.
pub proof fn lemma_mismatched_digest_fails(st: AuthStore, token: Seq<char>, now: int)
    requires
        st.wf(),
        split_spec(token) is Some,
        st.session_index(selector_part(token)) is Some,
        st.tokens@[st.session_index(selector_part(token))->0].hashed_validator@ != sha256_hex(validator_part(token)),
    ensures
        st.validate_spec(token, now) == Err::<i32, AuthError>(AuthError::TokenInvalid),
{
}

/// A session that does not persist validates until its issuance time plus
/// the three-hour lifetime and fails with `TokenInvalid` once the clock has
/// passed it; a persistent session never fails on expiry.
pub proof fn lemma_session_expiry(
    before: AuthStore,
    after: AuthStore,
    token: Seq<char>,
    uid: i32,
    persist: bool,
    issued_at: int,
    now: int,
)
    requires
        before.wf(),
        before.issued(&after, token, uid, persist, issued_at),
        before.user_index(uid) is Some,
        0 <= issued_at,
        issued_at + SESSION_TTL_SECS <= u64::MAX,
    ensures
        persist ==> after.validate_spec(token, now) == Ok::<i32, AuthError>(uid),
        !persist && now <= issued_at + SESSION_TTL_SECS ==> after.validate_spec(token, now) == Ok::<i32, AuthError>(uid),
        !persist && now > issued_at + SESSION_TTL_SECS ==> after.validate_spec(token, now) == Err::<i32, AuthError>(AuthError::TokenInvalid),
{
    let (sel, val) = split_spec(token)->0;
    let p = before.tokens@.len() as int;
    assert(after.tokens@[p] == after.tokens@.last());
    assert(after.tokens@[p].selector@ == sel);
    let c = after.session_index(sel)->0;
    assert(0 <= c < after.tokens@.len() && after.tokens@[c].selector@ == sel);
    if c != p {
        assert(after.tokens@[c] == after.tokens@.subrange(0, p)[c]);
        assert(before.tokens@[c].selector@ == sel);
    }
    let ui = choose|i: int| 0 <= i < before.users@.len() && #[trigger] before.users@[i].id == uid;
    assert(after.users@[ui].id == uid);
}

/// A token that was just issued validates at once, to the identity it was
/// issued for.
pub proof fn lemma_issued_token_validates(
    before: AuthStore,
    after: AuthStore,
    token: Seq<char>,
    uid: i32,
    persist: bool,
    now: int,
)
    requires
        before.wf(),
        before.issued(&after, token, uid, persist, now),
        before.user_index(uid) is Some,
        0 <= now,
        now + SESSION_TTL_SECS <= u64::MAX,
    ensures
        after.validate_spec(token, now) == Ok::<i32, AuthError>(uid),
{
    lemma_session_expiry(before, after, token, uid, persist, now, now);
}

/// A login that succeeds hands out a token that validates at once to the
/// identity that logged in.
pub proof fn lemma_login_token_validates(
    before: AuthStore,
    after: AuthStore,
    handle: Seq<char>,
    token: Seq<char>,
    persist: bool,
    now: int,
)
    requires
        before.wf(),
        before.handle_index(handle) is Some,
        before.issued(&after, token, before.id_of_handle(handle), persist, now),
        0 <= now,
        now + SESSION_TTL_SECS <= u64::MAX,
    ensures
        after.validate_spec(token, now) == Ok::<i32, AuthError>(before.id_of_handle(handle)),
        after.user_index(before.id_of_handle(handle)) == Some(before.handle_index(handle)->0),
{
    let j = before.handle_index(handle)->0;
    let uid = before.users@[j].id;
    let c = choose|c: int| 0 <= c < before.users@.len() && #[trigger] before.users@[c].id == uid;
    if c != j {
        assert(before.users@[c].id != before.users@[j].id);
    }
    lemma_issued_token_validates(before, after, token, uid, persist, now);
}

/// The text holds the token separator `:`.
pub open spec fn has_colon(s: Seq<char>) -> bool {
    exists|i: int| 0 <= i < s.len() && s[i] == ':'
}

/// Text made of token characters holds no separator.
proof fn lemma_token_text_has_no_colon(s: Seq<char>)
    requires
        forall|i: int| 0 <= i < s.len() ==> is_token_char(#[trigger] s[i]),
    ensures
        !has_colon(s),
{
    if has_colon(s) {
        let k = choose|k: int| 0 <= k < s.len() && s[k] == ':';
        assert(is_token_char(s[k]));
    }
}

/// Whether a text holds the token separator `:`.
pub fn contains_colon(s: &str) -> (r: bool)
    ensures
        r == has_colon(s@),
{
    let n = s.unicode_len();
    let mut i: usize = 0;
    while i < n
        invariant
            n == s@.len(),
            i <= n,
            forall|k: int| 0 <= k < i ==> s@[k] != ':',
        decreases n - i,
    {
        if s.get_char(i) == ':' {
            return true;
        }
        i = i + 1;
    }
    false
}

/// Copies an optional text.
pub fn clone_opt(o: &Option<String>) -> (r: Option<String>)
    ensures
        opt_view(r) == opt_view(*o),
{
    match o {
        Some(s) => Some(s.clone()),
        None => None,
    }
}

/// Compares two texts without stopping at the first difference.
pub fn ct_eq(a: &str, b: &str) -> (r: bool)
    ensures
        r == (a@ == b@),
{
    let n = a.unicode_len();
    let m = b.unicode_len();
    let mut same = n == m;
    let mut i: usize = 0;
    while i < n
        invariant
            n == a@.len(),
            m == b@.len(),
            i <= n,
            same == (n == m && forall|k: int| 0 <= k < i ==> a@[k] == b@[k]),
        decreases n - i,
    {
        if i < m {
            let differs = a.get_char(i) != b.get_char(i);
            if differs {
                same = false;
            }
        }
        i = i + 1;
    }
    proof {
        if same {
            assert(a@ =~= b@);
        }
    }
    same
}

/// Splits a token at its only `:` into selector and validator.
pub fn split_token(token: &str) -> (r: Result<(String, String), AuthError>)
    ensures
        match split_spec(token@) {
            None => r == Err::<(String, String), AuthError>(AuthError::TokenMalformed),
            Some((s, v)) => r is Ok && r->Ok_0.0@ == s && r->Ok_0.1@ == v,
        },
{
    let n = token.unicode_len();
    let mut count: usize = 0;
    let mut first: usize = 0;
    let mut second: usize = 0;
    let mut i: usize = 0;
    while i < n
        invariant
            n == token@.len(),
            i <= n,
            count <= 2,
            count == 0 ==> forall|q: int| 0 <= q < i ==> token@[q] != ':',
            count >= 1 ==> first < i && token@[first as int] == ':',
            count == 1 ==> forall|q: int| 0 <= q < i && q != first ==> token@[q] != ':',
            count == 2 ==> second < i && second != first && token@[second as int] == ':',
        decreases n - i,
    {
        if token.get_char(i) == ':' {
            if count == 0 {
                first = i;
                count = 1;
            } else if count == 1 {
                second = i;
                count = 2;
            }
        }
        i = i + 1;
    }
    if count != 1 {
        proof {
            assert forall|p: int| !well_split(token@, p) by {
                if well_split(token@, p) {
                    if count == 2 {
                        assert(p == first as int || p == second as int);
                    }
                }
            }
        }
        return Err(AuthError::TokenMalformed);
    }
    proof {
        assert(well_split(token@, first as int));
        let p = choose|p: int| well_split(token@, p);
        assert(p == first as int);
    }
    let sel = String::from_str(token.substring_char(0, first));
    let val = String::from_str(token.substring_char(first + 1, n));
    Ok((sel, val))
}

} // verus!
