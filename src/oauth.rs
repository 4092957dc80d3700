use vstd::prelude::*;

use crate::crypto::{code_challenge, code_challenge_of};
use crate::error_handler::AuthError;
use crate::models::{opt_view, AuthenticatedUser, UserSensitive};
use crate::session::{clone_opt, ct_eq, is_expired, lemma_same_keys_wf, same_keys, AuthStore, UserCircle};
use crate::strings::{generate_random_string, is_token_char, push_char};

verus! {

/// Length of the random OAuth `state`.
pub const OAUTH_STATE_LENGTH: usize = 16;

/// Length of the PKCE code verifier (the most that PKCE allows).
pub const CODE_VERIFIER_LENGTH: usize = 128;

/// How long a linking attempt stays usable: ten minutes.
pub const LINK_TTL_SECS: u64 = 600;

/// Settings read once at start-up and handed to the flows that need them.
pub struct OAuthConfig {
    pub client_id: String,
    pub client_secret: String,
    /// Public base URL of this service, e.g. `https://example.org`.
    pub base_url: String,
}

/// A consumed linking attempt: who started it and the verifier to present.
pub struct LinkAttempt {
    pub user_id: i32,
    pub code_verifier: String,
}

/// An external account URL declared by an artist of circle `circle_id`.
pub struct DeclaredAccount {
    pub circle_id: i32,
    pub account_url: Option<String>,
}

/// How one character of the base URL is written in a query value.
pub open spec fn escaped_char(c: char) -> Seq<char> {
    if c == ':' {
        seq!['%', '3', 'A']
    } else if c == '/' {
        seq!['%', '2', 'F']
    } else {
        seq![c]
    }
}

/// The base URL with `:` and `/` percent-encoded.
pub open spec fn escaped(s: Seq<char>) -> Seq<char>
    decreases s.len(),
{
    if s.len() == 0 {
        Seq::empty()
    } else {
        escaped(s.drop_last()) + escaped_char(s.last())
    }
}

/// Percent-encodes `:` and `/` so that the base URL fits in a query value.
pub fn escape_base_url(s: &str) -> (r: String)
    ensures
        r@ == escaped(s@),
{
    let n = s.unicode_len();
    let mut r = String::new();
    let mut i: usize = 0;
    while i < n
        invariant
            n == s@.len(),
            i <= n,
            r@ == escaped(s@.subrange(0, i as int)),
        decreases n - i,
    {
        let c = s.get_char(i);
        proof {
            let t = s@.subrange(0, i as int + 1);
            assert(t.drop_last() =~= s@.subrange(0, i as int));
            assert(t.last() == c);
        }
        if c == ':' {
            push_char(&mut r, '%');
            push_char(&mut r, '3');
            push_char(&mut r, 'A');
        } else if c == '/' {
            push_char(&mut r, '%');
            push_char(&mut r, '2');
            push_char(&mut r, 'F');
        } else {
            push_char(&mut r, c);
        }
        proof {
            assert(r@ =~= escaped(s@.subrange(0, i as int + 1)));
        }
        i = i + 1;
    }
    assert(s@.subrange(0, n as int) =~= s@);
    r
}

/// The provider's authorization URL for a linking attempt.
pub open spec fn authorize_url_of(client_id: Seq<char>, base_url: Seq<char>, state: Seq<char>, challenge: Seq<char>) -> Seq<char> {
    "https://twitter.com/i/oauth2/authorize?response_type=code&client_id="@ + client_id
        + "&redirect_uri="@ + escaped(base_url) + "%2Fapi%2Foauth%2Ftwitter&scope=tweet.read%20users.read&state="@
        + state + "&code_challenge="@ + challenge + "&code_challenge_method=S256"@
}

/// Builds the authorization URL with `state` and the S256 `challenge`.
pub fn authorize_url(config: &OAuthConfig, state: &str, challenge: &str) -> (r: String)
    ensures
        r@ == authorize_url_of(config.client_id@, config.base_url@, state@, challenge@),
{
    let mut r = String::from_str("https://twitter.com/i/oauth2/authorize?response_type=code&client_id=");
    r.append(config.client_id.as_str());
    r.append("&redirect_uri=");
    let base = escape_base_url(config.base_url.as_str());
    r.append(base.as_str());
    r.append("%2Fapi%2Foauth%2Ftwitter&scope=tweet.read%20users.read&state=");
    r.append(state);
    r.append("&code_challenge=");
    r.append(challenge);
    r.append("&code_challenge_method=S256");
    r
}

/// Where the provider sends the user back, as given in the token exchange.
pub fn callback_uri(config: &OAuthConfig) -> (r: String)
    ensures
        r@ == config.base_url@ + "/api/oauth/twitter"@,
{
    let mut r = config.base_url.clone();
    r.append("/api/oauth/twitter");
    r
}

/// The accepted forms of a profile URL for an external handle: bare and with
/// a trailing slash, on both of the provider's domains.
pub open spec fn is_profile_url(url: Seq<char>, name: Seq<char>) -> bool {
    ||| url == "https://twitter.com/"@ + name
    ||| url == "https://twitter.com/"@ + name + "/"@
    ||| url == "https://x.com/"@ + name
    ||| url == "https://x.com/"@ + name + "/"@
}

fn joined(a: &str, b: &str, c: &str) -> (r: String)
    ensures
        r@ == a@ + b@ + c@,
{
    let mut r = String::from_str(a);
    r.append(b);
    r.append(c);
    r
}

/// Whether a declared account URL names the external handle `name`.
pub fn matches_profile(url: &str, name: &str) -> (r: bool)
    ensures
        r == is_profile_url(url@, name@),
{
    let u = String::from_str(url);
    let a = joined("https://twitter.com/", name, "");
    let b = joined("https://twitter.com/", name, "/");
    let c = joined("https://x.com/", name, "");
    let d = joined("https://x.com/", name, "/");
    proof {
        reveal_strlit("");
        assert(a@ =~= "https://twitter.com/"@ + name@);
        assert(c@ =~= "https://x.com/"@ + name@);
    }
    u == a || u == b || u == c || u == d
}

/// Some declared account of circle `c` names the external handle `name`.
pub open spec fn linked(declared: Seq<DeclaredAccount>, name: Seq<char>, c: i32) -> bool {
    exists|i: int| 0 <= i < declared.len() && #[trigger] links_at(declared, name, i, c)
}

/// `u` holds a pending linking attempt with this state.
pub open spec fn pending(u: UserSensitive, state: Seq<char>) -> bool {
    opt_view(u.oauth_state) == Some(state)
}

/// `n` is `o` with nothing changed but, possibly, the linking attempt and the
/// linked account.
pub open spec fn same_profile(n: UserSensitive, o: UserSensitive) -> bool {
    &&& n.id == o.id
    &&& n.handle@ == o.handle@
    &&& n.nickname@ == o.nickname@
    &&& n.password@ == o.password@
    &&& n.role == o.role
    &&& n.email@ == o.email@
}

/// `after` is `before` with every attempt for `state` cleared and nothing
/// else of the identities changed.
pub open spec fn cleared_attempts(before: AuthStore, after: AuthStore, state: Seq<char>) -> bool {
    &&& after.users@.len() == before.users@.len()
    &&& forall|k: int|
        0 <= k < after.users@.len() ==> {
            let o = before.users@[k];
            let n = #[trigger] after.users@[k];
            &&& same_profile(n, o)
            &&& opt_view(n.twitter_id) == opt_view(o.twitter_id)
            &&& if pending(o, state) {
                n.oauth_state is None && n.code_verifier is None
            } else {
                opt_view(n.oauth_state) == opt_view(o.oauth_state) && opt_view(n.code_verifier) == opt_view(o.code_verifier)
            }
        }
}

/// Declared account `i` belongs to circle `c` and names the handle `name`.
pub open spec fn links_at(declared: Seq<DeclaredAccount>, name: Seq<char>, i: int, c: i32) -> bool {
    &&& declared[i].circle_id == c
    &&& declared[i].account_url is Some
    &&& is_profile_url(declared[i].account_url->0@, name)
}

/// A copy of an identity record.
fn copy_user(u: &UserSensitive) -> (r: UserSensitive)
    ensures
        same_profile(r, *u),
        opt_view(r.twitter_id) == opt_view(u.twitter_id),
        opt_view(r.code_verifier) == opt_view(u.code_verifier),
        opt_view(r.oauth_state) == opt_view(u.oauth_state),
        r.oauth_expires == u.oauth_expires,
{
    UserSensitive {
        id: u.id,
        handle: u.handle.clone(),
        nickname: u.nickname.clone(),
        password: u.password.clone(),
        twitter_id: clone_opt(&u.twitter_id),
        role: u.role,
        email: u.email.clone(),
        code_verifier: clone_opt(&u.code_verifier),
        oauth_state: clone_opt(&u.oauth_state),
        oauth_expires: u.oauth_expires,
    }
}

impl AuthStore {
    /// Position of the first identity with a pending attempt for `state`.
    pub open spec fn first_pending(&self, state: Seq<char>) -> Option<int> {
        if exists|i: int| 0 <= i < self.users@.len() && pending(#[trigger] self.users@[i], state) {
            Some(choose|i: int|
                0 <= i < self.users@.len() && pending(#[trigger] self.users@[i], state)
                    && forall|k: int| 0 <= k < i ==> !pending(#[trigger] self.users@[k], state))
        } else {
            None
        }
    }

    /// What consuming `state` yields: who started the attempt and its verifier.
    pub open spec fn take_outcome(&self, state: Seq<char>, now: int) -> Result<(i32, Seq<char>), AuthError> {
        match self.first_pending(state) {
            None => Err(AuthError::InvalidRequest),
            Some(i) => if is_expired(self.users@[i].oauth_expires, now) {
                Err(AuthError::InvalidRequest)
            } else {
                match self.users@[i].code_verifier {
                    None => Err(AuthError::InvalidRequest),
                    Some(v) => Ok((self.users@[i].id, v@)),
                }
            },
        }
    }

    /// Records a linking attempt for identity `user_id`, replacing any
    /// earlier one.
    pub fn record_link_attempt(&mut self, user_id: i32, state: String, verifier: String, now: u64) -> (r: Result<(), AuthError>)
        requires
            old(self).wf(),
            now + LINK_TTL_SECS <= u64::MAX,
        ensures
            final(self).wf(),
            old(self).user_index(user_id) is None ==> r == Err::<(), AuthError>(AuthError::NotFound) && *final(self) == *old(self),
            old(self).user_index(user_id) is Some ==> {
                let j = old(self).user_index(user_id)->0;
                let n = final(self).users@[j];
                &&& r is Ok
                &&& same_keys(*old(self), *final(self))
                &&& final(self).user_circles@ == old(self).user_circles@
                &&& final(self).users@ == old(self).users@.update(j, n)
                &&& same_profile(n, old(self).users@[j])
                &&& opt_view(n.twitter_id) == opt_view(old(self).users@[j].twitter_id)
                &&& opt_view(n.oauth_state) == Some(state@)
                &&& opt_view(n.code_verifier) == Some(verifier@)
                &&& n.oauth_expires == Some((now + LINK_TTL_SECS) as u64)
            },
    {
        let j = match self.find_user_by_id(user_id) {
            Some(j) => j,
            None => return Err(AuthError::NotFound),
        };
        let mut u = copy_user(&self.users[j]);
        u.oauth_state = Some(state);
        u.code_verifier = Some(verifier);
        u.oauth_expires = Some(now + LINK_TTL_SECS);
        let ghost before = *self;
        self.users.set(j, u);
        proof {
            lemma_same_keys_wf(before, *self);
        }
        Ok(())
    }

    /// Starts linking an external account: stores a fresh state and PKCE
    /// verifier for the identity and returns the provider URL to redirect to.
    pub fn new_twitter_oauth(&mut self, config: &OAuthConfig, user: &AuthenticatedUser, now: u64) -> (r: Result<String, AuthError>)
        requires
            old(self).wf(),
            now + LINK_TTL_SECS <= u64::MAX,
        ensures
            final(self).wf(),
            r is Err ==> *final(self) == *old(self),
            old(self).user_index(user.id) is None ==> r == Err::<String, AuthError>(AuthError::NotFound),
            old(self).user_index(user.id) is Some ==> r is Ok || r == Err::<String, AuthError>(AuthError::RandomUnavailable),
            r is Ok ==> old(self).user_index(user.id) is Some,
            r is Ok ==> {
                let j = old(self).user_index(user.id)->0;
                let n = final(self).users@[j];
                let st = n.oauth_state->0@;
                let v = n.code_verifier->0@;
                &&& same_keys(*old(self), *final(self))
                &&& final(self).user_circles@ == old(self).user_circles@
                &&& final(self).users@ == old(self).users@.update(j, n)
                &&& same_profile(n, old(self).users@[j])
                &&& opt_view(n.twitter_id) == opt_view(old(self).users@[j].twitter_id)
                &&& n.oauth_state is Some && st.len() == OAUTH_STATE_LENGTH
                &&& n.code_verifier is Some && v.len() == CODE_VERIFIER_LENGTH
                &&& n.oauth_expires == Some((now + LINK_TTL_SECS) as u64)
                &&& forall|i: int| 0 <= i < st.len() ==> is_token_char(#[trigger] st[i])
                &&& forall|i: int| 0 <= i < v.len() ==> is_token_char(#[trigger] v[i])
                &&& r->Ok_0@ == authorize_url_of(config.client_id@, config.base_url@, st, code_challenge_of(v))
            },
    {
        if self.find_user_by_id(user.id).is_none() {
            return Err(AuthError::NotFound);
        }
        let state = match generate_random_string(OAUTH_STATE_LENGTH) {
            Some(s) => s,
            None => return Err(AuthError::RandomUnavailable),
        };
        let verifier = match generate_random_string(CODE_VERIFIER_LENGTH) {
            Some(v) => v,
            None => return Err(AuthError::RandomUnavailable),
        };
        let challenge = code_challenge(verifier.as_str());
        let url = authorize_url(config, state.as_str(), challenge.as_str());
        self.record_link_attempt(user.id, state, verifier, now)?;
        Ok(url)
    }

    /// Consumes the pending attempt for `state`. Every attempt with that
    /// state is cleared whatever the outcome, so a state works at most once.
    pub fn take_link_attempt(&mut self, state: &str, now: u64) -> (r: Result<LinkAttempt, AuthError>)
        requires
            old(self).wf(),
        ensures
            final(self).wf(),
            same_keys(*old(self), *final(self)),
            final(self).user_circles@ == old(self).user_circles@,
            match old(self).take_outcome(state@, now as int) {
                Err(e) => r == Err::<LinkAttempt, AuthError>(e),
                Ok((uid, v)) => r is Ok && r->Ok_0.user_id == uid && r->Ok_0.code_verifier@ == v,
            },
            cleared_attempts(*old(self), *final(self), state@),
    {
        let found = match self.find_pending(state) {
            None => None,
            Some(i) => {
                let u = &self.users[i];
                let lapsed = match u.oauth_expires {
                    Some(e) => e < now,
                    None => false,
                };
                if lapsed {
                    None
                } else {
                    match &u.code_verifier {
                        Some(v) => Some(LinkAttempt { user_id: u.id, code_verifier: v.clone() }),
                        None => None,
                    }
                }
            },
        };
        self.clear_attempts(state);
        match found {
            Some(a) => Ok(a),
            None => Err(AuthError::InvalidRequest),
        }
    }

    /// Position of the first identity with a pending attempt for `state`.
    fn find_pending(&self, state: &str) -> (r: Option<usize>)
        ensures
            match r {
                None => self.first_pending(state@) is None,
                Some(k) => self.first_pending(state@) == Some(k as int) && k < self.users@.len(),
            },
    {
        let mut i: usize = 0;
        while i < self.users.len()
            invariant
                i <= self.users@.len(),
                forall|k: int| 0 <= k < i ==> !pending(#[trigger] self.users@[k], state@),
            decreases self.users@.len() - i,
        {
            let hit = match &self.users[i].oauth_state {
                Some(s) => ct_eq(s.as_str(), state),
                None => false,
            };
            if hit {
                proof {
                    assert(pending(self.users@[i as int], state@));
                    let f = self.first_pending(state@)->0;
                    assert(forall|k: int| 0 <= k < f ==> !pending(#[trigger] self.users@[k], state@));
                    if f < i as int {
                        assert(!pending(self.users@[f], state@));
                    }
                    if f > i as int {
                        assert(!pending(self.users@[i as int], state@));
                    }
                }
                return Some(i);
            }
            i = i + 1;
        }
        None
    }

    /// Clears every attempt with this state.
    fn clear_attempts(&mut self, state: &str)
        requires
            old(self).wf(),
        ensures
            final(self).wf(),
            same_keys(*old(self), *final(self)),
            final(self).user_circles@ == old(self).user_circles@,
            cleared_attempts(*old(self), *final(self), state@),
    {
        let ghost orig = *self;
        let n = self.users.len();
        let mut i: usize = 0;
        while i < n
            invariant
                orig.wf(),
                n == orig.users@.len(),
                i <= n,
                same_keys(orig, *self),
                self.user_circles@ == orig.user_circles@,
                forall|k: int|
                    0 <= k < n ==> {
                        let o = orig.users@[k];
                        let m = #[trigger] self.users@[k];
                        &&& same_profile(m, o)
                        &&& opt_view(m.twitter_id) == opt_view(o.twitter_id)
                        &&& if k < i && pending(o, state@) {
                            m.oauth_state is None && m.code_verifier is None
                        } else {
                            opt_view(m.oauth_state) == opt_view(o.oauth_state) && opt_view(m.code_verifier) == opt_view(
                                o.code_verifier,
                            )
                        }
                    },
            decreases n - i,
        {
            let hit = match &self.users[i].oauth_state {
                Some(s) => ct_eq(s.as_str(), state),
                None => false,
            };
            if hit {
                let mut u = copy_user(&self.users[i]);
                u.oauth_state = None;
                u.code_verifier = None;
                u.oauth_expires = None;
                self.users.set(i, u);
            }
            i = i + 1;
        }
        proof {
            lemma_same_keys_wf(orig, *self);
        }
    }

    /// Whether the edge is stored.
    pub fn has_edge(&self, e: UserCircle) -> (r: bool)
        ensures
            r == self.user_circles@.contains(e),
    {
        let mut i: usize = 0;
        while i < self.user_circles.len()
            invariant
                i <= self.user_circles@.len(),
                forall|k: int| 0 <= k < i ==> self.user_circles@[k] != e,
            decreases self.user_circles@.len() - i,
        {
            if self.user_circles[i] == e {
                return true;
            }
            i = i + 1;
        }
        false
    }

    /// Finishes linking for identity `user_id` with the provider's answer:
    /// the external handle, or `None` when the exchange failed. Each circle
    /// whose declared account URL names the handle gains an ownership edge
    /// (none is added twice) and the handle is stored on the identity.
    pub fn complete_link(&mut self, user_id: i32, profile: Option<String>, declared: &Vec<DeclaredAccount>) -> (r: Result<(), AuthError>)
        requires
            old(self).wf(),
        ensures
            final(self).wf(),
            profile is None ==> r == Err::<(), AuthError>(AuthError::ProviderUnavailable) && *final(self) == *old(self),
            profile is Some && old(self).user_index(user_id) is None ==> r == Err::<(), AuthError>(AuthError::NotFound)
                && *final(self) == *old(self),
            profile is Some && old(self).user_index(user_id) is Some ==> {
                let name = profile->0@;
                let j = old(self).user_index(user_id)->0;
                let n = final(self).users@[j];
                let before = old(self).user_circles@;
                let after = final(self).user_circles@;
                &&& r is Ok
                &&& same_keys(*old(self), *final(self))
                &&& final(self).users@ == old(self).users@.update(j, n)
                &&& same_profile(n, old(self).users@[j])
                &&& opt_view(n.twitter_id) == Some(name)
                &&& opt_view(n.oauth_state) == opt_view(old(self).users@[j].oauth_state)
                &&& opt_view(n.code_verifier) == opt_view(old(self).users@[j].code_verifier)
                &&& after.subrange(0, before.len() as int) == before
                &&& forall|k: int|
                    before.len() <= k < after.len() ==> {
                        &&& !before.contains(#[trigger] after[k])
                        &&& after[k].user_id == user_id
                        &&& linked(declared@, name, after[k].circle_id)
                    }
                &&& forall|k1: int, k2: int|
                    before.len() <= k1 < after.len() && before.len() <= k2 < after.len() && k1 != k2
                        ==> #[trigger] after[k1] != #[trigger] after[k2]
                &&& forall|c: i32| linked(declared@, name, c) ==> after.contains(UserCircle { user_id, circle_id: c })
            },
    {
        let name = match profile {
            Some(name) => name,
            None => return Err(AuthError::ProviderUnavailable),
        };
        let j = match self.find_user_by_id(user_id) {
            Some(j) => j,
            None => return Err(AuthError::NotFound),
        };
        let ghost orig = *self;
        let ghost before = self.user_circles@;
        let mut i: usize = 0;
        while i < declared.len()
            invariant
                orig.wf(),
                same_keys(orig, *self),
                self.users@ == orig.users@,
                i <= declared@.len(),
                self.user_circles@.len() >= before.len(),
                self.user_circles@.subrange(0, before.len() as int) == before,
                forall|k: int|
                    before.len() <= k < self.user_circles@.len() ==> {
                        &&& !before.contains(#[trigger] self.user_circles@[k])
                        &&& self.user_circles@[k].user_id == user_id
                        &&& linked(declared@, name@, self.user_circles@[k].circle_id)
                    },
                forall|k1: int, k2: int|
                    before.len() <= k1 < self.user_circles@.len() && before.len() <= k2 < self.user_circles@.len() && k1 != k2
                        ==> #[trigger] self.user_circles@[k1] != #[trigger] self.user_circles@[k2],
                forall|i2: int|
                    0 <= i2 < i && declared@[i2].account_url is Some && is_profile_url(declared@[i2].account_url->0@, name@)
                        ==> self.user_circles@.contains(UserCircle { user_id, circle_id: (#[trigger] declared@[i2]).circle_id }),
            decreases declared@.len() - i,
        {
            let d = &declared[i];
            let hit = match &d.account_url {
                Some(url) => matches_profile(url.as_str(), name.as_str()),
                None => false,
            };
            if hit {
                let e = UserCircle { user_id, circle_id: d.circle_id };
                assert(links_at(declared@, name@, i as int, d.circle_id));
                if !self.has_edge(e) {
                    let ghost prev = self.user_circles@;
                    self.user_circles.push(e);
                    proof {
                        let cur = self.user_circles@;
                        assert(cur.subrange(0, before.len() as int) =~= prev.subrange(0, before.len() as int));
                        assert forall|k: int| 0 <= k < prev.len() implies cur[k] == prev[k] by {}
                        assert(!before.contains(e)) by {
                            if before.contains(e) {
                                let m = choose|m: int| 0 <= m < before.len() && before[m] == e;
                                assert(prev[m] == e);
                            }
                        }
                        assert forall|k1: int, k2: int|
                            before.len() <= k1 < cur.len() && before.len() <= k2 < cur.len() && k1 != k2
                                implies #[trigger] cur[k1] != #[trigger] cur[k2] by {
                            if k1 == prev.len() {
                                assert(prev[k2] != e);
                            } else if k2 == prev.len() {
                                assert(prev[k1] != e);
                            } else {
                                assert(prev[k1] != prev[k2]);
                            }
                        }
                        assert forall|i2: int|
                            0 <= i2 < i + 1 && declared@[i2].account_url is Some && is_profile_url(declared@[i2].account_url->0@, name@)
                                implies cur.contains(UserCircle { user_id, circle_id: (#[trigger] declared@[i2]).circle_id }) by {
                            if i2 < i {
                                let w = UserCircle { user_id, circle_id: declared@[i2].circle_id };
                                let m = choose|m: int| 0 <= m < prev.len() && prev[m] == w;
                                assert(cur[m] == w);
                            } else {
                                assert(cur[prev.len() as int] == e);
                            }
                        }
                    }
                }
            }
            i = i + 1;
        }
        let mut u = copy_user(&self.users[j]);
        u.twitter_id = Some(name);
        let ghost mid = *self;
        self.users.set(j, u);
        proof {
            lemma_same_keys_wf(orig, *self);
            let after = self.user_circles@;
            assert forall|c: i32| linked(declared@, name@, c) implies after.contains(UserCircle { user_id, circle_id: c }) by {
                let w = choose|w: int| 0 <= w < declared@.len() && #[trigger] links_at(declared@, name@, w, c);
                assert(declared@[w].circle_id == c);
            }
        }
        Ok(())
    }
}

/// Once `take_link_attempt(state)` has run, whatever it returned, a second
/// attempt to consume the same state fails with `InvalidRequest`, at any time.
pub proof fn lemma_state_single_use(before: AuthStore, after: AuthStore, state: Seq<char>, now: int)
    requires
        cleared_attempts(before, after, state),
    ensures
        after.take_outcome(state, now) == Err::<(i32, Seq<char>), AuthError>(AuthError::InvalidRequest),
{
    assert forall|k: int| 0 <= k < after.users@.len() implies !pending(#[trigger] after.users@[k], state) by {
        let o = before.users@[k];
        let n = after.users@[k];
        assert(same_profile(n, o));
    }
}

} // verus!
