//! The users that may sign in, with their passwords kept as argon2 hashes.
use argon2::password_hash::PasswordHasher;
use argon2::password_hash::PasswordVerifier;
use vstd::prelude::*;

use crate::config::{Config, User};
use crate::text::{str_eq, string_of, to_chars};

verus! {

/// The error type of the `password-hash` crate.
#[verifier::external_type_specification]
#[verifier::external_body]
pub struct ExPasswordHashError(argon2::password_hash::Error);

/// `hash` is an argon2 hash in PHC string form that `password` verifies
/// against (`PasswordHash::new` parses it and `Argon2::verify_password`
/// accepts the password).
pub uninterp spec fn password_matches(password: Seq<char>, hash: Seq<char>) -> bool;

/// Hashes `password` with `Argon2::default()` and a fresh random salt
/// (`SaltString::generate` with `OsRng`), giving the PHC string. The salt
/// makes the hash differ from call to call; what holds of every hash made is
/// that the password verifies against it, since verifying recomputes the
/// hash with the salt and parameters that the string carries. An error of
/// the hasher is handed back.
#[verifier::external_body]
fn hash_password(password: &str) -> (r: Result<String, argon2::password_hash::Error>)
    ensures
        r matches Ok(h) ==> password_matches(password@, h@),
{
    let salt = argon2::password_hash::SaltString::generate(
        &mut argon2::password_hash::rand_core::OsRng,
    );
    argon2::Argon2::default().hash_password(password.as_bytes(), &salt).map(|h| h.to_string())
}

/// Parses `hash` with `PasswordHash::new` and checks `password` against it
/// with `Argon2::default().verify_password`; a hash that does not parse
/// accepts no password. The result is named `password_matches` of the two
/// texts.
#[verifier::external_body]
fn verify_password(password: &str, hash: &str) -> (r: bool)
    ensures
        r == password_matches(password@, hash@),
{
    match argon2::password_hash::PasswordHash::new(hash) {
        Ok(parsed) => argon2::Argon2::default().verify_password(password.as_bytes(), &parsed).is_ok(),
        Err(_) => false,
    }
}

/// The usernames of the entries.
pub open spec fn names(entries: Seq<(String, String)>) -> Seq<Seq<char>> {
    entries.map_values(|e: (String, String)| e.0@)
}

/// The position of the entry for `name`, if any.
pub open spec fn position_of(entries: Seq<(String, String)>, name: Seq<char>) -> Option<int> {
    if exists|i: int| 0 <= i < entries.len() && entries[i].0@ == name {
        Some(choose|i: int| 0 <= i < entries.len() && entries[i].0@ == name)
    } else {
        None
    }
}

/// The users that may sign in: each username once, with its password hash.
pub struct UserStore {
    users: Vec<(String, String)>,
}

impl UserStore {
    /// Each username occurs once.
    pub closed spec fn wf(&self) -> bool {
        forall|i: int, j: int|
            0 <= i < self.users@.len() && 0 <= j < self.users@.len() && i != j ==> self.users@[i].0@
                != self.users@[j].0@
    }

    /// The store as a map from username to hash.
    pub closed spec fn hashes(&self) -> Map<Seq<char>, Seq<char>> {
        Map::new(
            |n: Seq<char>| exists|i: int| 0 <= i < self.users@.len() && self.users@[i].0@ == n,
            |n: Seq<char>|
                self.users@[choose|i: int| 0 <= i < self.users@.len() && self.users@[i].0@ == n].1@,
        )
    }

    /// An empty store.
    fn empty() -> (r: UserStore)
        ensures
            r.wf(),
            r.hashes() == Map::<Seq<char>, Seq<char>>::empty(),
    {
        let r = UserStore { users: Vec::new() };
        assert(r.hashes() =~= Map::<Seq<char>, Seq<char>>::empty());
        r
    }

    /// The hash at a position is the hash of its user.
    proof fn lemma_hash_at(&self, k: int)
        requires
            self.wf(),
            0 <= k < self.users@.len(),
        ensures
            self.hashes().dom().contains(self.users@[k].0@),
            self.hashes()[self.users@[k].0@] == self.users@[k].1@,
    {
        let n = self.users@[k].0@;
        assert(self.users@[k].0@ == n);
        let c = choose|i: int| 0 <= i < self.users@.len() && self.users@[i].0@ == n;
        if c != k {
            assert(self.users@[c].0@ != self.users@[k].0@);
        }
    }

    /// Sets the hash of a user, replacing the one it had.
    fn insert(&mut self, name: String, hash: String)
        requires
            old(self).wf(),
        ensures
            final(self).wf(),
            final(self).hashes() == old(self).hashes().insert(name@, hash@),
    {
        let ghost before = *self;
        let ghost n0 = name@;
        let ghost h0 = hash@;
        let mut i: usize = 0;
        while i < self.users.len()
            invariant
                0 <= i <= self.users@.len(),
                *self == before,
                before == *old(self),
                before.wf(),
                n0 == name@,
                h0 == hash@,
                forall|j: int| 0 <= j < i ==> self.users@[j].0@ != name@,
            decreases self.users@.len() - i,
        {
            if str_eq(self.users[i].0.as_str(), name.as_str()) {
                self.users.set(i, (name, hash));
                proof {
                    let k = i as int;
                    assert forall|a: int, b: int|
                        0 <= a < self.users@.len() && 0 <= b < self.users@.len() && a != b
                            implies self.users@[a].0@ != self.users@[b].0@ by {
                        assert(before.users@[a].0@ != before.users@[b].0@);
                    }
                    assert forall|n: Seq<char>| #[trigger] self.hashes().dom().contains(n) <==> before.hashes().insert(n0, h0).dom().contains(n) by {
                        if n == n0 {
                            assert(self.users@[k].0@ == n);
                        } else if before.hashes().dom().contains(n) {
                            let q = choose|q: int| 0 <= q < before.users@.len() && before.users@[q].0@ == n;
                            assert(self.users@[q].0@ == n);
                        } else if self.hashes().dom().contains(n) {
                            let q = choose|q: int| 0 <= q < self.users@.len() && self.users@[q].0@ == n;
                            assert(before.users@[q].0@ == n);
                        }
                    }
                    assert forall|n: Seq<char>| #[trigger] self.hashes().dom().contains(n) implies self.hashes()[n] == before.hashes().insert(n0, h0)[n] by {
                        let q = choose|q: int| 0 <= q < self.users@.len() && self.users@[q].0@ == n;
                        self.lemma_hash_at(q);
                        if q != k {
                            before.lemma_hash_at(q);
                        }
                    }
                    assert(self.hashes() =~= before.hashes().insert(n0, h0));
                }
                return;
            }
            i = i + 1;
        }
        self.users.push((name, hash));
        proof {
            let last = (self.users@.len() - 1) as int;
            assert forall|a: int, b: int|
                0 <= a < self.users@.len() && 0 <= b < self.users@.len() && a != b
                    implies self.users@[a].0@ != self.users@[b].0@ by {
                if a != last && b != last {
                    assert(before.users@[a].0@ != before.users@[b].0@);
                }
            }
            assert forall|n: Seq<char>| #[trigger] self.hashes().dom().contains(n) <==> before.hashes().insert(n0, h0).dom().contains(n) by {
                if n == n0 {
                    assert(self.users@[last].0@ == n);
                } else if before.hashes().dom().contains(n) {
                    let q = choose|q: int| 0 <= q < before.users@.len() && before.users@[q].0@ == n;
                    assert(self.users@[q].0@ == n);
                } else if self.hashes().dom().contains(n) {
                    let q = choose|q: int| 0 <= q < self.users@.len() && self.users@[q].0@ == n;
                    assert(before.users@[q].0@ == n);
                }
            }
            assert forall|n: Seq<char>| #[trigger] self.hashes().dom().contains(n) implies self.hashes()[n] == before.hashes().insert(n0, h0)[n] by {
                let q = choose|q: int| 0 <= q < self.users@.len() && self.users@[q].0@ == n;
                self.lemma_hash_at(q);
                if q != last {
                    before.lemma_hash_at(q);
                }
            }
            assert(self.hashes() =~= before.hashes().insert(n0, h0));
        }
    }

    /// A store of the users, each password hashed; a later user of the same
    /// name replaces an earlier one. Fails only with the hasher's error, so an
    /// empty list always gives the empty store.
    pub fn from_users(users: Vec<User>) -> (r: Result<UserStore, argon2::password_hash::Error>)
        ensures
            users@.len() == 0 ==> r is Ok,
            r matches Ok(store) ==> {
                &&& store.wf()
                &&& store.hashes().dom() == users@.map_values(|u: User| u.username@).to_set()
                &&& forall|i: int|
                    0 <= i < users@.len() && (forall|j: int|
                        i < j < users@.len() ==> users@[j].username@ != users@[i].username@)
                        ==> password_matches(
                        #[trigger] users@[i].password@,
                        store.hashes()[users@[i].username@],
                    )
            },
    {
        let mut store = UserStore::empty();
        let ghost names_of = users@.map_values(|u: User| u.username@);
        let mut i: usize = 0;
        while i < users.len()
            invariant
                0 <= i <= users@.len(),
                names_of == users@.map_values(|u: User| u.username@),
                store.wf(),
                store.hashes().dom() == names_of.take(i as int).to_set(),
                forall|k: int|
                    0 <= k < i && (forall|j: int|
                        k < j < i ==> users@[j].username@ != users@[k].username@) ==> password_matches(
                        #[trigger] users@[k].password@,
                        store.hashes()[users@[k].username@],
                    ),
            decreases users@.len() - i,
        {
            let u = &users[i];
            let h = match hash_password(u.password.as_str()) {
                Ok(h) => h,
                Err(e) => {
                    return Err(e);
                },
            };
            let name = string_of(to_chars(u.username.as_str()).as_slice());
            let ghost prev = store.hashes();
            store.insert(name, h);
            proof {
                let t1 = names_of.take(i + 1);
                let t0 = names_of.take(i as int);
                assert(t1 =~= t0.push(users@[i as int].username@));
                assert(t1.to_set() =~= t0.to_set().insert(users@[i as int].username@)) by {
                    assert forall|x: Seq<char>| #[trigger] t1.to_set().contains(x) <==> t0.to_set().insert(users@[i as int].username@).contains(x) by {
                        if t1.contains(x) {
                            let k = choose|k: int| 0 <= k < t1.len() && t1[k] == x;
                            if k < i {
                                assert(t0[k] == x);
                            }
                        }
                        if t0.contains(x) {
                            let k = choose|k: int| 0 <= k < t0.len() && t0[k] == x;
                            assert(t1[k] == x);
                        }
                        if x == users@[i as int].username@ {
                            assert(t1[i as int] == x);
                        }
                    }
                }
                assert forall|k: int|
                    0 <= k < i + 1 && (forall|j: int|
                        k < j < i + 1 ==> users@[j].username@ != users@[k].username@) implies password_matches(
                        #[trigger] users@[k].password@,
                        store.hashes()[users@[k].username@],
                    ) by {
                    if k < i {
                        assert(users@[i as int].username@ != users@[k].username@);
                    }
                }
            }
            i = i + 1;
        }
        assert(names_of.take(i as int) =~= names_of);
        Ok(store)
    }

    /// The user exists and the password verifies against the user's hash.
    pub fn verify(&self, username: &str, password: &str) -> (r: bool)
        requires
            self.wf(),
        ensures
            r == (self.hashes().dom().contains(username@) && password_matches(
                password@,
                self.hashes()[username@],
            )),
    {
        let mut i: usize = 0;
        while i < self.users.len()
            invariant
                0 <= i <= self.users@.len(),
                self.wf(),
                forall|j: int| 0 <= j < i ==> self.users@[j].0@ != username@,
            decreases self.users@.len() - i,
        {
            if str_eq(self.users[i].0.as_str(), username) {
                proof {
                    self.lemma_hash_at(i as int);
                }
                return verify_password(password, self.users[i].1.as_str());
            }
            i = i + 1;
        }
        false
    }

    /// Whether a user of that name exists.
    pub fn user_exists(&self, username: &str) -> (r: bool)
        requires
            self.wf(),
        ensures
            r == self.hashes().dom().contains(username@),
    {
        let mut i: usize = 0;
        while i < self.users.len()
            invariant
                0 <= i <= self.users@.len(),
                self.wf(),
                forall|j: int| 0 <= j < i ==> self.users@[j].0@ != username@,
            decreases self.users@.len() - i,
        {
            if str_eq(self.users[i].0.as_str(), username) {
                proof {
                    self.lemma_hash_at(i as int);
                }
                return true;
            }
            i = i + 1;
        }
        false
    }

    /// The number of users.
    pub fn user_count(&self) -> (r: usize)
        requires
            self.wf(),
        ensures
            r == self.hashes().dom().len(),
    {
        proof {
            self.lemma_count();
        }
        self.users.len()
    }

    proof fn lemma_count(&self)
        requires
            self.wf(),
        ensures
            self.hashes().dom().len() == self.users@.len(),
    {
        let ns = names(self.users@);
        assert(ns.no_duplicates()) by {
            assert forall|i: int, j: int| 0 <= i < ns.len() && 0 <= j < ns.len() && i != j implies ns[i] != ns[j] by {}
        }
        ns.unique_seq_to_set();
        assert(self.hashes().dom() =~= ns.to_set()) by {
            assert forall|n: Seq<char>| #[trigger] self.hashes().dom().contains(n) <==> ns.to_set().contains(n) by {
                if ns.contains(n) {
                    let k = choose|k: int| 0 <= k < ns.len() && ns[k] == n;
                    assert(self.users@[k].0@ == n);
                }
                if self.hashes().dom().contains(n) {
                    let k = choose|k: int| 0 <= k < self.users@.len() && self.users@[k].0@ == n;
                    assert(ns[k] == n);
                }
            }
        }
    }
}

/// A copy of the configured users.
fn copy_users(users: &Vec<User>) -> (r: Vec<User>)
    ensures
        r@.len() == users@.len(),
        forall|i: int|
            0 <= i < r@.len() ==> (#[trigger] r@[i]).username@ == users@[i].username@ && r@[i].password@
                == users@[i].password@,
{
    let mut r: Vec<User> = Vec::new();
    let mut i: usize = 0;
    while i < users.len()
        invariant
            0 <= i <= users@.len(),
            r@.len() == i,
            forall|k: int|
                0 <= k < i ==> (#[trigger] r@[k]).username@ == users@[k].username@ && r@[k].password@
                    == users@[k].password@,
        decreases users@.len() - i,
    {
        let u = User {
            username: string_of(to_chars(users[i].username.as_str()).as_slice()),
            password: string_of(to_chars(users[i].password.as_str()).as_slice()),
        };
        r.push(u);
        i = i + 1;
    }
    r
}

/// The store of the configured users when authentication is configured and
/// enabled; none otherwise. Each user's password verifies against the hash
/// stored for it (the last user of a name wins). Fails only with the
/// hasher's error, so an empty list of users always gives a store.
pub fn build_user_store(conf: &Config) -> (r: Result<Option<UserStore>, argon2::password_hash::Error>)
    ensures
        r matches Ok(None) <==> !(conf.authentication matches Some(a) && a.enabled),
        conf.authentication matches Some(a) && a.enabled && a.users@.len() == 0 ==> r matches Ok(
            Some(_),
        ),
        r matches Ok(Some(store)) ==> conf.authentication matches Some(a) && a.enabled && store.wf()
            && store.hashes().dom() == a.users@.map_values(|u: User| u.username@).to_set()
            && forall|i: int|
            0 <= i < a.users@.len() && (forall|j: int|
                i < j < a.users@.len() ==> a.users@[j].username@ != a.users@[i].username@)
                ==> password_matches(
                #[trigger] a.users@[i].password@,
                store.hashes()[a.users@[i].username@],
            ),
{
    match &conf.authentication {
        Some(auth) => {
            if auth.enabled {
                let users = copy_users(&auth.users);
                assert(users@.map_values(|u: User| u.username@) =~= auth.users@.map_values(
                    |u: User| u.username@,
                ));
                let ghost uv = users@;
                match UserStore::from_users(users) {
                    Ok(store) => {
                        assert forall|i: int|
                            0 <= i < auth.users@.len() && (forall|j: int|
                                i < j < auth.users@.len() ==> auth.users@[j].username@
                                    != auth.users@[i].username@) implies password_matches(
                            #[trigger] auth.users@[i].password@,
                            store.hashes()[auth.users@[i].username@],
                        ) by {
                            assert(uv[i].password@ == auth.users@[i].password@);
                            assert forall|j: int| i < j < uv.len() implies uv[j].username@
                                != uv[i].username@ by {
                                assert(uv[j].username@ == auth.users@[j].username@);
                            }
                        }
                        Ok(Some(store))
                    },
                    Err(e) => Err(e),
                }
            } else {
                Ok(None)
            }
        },
        None => Ok(None),
    }
}

/// The credentials a user signs in with.
#[derive(Clone, Debug, PartialEq)]
pub struct LoginRequest {
    pub username: String,
    pub password: String,
}

/// The answer to a successful sign-in.
#[derive(Clone, Debug, PartialEq)]
pub struct LoginResponse {
    pub success: bool,
    pub username: String,
}

/// Whether the session belongs to a signed-in user, and which.
#[derive(Clone, Debug, PartialEq)]
pub struct SessionInfo {
    pub authenticated: bool,
    pub username: Option<String>,
}

/// The status when authentication is not configured.
pub const SERVICE_UNAVAILABLE: u16 = 503;

/// The status when credentials or the session do not let a user in.
pub const UNAUTHORIZED: u16 = 401;

/// The answer to a sign-in: unavailable without a user store, the user (to
/// keep in the session) when the password verifies, unauthorized otherwise.
pub fn login(store: Option<&UserStore>, credentials: &LoginRequest) -> (r: Result<LoginResponse, u16>)
    requires
        store matches Some(s) ==> s.wf(),
    ensures
        match store {
            None => r == Err::<LoginResponse, u16>(SERVICE_UNAVAILABLE),
            Some(s) => {
                let ok = s.hashes().dom().contains(credentials.username@) && password_matches(
                    credentials.password@,
                    s.hashes()[credentials.username@],
                );
                &&& ok ==> (r matches Ok(resp) && resp.success && resp.username@ == credentials.username@)
                &&& !ok ==> r == Err::<LoginResponse, u16>(UNAUTHORIZED)
            },
        },
{
    match store {
        None => Err(SERVICE_UNAVAILABLE),
        Some(s) => {
            if s.verify(credentials.username.as_str(), credentials.password.as_str()) {
                Ok(
                    LoginResponse {
                        success: true,
                        username: string_of(to_chars(credentials.username.as_str()).as_slice()),
                    },
                )
            } else {
                Err(UNAUTHORIZED)
            }
        },
    }
}

/// What a session tells of its user.
pub fn check_session(username: Option<String>) -> (r: SessionInfo)
    ensures
        r.authenticated == username is Some,
        r.username == username,
{
    let authenticated = username.is_some();
    SessionInfo { authenticated, username }
}

/// Protected routes need a signed-in user.
pub fn require_auth(username: &Option<String>) -> (r: Result<(), u16>)
    ensures
        r is Ok <==> username is Some,
        r is Err ==> r == Err::<(), u16>(UNAUTHORIZED),
{
    match username {
        Some(_) => Ok(()),
        None => Err(UNAUTHORIZED),
    }
}

} // verus!
