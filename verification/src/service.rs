//! One service of a proxy instance at run time: what it was created with and
//! the users that may use it.

use vstd::prelude::*;
use vstd::utf8::encode_utf8;
use crate::codec::{codec_limit, encode_text, encoded_text};
use crate::error::UserError;
use crate::model::{CreateService, Service, Timestamp};
use crate::strmap::{StringMap, StringSet};
use crate::text::concat3;

verus! {

/// The credentials of a user: the base64 text of `username:password`.
pub open spec fn credentials_of(username: Seq<char>, password: Seq<char>) -> Seq<char> {
    encoded_text(username + seq![':'] + password)
}

/// A user of a service.
#[derive(Clone, Debug)]
pub struct ProxyUser {
    pub created_at: Timestamp,
    pub username: String,
    pub credentials: String,
}

impl ProxyUser {
    /// The credentials of the user.
    pub open spec fn token(self) -> Seq<char> {
        self.credentials@
    }

    /// Whether the credentials are those of the user's name and some password.
    pub open spec fn has_password(self) -> bool {
        exists|password: Seq<char>| self.token() == credentials_of(self.username@, password)
    }

    /// The credentials of the user.
    pub fn credentials(&self) -> (r: &str)
        ensures
            r@ == self.token(),
    {
        self.credentials.as_str()
    }

    /// A copy of this user.
    pub fn duplicate(&self) -> (r: Self)
        ensures
            r == *self,
    {
        ProxyUser {
            created_at: self.created_at,
            username: self.username.clone(),
            credentials: self.credentials.clone(),
        }
    }
}

/// A running service.
pub struct ProxyService {
    created_at: Timestamp,
    created_with: CreateService,
    access: StringSet,
    users: StringMap<ProxyUser>,
}

impl ProxyService {
    /// When the service was created.
    pub closed spec fn created(self) -> Timestamp {
        self.created_at
    }

    /// What the service was created with.
    pub closed spec fn descriptor(self) -> CreateService {
        self.created_with
    }

    /// When the service was created.
    pub fn created_at(&self) -> (r: Timestamp)
        ensures
            r == self.created(),
    {
        self.created_at
    }

    /// What the service was created with.
    pub fn created_with(&self) -> (r: &CreateService)
        ensures
            *r == self.descriptor(),
    {
        &self.created_with
    }

    /// The credentials that open the service.
    pub closed spec fn access(self) -> Set<Seq<char>> {
        self.access@
    }

    /// The users of the service, by name.
    pub closed spec fn users(self) -> Map<Seq<char>, ProxyUser> {
        self.users@
    }

    /// The names of the users, in the order in which they were added.
    pub closed spec fn user_names(self) -> Seq<Seq<char>> {
        self.users.keys()
    }

    /// Well-formedness: each user is stored under its name, with the
    /// credentials of that name and some password, and every credential that
    /// opens the service is the credential of one of its users.
    pub closed spec fn wf(self) -> bool {
        &&& self.access.wf()
        &&& self.users.wf()
        &&& forall|k: Seq<char>| #[trigger]
            self.users@.contains_key(k) ==> self.users@[k].username@ == k
                && self.users@[k].has_password()
        &&& forall|c: Seq<char>| #[trigger]
            self.access@.contains(c) ==> exists|k: Seq<char>| #[trigger]
                self.users@.contains_key(k) && self.users@[k].token() == c
    }

    /// Every user's credentials are the base64 text of the user's name, a
    /// colon and a password.
    pub proof fn lemma_credentials(self, username: Seq<char>)
        requires
            self.wf(),
            self.users().contains_key(username),
        ensures
            self.users()[username].username@ == username,
            exists|password: Seq<char>|
                self.users()[username].token() == credentials_of(username, password),
    {
        let u = self.users()[username];
        assert(u.has_password());
        let password = choose|password: Seq<char>| u.token() == credentials_of(
            u.username@,
            password,
        );
        assert(u.token() == credentials_of(username, password));
    }

    /// Every credential that opens the service belongs to one of its users.
    pub proof fn lemma_access(self, token: Seq<char>)
        requires
            self.wf(),
            self.access().contains(token),
        ensures
            exists|k: Seq<char>| #[trigger]
                self.users().contains_key(k) && self.users()[k].token() == token,
    {
        assert(self.access@.contains(token));
        let k = choose|k: Seq<char>| #[trigger]
            self.users@.contains_key(k) && self.users@[k].token() == token;
        assert(self.users().contains_key(k) && self.users()[k].token() == token);
    }

    /// A service created with `create` at `now`, without users.
    pub fn new_at(create: CreateService, now: Timestamp) -> (s: Self)
        ensures
            s.wf(),
            s.created() == now,
            s.descriptor() == create,
            s.access() == Set::<Seq<char>>::empty(),
            s.users() == Map::<Seq<char>, ProxyUser>::empty(),
            s.user_names() == Seq::<Seq<char>>::empty(),
    {
        ProxyService {
            created_at: now,
            created_with: create,
            access: StringSet::new(),
            users: StringMap::new(),
        }
    }

    /// A service created with `create` now, without users.
    pub fn new(create: CreateService) -> (s: Self)
        ensures
            s.wf(),
            s.descriptor() == create,
            s.access() == Set::<Seq<char>>::empty(),
            s.users() == Map::<Seq<char>, ProxyUser>::empty(),
    {
        ProxyService::new_at(create, Timestamp::now())
    }

    /// Whether `token` opens the service.
    pub fn authorizes(&self, token: &str) -> (r: bool)
        requires
            self.wf(),
        ensures
            r == self.access().contains(token@),
    {
        self.access.contains(token)
    }

    /// The users of the service, in the order in which they were added.
    pub fn get_users(&self) -> (r: Vec<ProxyUser>)
        requires
            self.wf(),
        ensures
            r@.len() == self.user_names().len(),
            forall|i: int|
                0 <= i < r@.len() ==> self.users().contains_key(#[trigger] self.user_names()[i])
                    && r@[i] == self.users()[self.user_names()[i]],
    {
        let mut r: Vec<ProxyUser> = Vec::new();
        let n = self.users.len();
        let mut i: usize = 0;
        while i < n
            invariant
                i <= n,
                n == self.users.keys().len(),
                self.users.wf(),
                r@.len() == i,
                forall|j: int|
                    0 <= j < i ==> self.users@.contains_key(#[trigger] self.users.keys()[j])
                        && r@[j] == self.users@[self.users.keys()[j]],
            decreases n - i,
        {
            proof {
                self.users.lemma_shape();
                self.users.lemma_index(i as int);
            }
            r.push(self.users.value_at(i).duplicate());
            i += 1;
        }
        r
    }

    /// The user called `username`.
    pub fn get_user(&self, username: &str) -> (r: Result<ProxyUser, UserError>)
        requires
            self.wf(),
        ensures
            match r {
                Ok(u) => self.users().contains_key(username@) && u == self.users()[username@],
                Err(e) => {
                    &&& !self.users().contains_key(username@)
                    &&& e matches UserError::NotFound(n) && n@ == username@
                },
            },
    {
        match self.users.get(username) {
            Some(u) => Ok(u.duplicate()),
            None => Err(UserError::NotFound(username.to_owned())),
        }
    }

    /// Adds a user created at `now`. A name that is taken is refused and
    /// nothing changes.
    pub fn add_user_at(&mut self, username: &str, password: &str, now: Timestamp) -> (r: Result<
        ProxyUser,
        UserError,
    >)
        requires
            old(self).wf(),
            encode_utf8(username@ + seq![':'] + password@).len() <= codec_limit(),
        ensures
            final(self).wf(),
            final(self).created() == old(self).created(),
            final(self).descriptor() == old(self).descriptor(),
            match r {
                Ok(u) => {
                    &&& !old(self).users().contains_key(username@)
                    &&& u.username@ == username@
                    &&& u.created_at == now
                    &&& u.token() == credentials_of(username@, password@)
                    &&& final(self).users() == old(self).users().insert(username@, u)
                    &&& final(self).user_names() == old(self).user_names().push(username@)
                    &&& final(self).access() == old(self).access().insert(u.token())
                },
                Err(e) => {
                    &&& old(self).users().contains_key(username@)
                    &&& e matches UserError::AlreadyExists(n) && n@ == username@
                    &&& *final(self) == *old(self)
                    &&& final(self).users() == old(self).users()
                    &&& final(self).user_names() == old(self).user_names()
                    &&& final(self).access() == old(self).access()
                },
            },
    {
        if self.users.contains_key(username) {
            return Err(UserError::AlreadyExists(username.to_owned()));
        }
        proof {
            reveal_strlit(":");
            assert(":"@ =~= seq![':']);
        }
        let plain = concat3(username, ":", password);
        let credentials = encode_text(plain.as_str());
        let user = ProxyUser {
            created_at: now,
            username: username.to_owned(),
            credentials: credentials.clone(),
        };
        let ghost before = *self;
        self.access.insert(credentials);
        self.users.insert(username.to_owned(), user.duplicate());
        proof {
            assert(user.token() == credentials_of(user.username@, password@));
            assert(user.has_password());
            assert forall|c: Seq<char>| #[trigger] self.access@.contains(c) implies exists|
                k: Seq<char>,
            | #[trigger] self.users@.contains_key(k) && self.users@[k].token() == c by {
                if c == user.token() {
                    assert(self.users@.contains_key(username@) && self.users@[username@].token()
                        == c);
                } else {
                    assert(before.access@.contains(c));
                    let k = choose|k: Seq<char>| #[trigger]
                        before.users@.contains_key(k) && before.users@[k].token() == c;
                    assert(self.users@.contains_key(k) && self.users@[k].token() == c);
                }
            }
        }
        Ok(user)
    }

    /// Adds a user created now.
    pub fn add_user(&mut self, username: &str, password: &str) -> (r: Result<ProxyUser, UserError>)
        requires
            old(self).wf(),
            encode_utf8(username@ + seq![':'] + password@).len() <= codec_limit(),
        ensures
            final(self).wf(),
            final(self).created() == old(self).created(),
            final(self).descriptor() == old(self).descriptor(),
            match r {
                Ok(u) => {
                    &&& !old(self).users().contains_key(username@)
                    &&& u.username@ == username@
                    &&& u.token() == credentials_of(username@, password@)
                    &&& final(self).users() == old(self).users().insert(username@, u)
                    &&& final(self).user_names() == old(self).user_names().push(username@)
                    &&& final(self).access() == old(self).access().insert(u.token())
                },
                Err(e) => {
                    &&& old(self).users().contains_key(username@)
                    &&& e matches UserError::AlreadyExists(n) && n@ == username@
                    &&& *final(self) == *old(self)
                    &&& final(self).users() == old(self).users()
                    &&& final(self).user_names() == old(self).user_names()
                    &&& final(self).access() == old(self).access()
                },
            },
    {
        self.add_user_at(username, password, Timestamp::now())
    }

    /// Removes a user, and with it the credentials that it had.
    pub fn remove_user(&mut self, username: &str) -> (r: Result<(), UserError>)
        requires
            old(self).wf(),
        ensures
            final(self).wf(),
            final(self).created() == old(self).created(),
            final(self).descriptor() == old(self).descriptor(),
            match r {
                Ok(_) => {
                    &&& old(self).users().contains_key(username@)
                    &&& final(self).users() == old(self).users().remove(username@)
                    &&& final(self).access() == old(self).access().remove(
                        old(self).users()[username@].token(),
                    )
                },
                Err(e) => {
                    &&& !old(self).users().contains_key(username@)
                    &&& e matches UserError::NotFound(n) && n@ == username@
                    &&& *final(self) == *old(self)
                    &&& final(self).users() == old(self).users()
                    &&& final(self).user_names() == old(self).user_names()
                    &&& final(self).access() == old(self).access()
                },
            },
    {
        let ghost before = *self;
        match self.users.remove(username) {
            Some(user) => {
                self.access.remove(user.credentials.as_str());
                proof {
                    assert forall|c: Seq<char>| #[trigger] self.access@.contains(c) implies exists|
                        k: Seq<char>,
                    | #[trigger] self.users@.contains_key(k) && self.users@[k].token() == c by {
                        assert(before.access@.contains(c));
                        let k = choose|k: Seq<char>| #[trigger]
                            before.users@.contains_key(k) && before.users@[k].token() == c;
                        assert(k != username@);
                        assert(self.users@.contains_key(k) && self.users@[k].token() == c);
                    }
                }
                Ok(())
            },
            None => Err(UserError::NotFound(username.to_owned())),
        }
    }

    /// The descriptor of the service.
    pub fn to_service(&self) -> (r: Service)
        ensures
            r.created_at == self.created(),
            self.descriptor().same(r.inner),
    {
        Service { inner: self.created_with.duplicate(), created_at: self.created_at }
    }
}

} // verus!
