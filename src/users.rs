//! Local user accounts and their login sessions.

use vstd::prelude::*;
use crate::bytes::copy_bytes;
use crate::keyed::{find_key, key_rows, keys_unique, lemma_map_of_at, lemma_map_of_dom, lemma_map_of_update, map_of};

verus! {

/// The public identifier of a user.
#[derive(Clone, Debug, PartialEq, Eq, Hash, PartialOrd, Ord)]
pub struct Identity(pub Vec<u8>);

impl View for Identity {
    type V = Seq<u8>;

    open spec fn view(&self) -> Seq<u8> {
        self.0@
    }
}

/// A random authentication token.
pub type Token = String;

/// Proof of an authenticated session: the user and the session's token.
#[derive(Clone, Debug, PartialEq, Eq)]
pub struct UserAuth(pub Identity, pub Token);

/// The public information about a user.
#[derive(Clone, Debug, PartialEq, Eq)]
pub struct UserProfile {
    pub id: Identity,
}

/// A user known to this node.
#[derive(Clone, Debug, PartialEq, Eq)]
pub enum User {
    /// A user of this node, which can log in.
    Local(UserProfile),
    /// A user seen on the network.
    Remote(UserProfile),
}

/// The ways a user call can fail.
#[derive(Clone, Copy, Debug, PartialEq, Eq, Structural)]
pub enum QaulError {
    /// The password or session token does not match.
    NotAuthorised,
    /// No such user is known.
    UnknownUser,
}

/// What is kept for one user.
pub struct Account {
    local: bool,
    password: Option<String>,
    token: Option<String>,
}

/// What is kept for one user, as a value.
pub struct AccountView {
    /// whether the user is a user of this node
    pub local: bool,
    /// the password, set for local users
    pub password: Option<Seq<char>>,
    /// the token of the open session, if any
    pub token: Option<Seq<char>>,
}

/// The characters of a text, if there is one.
pub open spec fn text_view(s: Option<String>) -> Option<Seq<char>> {
    match s {
        Some(t) => Some(t@),
        None => None,
    }
}

impl View for Account {
    type V = AccountView;

    closed spec fn view(&self) -> AccountView {
        AccountView { local: self.local, password: text_view(self.password), token: text_view(self.token) }
    }
}

/// The user registry of a node.
pub struct Qaul {
    users: Vec<(Vec<u8>, Account)>,
}

impl View for Qaul {
    type V = Map<Seq<u8>, AccountView>;

    closed spec fn view(&self) -> Map<Seq<u8>, AccountView> {
        map_of(key_rows(self.users@)).map_values(|a: Account| a@)
    }
}

/// `user`'s session token is the open session of a known user.
pub open spec fn trusted(users: Map<Seq<u8>, AccountView>, user: UserAuth) -> bool {
    users.contains_key(user.0@) && users[user.0@].token == Some(user.1@)
}

/// A local account with password `pw` and session `token`.
pub open spec fn local_account(pw: Seq<char>, token: Seq<char>) -> AccountView {
    AccountView { local: true, password: Some(pw), token: Some(token) }
}

impl Qaul {
    pub closed spec fn wf(&self) -> bool {
        keys_unique(key_rows(self.users@))
    }

    /// A registry with no users.
    pub fn new() -> (r: Qaul)
        ensures
            r.wf(),
            r@ == Map::<Seq<u8>, AccountView>::empty(),
    {
        let r = Qaul { users: Vec::new() };
        assert(key_rows(r.users@) =~= Seq::<(Seq<u8>, Account)>::empty());
        assert(r@ =~= Map::<Seq<u8>, AccountView>::empty());
        r
    }

    /// Sets the account of `id`, replacing any earlier one.
    fn put(&mut self, id: &Vec<u8>, account: Account)
        requires
            old(self).wf(),
        ensures
            final(self).wf(),
            final(self)@ == old(self)@.insert(id@, account@),
    {
        let ghost before = key_rows(self.users@);
        let ghost acc = account;
        match find_key(&self.users, id) {
            Some(i) => {
                proof {
                    lemma_map_of_update(before, i as int, acc);
                }
                let key = copy_bytes(&self.users[i].0);
                self.users.set(i, (key, account));
                assert(key_rows(self.users@) =~= before.update(i as int, (before[i as int].0, acc)));
            },
            None => {
                proof {
                    lemma_map_of_dom(before, id@);
                }
                self.users.push((copy_bytes(id), account));
                assert(key_rows(self.users@) =~= before.push((id@, acc)));
                assert(key_rows(self.users@).drop_last() =~= before);
            },
        }
        assert(self@ =~= old(self)@.insert(id@, acc@));
    }

    /// The row of `id`, if known.
    fn find(&self, id: &Vec<u8>) -> (r: Option<usize>)
        requires
            self.wf(),
        ensures
            match r {
                Some(i) => i < self.users@.len() && self@.contains_key(id@) && self@[id@] == self.users@[i as int].1@,
                None => !self@.contains_key(id@),
            },
    {
        let r = find_key(&self.users, id);
        proof {
            match r {
                Some(i) => {
                    assert(key_rows(self.users@)[i as int].0 == id@);
                    lemma_map_of_at(key_rows(self.users@), i as int);
                },
                None => {},
            }
        }
        r
    }

    /// Adds or replaces a user.
    pub fn add_user(&mut self, user: User)
        requires
            old(self).wf(),
        ensures
            final(self).wf(),
            match user {
                User::Local(p) => final(self)@ == old(self)@.insert(
                    p.id@,
                    AccountView { local: true, password: Option::<Seq<char>>::None, token: Option::<Seq<char>>::None },
                ),
                User::Remote(p) => final(self)@ == old(self)@.insert(
                    p.id@,
                    AccountView { local: false, password: Option::<Seq<char>>::None, token: Option::<Seq<char>>::None },
                ),
            },
    {
        let (id, local) = match user {
            User::Local(p) => (p.id.0, true),
            User::Remote(p) => (p.id.0, false),
        };
        let account = Account { local, password: None, token: None };
        assert(account@.password == Option::<Seq<char>>::None);
        self.put(&id, account);
    }
}

/// The user endpoints of a node.
pub struct Users {
    q: Qaul,
}

impl View for Users {
    type V = Map<Seq<u8>, AccountView>;

    closed spec fn view(&self) -> Map<Seq<u8>, AccountView> {
        self.q@
    }
}

impl Users {
    pub closed spec fn wf(&self) -> bool {
        self.q.wf()
    }

    /// The user endpoints over the registry `q`.
    pub fn new(q: Qaul) -> (r: Users)
        requires
            q.wf(),
        ensures
            r.wf(),
            r@ == q@,
    {
        Users { q }
    }

    /// The registry these endpoints work on.
    pub fn drop(&self) -> (r: &Qaul)
        ensures
            r@ == self@,
    {
        &self.q
    }

    /// Every local user, once each.
    pub fn list(&self) -> (r: Vec<UserProfile>)
        requires
            self.wf(),
        ensures
            forall|i: int| 0 <= i < r@.len() ==> self@.contains_key((#[trigger] r@[i]).id@) && self@[r@[i].id@].local,
            forall|k: Seq<u8>| self@.contains_key(k) && self@[k].local ==> exists|i: int| 0 <= i < r@.len() && (#[trigger] r@[i]).id@ == k,
            forall|i: int, j: int| 0 <= i < r@.len() && 0 <= j < r@.len() && i != j
                ==> (#[trigger] r@[i]).id@ != (#[trigger] r@[j]).id@,
    {
        let ghost rows = key_rows(self.q.users@);
        let ghost src: Seq<int> = Seq::empty();
        let mut r: Vec<UserProfile> = Vec::new();
        let mut i: usize = 0;
        while i < self.q.users.len()
            invariant
                self.wf(),
                rows == key_rows(self.q.users@),
                0 <= i <= self.q.users@.len(),
                src.len() == r@.len(),
                forall|j: int| 0 <= j < src.len() ==> 0 <= #[trigger] src[j] < i && rows[src[j]].0 == r@[j].id@
                    && rows[src[j]].1.local,
                forall|j: int, l: int| 0 <= j < l < src.len() ==> #[trigger] src[j] < #[trigger] src[l],
                forall|a: int| 0 <= a < i && rows[a].1.local ==> exists|j: int| 0 <= j < src.len() && #[trigger] src[j] == a,
            decreases self.q.users@.len() - i,
        {
            if self.q.users[i].1.local {
                let id = copy_bytes(&self.q.users[i].0);
                r.push(UserProfile { id: Identity(id) });
                proof {
                    let old_src = src;
                    src = src.push(i as int);
                    assert forall|a: int| 0 <= a < i + 1 && rows[a].1.local implies exists|j: int| 0 <= j < src.len() && #[trigger] src[j] == a by {
                        if a == i {
                            assert(src[old_src.len() as int] == a);
                        } else {
                            let j = choose|j: int| 0 <= j < old_src.len() && #[trigger] old_src[j] == a;
                            assert(src[j] == a);
                        }
                    }
                }
            }
            i = i + 1;
        }
        assert forall|j: int, l: int| 0 <= j < r@.len() && 0 <= l < r@.len() && j != l
            implies (#[trigger] r@[j]).id@ != (#[trigger] r@[l]).id@ by {
            if j < l {
                assert(src[j] < src[l]);
            } else {
                assert(src[l] < src[j]);
            }
        }
        proof {
            assert forall|j: int| 0 <= j < r@.len() implies self@.contains_key((#[trigger] r@[j]).id@) && self@[r@[j].id@].local by {
                lemma_map_of_at(rows, src[j]);
            }
            assert forall|k: Seq<u8>| self@.contains_key(k) && self@[k].local implies exists|j: int| 0 <= j < r@.len() && (#[trigger] r@[j]).id@ == k by {
                lemma_map_of_dom(rows, k);
                let a = choose|a: int| 0 <= a < rows.len() && rows[a].0 == k;
                lemma_map_of_at(rows, a);
                let j = choose|j: int| 0 <= j < src.len() && #[trigger] src[j] == a;
                assert(r@[j].id@ == k);
            }
        }
        r
    }

    /// Creates a local user `id` with password `pw` and opens a session
    /// with `token` for it. The id and the token are drawn at random by the
    /// caller.
    pub fn create(&mut self, pw: &str, id: Identity, token: Token) -> (r: Result<UserAuth, QaulError>)
        requires
            old(self).wf(),
        ensures
            final(self).wf(),
            final(self)@ == old(self)@.insert(id@, local_account(pw@, token@)),
            r is Ok && r->Ok_0.0@ == id@ && r->Ok_0.1@ == token@,
    {
        let account = Account { local: true, password: Some(pw.to_owned()), token: Some(token.clone()) };
        self.q.put(&id.0, account);
        Ok(UserAuth(id, token))
    }

    /// Whether `user` holds the open session of a known user.
    fn check_session(&self, user: &UserAuth) -> (r: Option<usize>)
        requires
            self.wf(),
        ensures
            r is Some <==> trusted(self@, *user),
            match r {
                Some(i) => i < self.q.users@.len() && self@[user.0@] == self.q.users@[i as int].1@,
                None => true,
            },
    {
        match self.q.find(&user.0.0) {
            Some(i) => {
                let ok = match &self.q.users[i].1.token {
                    Some(t) => *t == user.1,
                    None => false,
                };
                if ok {
                    Some(i)
                } else {
                    None
                }
            },
            None => None,
        }
    }

    /// Sets a new password for the user of an open session.
    pub fn change_pw(&mut self, user: UserAuth, newpw: &str) -> (r: Result<(), QaulError>)
        requires
            old(self).wf(),
        ensures
            final(self).wf(),
            trusted(old(self)@, user) ==> r is Ok && final(self)@ == old(self)@.insert(
                user.0@,
                AccountView { password: Some(newpw@), ..old(self)@[user.0@] },
            ),
            !trusted(old(self)@, user) ==> r == Err::<(), QaulError>(QaulError::NotAuthorised) && final(self)@ == old(self)@,
    {
        match self.check_session(&user) {
            Some(i) => {
                let account = Account {
                    local: self.q.users[i].1.local,
                    password: Some(newpw.to_owned()),
                    token: Some(user.1),
                };
                self.q.put(&user.0.0, account);
                Ok(())
            },
            None => Err(QaulError::NotAuthorised),
        }
    }

    /// Opens a session for local user `user` with password `pw`. An open
    /// session is reused; else one is opened with the caller's random
    /// `token`.
    pub fn login(&mut self, user: Identity, pw: &str, token: Token) -> (r: Result<UserAuth, QaulError>)
        requires
            old(self).wf(),
        ensures
            final(self).wf(),
            !old(self)@.contains_key(user@) || old(self)@[user@].password is None ==> r == Err::<UserAuth, QaulError>(
                QaulError::UnknownUser,
            ) && final(self)@ == old(self)@,
            old(self)@.contains_key(user@) && old(self)@[user@].password is Some && old(self)@[user@].password
                != Some(pw@) ==> r == Err::<UserAuth, QaulError>(QaulError::NotAuthorised) && final(self)@ == old(self)@,
            old(self)@.contains_key(user@) && old(self)@[user@].password == Some(pw@) ==> r is Ok && r->Ok_0.0@ == user@
                && match old(self)@[user@].token {
                Some(t) => r->Ok_0.1@ == t && final(self)@ == old(self)@,
                None => r->Ok_0.1@ == token@ && final(self)@ == old(self)@.insert(
                    user@,
                    AccountView { token: Some(token@), ..old(self)@[user@] },
                ),
            },
    {
        let i = match self.q.find(&user.0) {
            Some(i) => i,
            None => return Err(QaulError::UnknownUser),
        };
        let matches = match &self.q.users[i].1.password {
            Some(p) => {
                let given = pw.to_owned();
                *p == given
            },
            None => return Err(QaulError::UnknownUser),
        };
        if !matches {
            return Err(QaulError::NotAuthorised);
        }
        match &self.q.users[i].1.token {
            Some(t) => {
                let existing = t.clone();
                Ok(UserAuth(user, existing))
            },
            None => {
                let account = Account {
                    local: self.q.users[i].1.local,
                    password: Some(pw.to_owned()),
                    token: Some(token.clone()),
                };
                self.q.put(&user.0, account);
                Ok(UserAuth(user, token))
            },
        }
    }

    /// Closes the session that `user` holds.
    pub fn logout(&mut self, user: UserAuth) -> (r: Result<(), QaulError>)
        requires
            old(self).wf(),
        ensures
            final(self).wf(),
            trusted(old(self)@, user) ==> r is Ok && final(self)@ == old(self)@.insert(
                user.0@,
                AccountView { token: Option::<Seq<char>>::None, ..old(self)@[user.0@] },
            ),
            !trusted(old(self)@, user) ==> r == Err::<(), QaulError>(QaulError::NotAuthorised) && final(self)@ == old(self)@,
    {
        match self.check_session(&user) {
            Some(i) => {
                let password = match &self.q.users[i].1.password {
                    Some(p) => Some(p.clone()),
                    None => None,
                };
                let account = Account { local: self.q.users[i].1.local, password, token: None };
                self.q.put(&user.0.0, account);
                Ok(())
            },
            None => Err(QaulError::NotAuthorised),
        }
    }

    /// The profile of a known user, local or remote.
    pub fn get(&self, user: Identity) -> (r: Result<UserProfile, QaulError>)
        requires
            self.wf(),
        ensures
            self@.contains_key(user@) ==> r is Ok && r->Ok_0.id@ == user@,
            !self@.contains_key(user@) ==> r == Err::<UserProfile, QaulError>(QaulError::UnknownUser),
    {
        match self.q.find(&user.0) {
            Some(_) => Ok(UserProfile { id: user }),
            None => Err(QaulError::UnknownUser),
        }
    }
}

} // verus!
