use crate::error::Error;
use vstd::prelude::*;

verus! {

/// What str::to_lowercase produces: the Unicode lowercase mapping of the
/// input, a function of the characters alone.
pub uninterp spec fn lower_of(s: Seq<char>) -> Seq<char>;

/// Relies on str::to_lowercase for username normalization: registration and
/// lookup fold usernames through the same mapping, so uniqueness is
/// case-insensitive.
#[verifier::external_body]
pub fn to_lowercase(s: &String) -> (r: String)
    ensures
        r@ == lower_of(s@),
{
    s.to_lowercase()
}

/// The mathematical content of one stored account credential.
pub ghost struct DbUserView {
    pub user_id: u128,
    pub username: Seq<char>,
    pub password: Seq<char>,
    pub salt: Seq<u8>,
    pub created_at: i64,
    pub connected_at: i64,
}

/// One account credential record. `username` is stored normalized
/// (lowercase); `password` is the self-describing PHC hash string, never the
/// plaintext; `salt` is generated once at registration and used only for
/// secret-key derivation.
pub struct DbUser {
    pub user_id: u128,
    pub username: String,
    pub password: String,
    pub salt: [u8; 32],
    pub created_at: i64,
    pub connected_at: i64,
}

impl View for DbUser {
    type V = DbUserView;

    open spec fn view(&self) -> DbUserView {
        DbUserView {
            user_id: self.user_id,
            username: self.username@,
            password: self.password@,
            salt: self.salt@,
            created_at: self.created_at,
            connected_at: self.connected_at,
        }
    }
}

pub open spec fn users_wf(s: Seq<DbUserView>) -> bool {
    forall|i: int, j: int|
        0 <= i < j < s.len() ==> s[i].username != s[j].username && s[i].user_id != s[j].user_id
}

pub open spec fn has_username(s: Seq<DbUserView>, name: Seq<char>) -> bool {
    exists|i: int| 0 <= i < s.len() && s[i].username == name
}

pub open spec fn has_user_id(s: Seq<DbUserView>, user_id: u128) -> bool {
    exists|i: int| 0 <= i < s.len() && s[i].user_id == user_id
}

pub open spec fn username_index(s: Seq<DbUserView>, name: Seq<char>) -> int {
    choose|i: int| 0 <= i < s.len() && s[i].username == name
}

/// The record stored under a (normalized) username; meaningful when
/// `has_username` holds and the table is well formed.
pub open spec fn user_with_name(s: Seq<DbUserView>, name: Seq<char>) -> DbUserView {
    s[username_index(s, name)]
}

/// A record freshly registered under `name`: its creation and connection
/// timestamps agree.
pub open spec fn fresh_user(
    user_id: u128,
    name: Seq<char>,
    password: Seq<char>,
    salt: Seq<u8>,
    timestamp: i64,
) -> DbUserView {
    DbUserView {
        user_id,
        username: name,
        password,
        salt,
        created_at: timestamp,
        connected_at: timestamp,
    }
}

/// The same record with its connection timestamp replaced.
pub open spec fn with_connected_at(u: DbUserView, connected_at: i64) -> DbUserView {
    DbUserView { connected_at, ..u }
}

/// In a well-formed table, the entry at index `i` is exactly the one that a
/// lookup of its username finds.
pub proof fn lemma_user_with_name(s: Seq<DbUserView>, i: int)
    requires
        users_wf(s),
        0 <= i < s.len(),
    ensures
        has_username(s, s[i].username),
        user_with_name(s, s[i].username) == s[i],
{
    assert(has_username(s, s[i].username));
    let j = username_index(s, s[i].username);
    assert(0 <= j < s.len() && s[j].username == s[i].username);
    if j < i {
        assert(s[j].username != s[i].username);
    }
    if i < j {
        assert(s[i].username != s[j].username);
    }
}

/// A record registered under a username that was free is exactly what a
/// later lookup of that username finds, and the table stays well formed.
pub proof fn lemma_register_then_lookup(s: Seq<DbUserView>, u: DbUserView)
    requires
        users_wf(s),
        !has_username(s, u.username),
        !has_user_id(s, u.user_id),
    ensures
        users_wf(s.push(u)),
        has_username(s.push(u), u.username),
        user_with_name(s.push(u), u.username) == u,
{
    let s2 = s.push(u);
    assert forall|i: int, j: int| 0 <= i < j < s2.len() implies s2[i].username != s2[j].username
        && s2[i].user_id != s2[j].user_id by {
        if j < s.len() {
            assert(s[i].username != s[j].username);
        } else {
            assert(s2[j] == u);
            assert(s2[i] == s[i]);
        }
    }
    assert(s2[s.len() as int] == u);
    lemma_user_with_name(s2, s.len() as int);
}

/// The account table. Usernames are unique case-insensitively (they are
/// stored normalized and compared normalized), user identifiers are unique,
/// and the uniqueness check is atomic with insertion: `create_user` is a
/// single operation on the table, so no two registrations of the same
/// username can both succeed.
pub struct UserStore {
    users: Vec<DbUser>,
}

impl View for UserStore {
    type V = Seq<DbUserView>;

    closed spec fn view(&self) -> Seq<DbUserView> {
        self.users@.map_values(|u: DbUser| u@)
    }
}

impl UserStore {
    pub open spec fn wf(&self) -> bool {
        users_wf(self@)
    }

    /// An empty table.
    pub fn new() -> (r: Self)
        ensures
            r.wf(),
            r@ == Seq::<DbUserView>::empty(),
    {
        let r = UserStore { users: Vec::new() };
        proof {
            assert(r@ =~= Seq::<DbUserView>::empty());
        }
        r
    }

    /// Inserts a new account record, normalizing the username first.
    ///
    /// Exactly one of three outcomes: `Error::Conflict` when the normalized
    /// username is already taken (the sole source of that error),
    /// `Error::Store` when the username is free but the record identifier is
    /// already in use, and otherwise success, which appends exactly the given
    /// record with the normalized username. The table is unchanged on error.
    pub fn create_user(
        &mut self,
        user_id: u128,
        username: &String,
        password: &String,
        salt: &[u8; 32],
        created_at: i64,
        connected_at: i64,
    ) -> (r: Result<(), Error>)
        requires
            old(self).wf(),
        ensures
            final(self).wf(),
            r is Err ==> final(self)@ == old(self)@,
            r is Err ==> r == Err::<(), Error>(Error::Conflict) || r == Err::<(), Error>(
                Error::Store,
            ),
            r == Err::<(), Error>(Error::Conflict) <==> has_username(
                old(self)@,
                lower_of(username@),
            ),
            r == Err::<(), Error>(Error::Store) <==> !has_username(old(self)@, lower_of(username@))
                && has_user_id(old(self)@, user_id),
            r is Ok ==> final(self)@ == old(self)@.push(
                (DbUserView {
                    user_id,
                    username: lower_of(username@),
                    password: password@,
                    salt: salt@,
                    created_at,
                    connected_at,
                }),
            ),
    {
        let name = to_lowercase(username);
        let n = self.users.len();
        let mut i: usize = 0;
        while i < n
            invariant
                self.wf(),
                self == old(self),
                n == self@.len(),
                0 <= i <= n,
                name@ == lower_of(username@),
                forall|j: int| 0 <= j < i ==> self@[j].username != name@,
            decreases n - i,
        {
            if self.users[i].username == name {
                assert(self@[i as int].username == name@);
                return Err(Error::Conflict);
            }
            i += 1;
        }
        assert(!has_username(self@, lower_of(username@)));
        let mut k: usize = 0;
        while k < n
            invariant
                self.wf(),
                self == old(self),
                n == self@.len(),
                0 <= k <= n,
                !has_username(self@, lower_of(username@)),
                forall|j: int| 0 <= j < k ==> self@[j].user_id != user_id,
            decreases n - k,
        {
            if self.users[k].user_id == user_id {
                assert(self@[k as int].user_id == user_id);
                return Err(Error::Store);
            }
            k += 1;
        }
        assert(!has_user_id(self@, user_id));
        let record = DbUser {
            user_id,
            username: name,
            password: password.clone(),
            salt: *salt,
            created_at,
            connected_at,
        };
        let ghost pre = self@;
        self.users.push(record);
        proof {
            assert(self@ =~= pre.push(record@));
            assert forall|i2: int, j2: int| 0 <= i2 < j2 < self@.len() implies self@[i2].username
                != self@[j2].username && self@[i2].user_id != self@[j2].user_id by {
                if j2 < pre.len() {
                    assert(pre[i2].username != pre[j2].username);
                } else {
                    assert(self@[j2] == record@);
                    assert(self@[i2] == pre[i2]);
                }
            }
        }
        Ok(())
    }

    /// Fetches a copy of the record stored under the normalized username, if
    /// any. Absence is not an error of the table; the caller decides what it
    /// means.
    pub fn get_user(&self, username: &String) -> (r: Option<DbUser>)
        requires
            self.wf(),
        ensures
            r is Some <==> has_username(self@, lower_of(username@)),
            r matches Some(u) ==> u@ == user_with_name(self@, lower_of(username@)),
    {
        let name = to_lowercase(username);
        let n = self.users.len();
        let mut i: usize = 0;
        while i < n
            invariant
                self.wf(),
                n == self@.len(),
                0 <= i <= n,
                name@ == lower_of(username@),
                forall|j: int| 0 <= j < i ==> self@[j].username != name@,
            decreases n - i,
        {
            if self.users[i].username == name {
                proof {
                    lemma_user_with_name(self@, i as int);
                }
                let u = &self.users[i];
                return Some(
                    DbUser {
                        user_id: u.user_id,
                        username: u.username.clone(),
                        password: u.password.clone(),
                        salt: u.salt,
                        created_at: u.created_at,
                        connected_at: u.connected_at,
                    },
                );
            }
            i += 1;
        }
        assert(!has_username(self@, lower_of(username@)));
        None
    }

    /// Records the time of the latest successful login on the account with
    /// the given identifier; a missing identifier changes nothing.
    pub fn update_user_timestamp(&mut self, user_id: u128, connected_at: i64)
        requires
            old(self).wf(),
        ensures
            final(self).wf(),
            !has_user_id(old(self)@, user_id) ==> final(self)@ == old(self)@,
            has_user_id(old(self)@, user_id) ==> exists|i: int|
                0 <= i < old(self)@.len() && old(self)@[i].user_id == user_id && final(self)@
                    == old(self)@.update(i, (DbUserView { connected_at, ..old(self)@[i] })),
    {
        let n = self.users.len();
        let mut i: usize = 0;
        while i < n
            invariant
                self.wf(),
                self == old(self),
                n == self@.len(),
                0 <= i <= n,
                forall|j: int| 0 <= j < i ==> self@[j].user_id != user_id,
            decreases n - i,
        {
            if self.users[i].user_id == user_id {
                let u = &self.users[i];
                let updated = DbUser {
                    user_id: u.user_id,
                    username: u.username.clone(),
                    password: u.password.clone(),
                    salt: u.salt,
                    created_at: u.created_at,
                    connected_at,
                };
                let ghost pre = self@;
                self.users[i] = updated;
                proof {
                    assert(self@ =~= pre.update(i as int, (DbUserView { connected_at, ..pre[i as int] })));
                    assert forall|i2: int, j2: int| 0 <= i2 < j2 < self@.len() implies self@[i2].username
                        != self@[j2].username && self@[i2].user_id != self@[j2].user_id by {
                        assert(pre[i2].username != pre[j2].username);
                        assert(pre[i2].user_id != pre[j2].user_id);
                    }
                }
                return ;
            }
            i += 1;
        }
        assert(!has_user_id(self@, user_id));
    }
}

} // verus!
