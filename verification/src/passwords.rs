use crate::error::Error;
use vstd::prelude::*;
use vstd::seq_lib::*;

verus! {

/// The mathematical content of one stored password entry.
pub ghost struct DbPasswordView {
    pub password_id: u128,
    pub user_id: u128,
    pub domain_name: Seq<char>,
    pub username: Seq<char>,
    pub password: Seq<u8>,
    pub nonce: Seq<u8>,
}

/// One stored password entry. `password` and `nonce` are the ciphertext and
/// nonce the cipher produced; they are opaque bytes to the store. The owner
/// is immutable after creation.
pub struct DbPassword {
    pub password_id: u128,
    pub user_id: u128,
    pub domain_name: String,
    pub username: String,
    pub password: Vec<u8>,
    pub nonce: [u8; 12],
}

impl View for DbPassword {
    type V = DbPasswordView;

    open spec fn view(&self) -> DbPasswordView {
        DbPasswordView {
            password_id: self.password_id,
            user_id: self.user_id,
            domain_name: self.domain_name@,
            username: self.username@,
            password: self.password@,
            nonce: self.nonce@,
        }
    }
}

pub open spec fn passwords_wf(s: Seq<DbPasswordView>) -> bool {
    forall|i: int, j: int| 0 <= i < j < s.len() ==> s[i].password_id != s[j].password_id
}

pub open spec fn has_password_id(s: Seq<DbPasswordView>, password_id: u128) -> bool {
    exists|i: int| 0 <= i < s.len() && s[i].password_id == password_id
}

pub open spec fn has_password(s: Seq<DbPasswordView>, user_id: u128, password_id: u128) -> bool {
    exists|i: int|
        0 <= i < s.len() && s[i].user_id == user_id && s[i].password_id == password_id
}

pub open spec fn password_index(s: Seq<DbPasswordView>, user_id: u128, password_id: u128) -> int {
    choose|i: int|
        0 <= i < s.len() && s[i].user_id == user_id && s[i].password_id == password_id
}

/// The entry owned by `user_id` under `password_id`; meaningful when
/// `has_password` holds and the table is well formed.
pub open spec fn password_at(
    s: Seq<DbPasswordView>,
    user_id: u128,
    password_id: u128,
) -> DbPasswordView {
    s[password_index(s, user_id, password_id)]
}

/// Ownership of an entry, as a predicate on entries.
pub open spec fn owned_by(user_id: u128) -> spec_fn(DbPasswordView) -> bool {
    |p: DbPasswordView| p.user_id == user_id
}

/// The mathematical contents of a sequence of entries.
pub open spec fn views_of(s: Seq<DbPassword>) -> Seq<DbPasswordView> {
    s.map_values(|p: DbPassword| p@)
}

/// In a well-formed table, the entry at index `i` is exactly the one that a
/// lookup of its owner and identifier finds.
pub proof fn lemma_password_at(s: Seq<DbPasswordView>, i: int)
    requires
        passwords_wf(s),
        0 <= i < s.len(),
    ensures
        has_password(s, s[i].user_id, s[i].password_id),
        password_at(s, s[i].user_id, s[i].password_id) == s[i],
{
    assert(has_password(s, s[i].user_id, s[i].password_id));
    let j = password_index(s, s[i].user_id, s[i].password_id);
    assert(0 <= j < s.len() && s[j].password_id == s[i].password_id);
    if j < i {
        assert(s[j].password_id != s[i].password_id);
    }
    if i < j {
        assert(s[i].password_id != s[j].password_id);
    }
}

/// The password-entry table. Entry identifiers are unique; every fetch and
/// deletion is keyed by owner and identifier together, so one user's entries
/// are never visible to another.
pub struct PasswordStore {
    passwords: Vec<DbPassword>,
}

impl View for PasswordStore {
    type V = Seq<DbPasswordView>;

    closed spec fn view(&self) -> Seq<DbPasswordView> {
        views_of(self.passwords@)
    }
}

impl PasswordStore {
    pub open spec fn wf(&self) -> bool {
        passwords_wf(self@)
    }

    /// An empty table.
    pub fn new() -> (r: Self)
        ensures
            r.wf(),
            r@ == Seq::<DbPasswordView>::empty(),
    {
        let r = PasswordStore { passwords: Vec::new() };
        proof {
            assert(r@ =~= Seq::<DbPasswordView>::empty());
        }
        r
    }

    /// Inserts a new entry and returns a copy of what was stored.
    /// `Error::Store` exactly when the entry identifier is already in use;
    /// the table is unchanged then.
    pub fn create_password(
        &mut self,
        password_id: u128,
        user_id: u128,
        domain_name: &String,
        username: &String,
        password: &Vec<u8>,
        nonce: &[u8; 12],
    ) -> (r: Result<DbPassword, Error>)
        requires
            old(self).wf(),
        ensures
            final(self).wf(),
            r is Err <==> has_password_id(old(self)@, password_id),
            r matches Err(e) ==> e == Error::Store && final(self)@ == old(self)@,
            r matches Ok(p) ==> p@ == (DbPasswordView {
                password_id,
                user_id,
                domain_name: domain_name@,
                username: username@,
                password: password@,
                nonce: nonce@,
            }) && final(self)@ == old(self)@.push(p@),
    {
        let n = self.passwords.len();
        let mut i: usize = 0;
        while i < n
            invariant
                self.wf(),
                self == old(self),
                n == self@.len(),
                0 <= i <= n,
                forall|j: int| 0 <= j < i ==> self@[j].password_id != password_id,
            decreases n - i,
        {
            if self.passwords[i].password_id == password_id {
                assert(self@[i as int].password_id == password_id);
                return Err(Error::Store);
            }
            i += 1;
        }
        assert(!has_password_id(self@, password_id));
        let record = DbPassword {
            password_id,
            user_id,
            domain_name: domain_name.clone(),
            username: username.clone(),
            password: password.clone(),
            nonce: *nonce,
        };
        let copy = DbPassword {
            password_id,
            user_id,
            domain_name: domain_name.clone(),
            username: username.clone(),
            password: password.clone(),
            nonce: *nonce,
        };
        let ghost pre = self@;
        self.passwords.push(record);
        proof {
            assert(self@ =~= pre.push(copy@));
            assert forall|i2: int, j2: int| 0 <= i2 < j2 < self@.len() implies self@[i2].password_id
                != self@[j2].password_id by {
                if j2 < pre.len() {
                    assert(pre[i2].password_id != pre[j2].password_id);
                }
            }
        }
        Ok(copy)
    }

    /// Fetches a copy of the entry stored for this owner under this
    /// identifier, if any.
    pub fn get_password(&self, user_id: u128, password_id: u128) -> (r: Option<DbPassword>)
        requires
            self.wf(),
        ensures
            r is Some <==> has_password(self@, user_id, password_id),
            r matches Some(p) ==> p@ == password_at(self@, user_id, password_id),
    {
        let n = self.passwords.len();
        let mut i: usize = 0;
        while i < n
            invariant
                self.wf(),
                n == self@.len(),
                0 <= i <= n,
                forall|j: int|
                    0 <= j < i ==> !(self@[j].user_id == user_id && self@[j].password_id
                        == password_id),
            decreases n - i,
        {
            let p = &self.passwords[i];
            if p.user_id == user_id && p.password_id == password_id {
                proof {
                    lemma_password_at(self@, i as int);
                }
                return Some(
                    DbPassword {
                        password_id: p.password_id,
                        user_id: p.user_id,
                        domain_name: p.domain_name.clone(),
                        username: p.username.clone(),
                        password: p.password.clone(),
                        nonce: p.nonce,
                    },
                );
            }
            i += 1;
        }
        assert(!has_password(self@, user_id, password_id));
        None
    }

    /// Fetches copies of all entries owned by `user_id`, in storage order.
    pub fn get_passwords(&self, user_id: u128) -> (r: Vec<DbPassword>)
        requires
            self.wf(),
        ensures
            views_of(r@) == self@.filter(owned_by(user_id)),
    {
        let n = self.passwords.len();
        let mut result: Vec<DbPassword> = Vec::new();
        let mut i: usize = 0;
        proof {
            assert(views_of(result@) =~= self@.take(0).filter(owned_by(user_id)));
        }
        while i < n
            invariant
                self.wf(),
                n == self@.len(),
                0 <= i <= n,
                views_of(result@) == self@.take(i as int).filter(owned_by(user_id)),
            decreases n - i,
        {
            let ghost pre = views_of(result@);
            let ghost elem = self@[i as int];
            let p = &self.passwords[i];
            if p.user_id == user_id {
                result.push(
                    DbPassword {
                        password_id: p.password_id,
                        user_id: p.user_id,
                        domain_name: p.domain_name.clone(),
                        username: p.username.clone(),
                        password: p.password.clone(),
                        nonce: p.nonce,
                    },
                );
                proof {
                    assert(views_of(result@) =~= pre.push(elem));
                }
            }
            proof {
                assert(owned_by(user_id)(elem) == (elem.user_id == user_id));
                self@.take(i as int).lemma_filter_push(elem, owned_by(user_id));
                assert(self@.take(i as int).push(elem).filter(owned_by(user_id)) == if owned_by(
                    user_id,
                )(elem) {
                    self@.take(i as int).filter(owned_by(user_id)).push(elem)
                } else {
                    self@.take(i as int).filter(owned_by(user_id))
                });
                assert(self@.take(i + 1) =~= self@.take(i as int).push(elem));
            }
            i += 1;
        }
        proof {
            assert(self@.take(n as int) =~= self@);
        }
        result
    }

    /// Deletes the entry stored for this owner under this identifier, if
    /// any. Idempotent: deleting an absent entry changes nothing.
    pub fn delete_password(&mut self, user_id: u128, password_id: u128)
        requires
            old(self).wf(),
        ensures
            final(self).wf(),
            has_password(old(self)@, user_id, password_id) ==> final(self)@ == old(self)@.remove(
                password_index(old(self)@, user_id, password_id),
            ),
            !has_password(old(self)@, user_id, password_id) ==> final(self)@ == old(self)@,
    {
        let n = self.passwords.len();
        let mut i: usize = 0;
        while i < n
            invariant
                self.wf(),
                self == old(self),
                n == self@.len(),
                0 <= i <= n,
                forall|j: int|
                    0 <= j < i ==> !(self@[j].user_id == user_id && self@[j].password_id
                        == password_id),
            decreases n - i,
        {
            let p = &self.passwords[i];
            if p.user_id == user_id && p.password_id == password_id {
                proof {
                    lemma_password_at(self@, i as int);
                    assert(password_index(self@, user_id, password_id) == i as int) by {
                        let j = password_index(self@, user_id, password_id);
                        if j < i {
                            assert(self@[j].password_id != self@[i as int].password_id);
                        }
                        if i < j {
                            assert(self@[i as int].password_id != self@[j].password_id);
                        }
                    }
                }
                let ghost pre = self@;
                self.passwords.remove(i);
                proof {
                    assert(self@ =~= pre.remove(i as int));
                    assert forall|i2: int, j2: int|
                        0 <= i2 < j2 < self@.len() implies self@[i2].password_id
                        != self@[j2].password_id by {
                        let i0 = if i2 < i { i2 } else { i2 + 1 };
                        let j0 = if j2 < i { j2 } else { j2 + 1 };
                        assert(self@[i2] == pre[i0]);
                        assert(self@[j2] == pre[j0]);
                        assert(pre[i0].password_id != pre[j0].password_id);
                    }
                }
                return ;
            }
            i += 1;
        }
        assert(!has_password(self@, user_id, password_id));
    }

    /// Replaces the mutable fields of the entry stored for this owner under
    /// this identifier and returns a copy of the updated entry;
    /// `Error::Store` when no such entry exists, and the table is unchanged
    /// then. Owner and identifier are immutable.
    pub fn patch_password(
        &mut self,
        password_id: u128,
        user_id: u128,
        domain_name: &String,
        username: &String,
        password: &Vec<u8>,
        nonce: &[u8; 12],
    ) -> (r: Result<DbPassword, Error>)
        requires
            old(self).wf(),
        ensures
            final(self).wf(),
            r is Ok <==> has_password(old(self)@, user_id, password_id),
            r matches Err(e) ==> e == Error::Store && final(self)@ == old(self)@,
            r matches Ok(p) ==> p@ == (DbPasswordView {
                password_id,
                user_id,
                domain_name: domain_name@,
                username: username@,
                password: password@,
                nonce: nonce@,
            }) && final(self)@ == old(self)@.update(
                password_index(old(self)@, user_id, password_id),
                p@,
            ),
    {
        let n = self.passwords.len();
        let mut i: usize = 0;
        while i < n
            invariant
                self.wf(),
                self == old(self),
                n == self@.len(),
                0 <= i <= n,
                forall|j: int|
                    0 <= j < i ==> !(self@[j].user_id == user_id && self@[j].password_id
                        == password_id),
            decreases n - i,
        {
            let p = &self.passwords[i];
            if p.user_id == user_id && p.password_id == password_id {
                proof {
                    lemma_password_at(self@, i as int);
                    assert(password_index(self@, user_id, password_id) == i as int) by {
                        let j = password_index(self@, user_id, password_id);
                        if j < i {
                            assert(self@[j].password_id != self@[i as int].password_id);
                        }
                        if i < j {
                            assert(self@[i as int].password_id != self@[j].password_id);
                        }
                    }
                }
                let updated = DbPassword {
                    password_id,
                    user_id,
                    domain_name: domain_name.clone(),
                    username: username.clone(),
                    password: password.clone(),
                    nonce: *nonce,
                };
                let copy = DbPassword {
                    password_id,
                    user_id,
                    domain_name: domain_name.clone(),
                    username: username.clone(),
                    password: password.clone(),
                    nonce: *nonce,
                };
                let ghost pre = self@;
                self.passwords[i] = updated;
                proof {
                    assert(self@ =~= pre.update(i as int, copy@));
                    assert forall|i2: int, j2: int|
                        0 <= i2 < j2 < self@.len() implies self@[i2].password_id
                        != self@[j2].password_id by {
                        assert(pre[i2].password_id != pre[j2].password_id);
                    }
                }
                return Ok(copy);
            }
            i += 1;
        }
        assert(!has_password(self@, user_id, password_id));
        Err(Error::Store)
    }
}

/// What a caller supplies to create or edit an entry: ciphertext and nonce
/// straight from the cipher, plus clear metadata.
pub struct PasswordIn {
    pub domain_name: String,
    pub username: String,
    pub password: Vec<u8>,
    pub nonce: [u8; 12],
}

/// What a caller gets back for one entry.
pub struct PasswordOut {
    pub password_id: u128,
    pub domain_name: String,
    pub username: String,
    pub password: Vec<u8>,
    pub nonce: [u8; 12],
}

impl From<DbPassword> for PasswordOut {
    fn from(dbpassword: DbPassword) -> (r: Self) {
        PasswordOut {
            password_id: dbpassword.password_id,
            domain_name: dbpassword.domain_name,
            username: dbpassword.username,
            password: dbpassword.password,
            nonce: dbpassword.nonce,
        }
    }
}

impl vstd::std_specs::convert::FromSpecImpl<DbPassword> for PasswordOut {
    open spec fn obeys_from_spec() -> bool {
        true
    }

    open spec fn from_spec(dbpassword: DbPassword) -> Self {
        PasswordOut {
            password_id: dbpassword.password_id,
            domain_name: dbpassword.domain_name,
            username: dbpassword.username,
            password: dbpassword.password,
            nonce: dbpassword.nonce,
        }
    }
}

} // verus!
