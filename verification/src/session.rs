use crate::error::Error;
use crate::hash::{hash_with_sha3, sha3_of};
use crate::utils::{bytes_eq, create_session_id, session_id_char};
use vstd::prelude::*;

verus! {

/// One persisted session row: the one-way digest of a bearer token, and the
/// user that the token acts for. The raw token is never stored.
#[derive(Clone, Copy)]
pub struct SessionEntry {
    pub digest: [u8; 32],
    pub user_id: u128,
}

spec fn has_digest(s: Seq<SessionEntry>, digest: Seq<u8>) -> bool {
    exists|i: int| 0 <= i < s.len() && s[i].digest@ == digest
}

spec fn digest_index(s: Seq<SessionEntry>, digest: Seq<u8>) -> int {
    choose|i: int| 0 <= i < s.len() && s[i].digest@ == digest
}

spec fn entries_wf(s: Seq<SessionEntry>) -> bool {
    forall|i: int, j: int|
        0 <= i < j < s.len() ==> s[i].digest@ != s[j].digest@
}

spec fn entries_map(s: Seq<SessionEntry>) -> Map<Seq<u8>, u128> {
    Map::new(|d: Seq<u8>| has_digest(s, d), |d: Seq<u8>| s[digest_index(s, d)].user_id)
}

proof fn lemma_entries_map_at(s: Seq<SessionEntry>, i: int)
    requires
        entries_wf(s),
        0 <= i < s.len(),
    ensures
        entries_map(s).contains_key(s[i].digest@),
        entries_map(s)[s[i].digest@] == s[i].user_id,
{
    let d = s[i].digest@;
    assert(has_digest(s, d));
    let j = digest_index(s, d);
    assert(0 <= j < s.len() && s[j].digest@ == d);
    if j < i {
        assert(s[j].digest@ != s[i].digest@);
    }
    if i < j {
        assert(s[i].digest@ != s[j].digest@);
    }
}

proof fn lemma_entries_map_push(s: Seq<SessionEntry>, e: SessionEntry)
    requires
        entries_wf(s),
        !has_digest(s, e.digest@),
    ensures
        entries_wf(s.push(e)),
        entries_map(s.push(e)) == entries_map(s).insert(e.digest@, e.user_id),
{
    let s2 = s.push(e);
    assert forall|i: int, j: int| 0 <= i < j < s2.len() implies s2[i].digest@ != s2[j].digest@ by {
        if j < s.len() {
            assert(s[i].digest@ != s[j].digest@);
        } else {
            assert(s2[j] == e);
            assert(s2[i] == s[i]);
            assert(!(s[i].digest@ == e.digest@));
        }
    }
    let m2 = entries_map(s).insert(e.digest@, e.user_id);
    assert forall|d: Seq<u8>| has_digest(s2, d) <==> m2.contains_key(d) by {
        if has_digest(s2, d) {
            let i = choose|i: int| 0 <= i < s2.len() && s2[i].digest@ == d;
            if i < s.len() {
                assert(s[i].digest@ == d);
                assert(has_digest(s, d));
            } else {
                assert(d == e.digest@);
            }
        }
        if m2.contains_key(d) {
            if d == e.digest@ {
                assert(s2[s.len() as int].digest@ == d);
                assert(has_digest(s2, d));
            } else {
                let i = digest_index(s, d);
                assert(0 <= i < s.len() && s[i].digest@ == d);
                assert(s2[i].digest@ == d);
                assert(has_digest(s2, d));
            }
        }
    }
    assert forall|d: Seq<u8>| entries_map(s2).contains_key(d) implies entries_map(s2)[d] == m2[d] by {
        if d == e.digest@ {
            lemma_entries_map_at(s2, s.len() as int);
        } else {
            let i = digest_index(s, d);
            assert(0 <= i < s.len() && s[i].digest@ == d);
            lemma_entries_map_at(s, i);
            assert(s2[i].digest@ == d);
            lemma_entries_map_at(s2, i);
        }
    }
    assert(entries_map(s2) =~= m2);
}

proof fn lemma_entries_map_remove_at(s: Seq<SessionEntry>, i: int)
    requires
        entries_wf(s),
        0 <= i < s.len(),
    ensures
        entries_wf(s.remove(i)),
        entries_map(s.remove(i)) == entries_map(s).remove(s[i].digest@),
{
    let d = s[i].digest@;
    let s2 = s.remove(i);
    assert forall|k: int| 0 <= k < s2.len() implies s2[k] == s[if k < i {
        k
    } else {
        k + 1
    }] by {}
    assert forall|k: int, l: int| 0 <= k < l < s2.len() implies s2[k].digest@ != s2[l].digest@ by {
        let k0 = if k < i { k } else { k + 1 };
        let l0 = if l < i { l } else { l + 1 };
        assert(s[k0].digest@ != s[l0].digest@);
    }
    let m2 = entries_map(s).remove(d);
    assert forall|d2: Seq<u8>| has_digest(s2, d2) <==> m2.contains_key(d2) by {
        if has_digest(s2, d2) {
            let k = choose|k: int| 0 <= k < s2.len() && s2[k].digest@ == d2;
            let k0 = if k < i { k } else { k + 1 };
            assert(s[k0].digest@ == d2);
            assert(has_digest(s, d2));
            if d2 == d {
                if k0 < i {
                    assert(s[k0].digest@ != s[i].digest@);
                } else {
                    assert(s[i].digest@ != s[k0].digest@);
                }
            }
        }
        if m2.contains_key(d2) {
            let k = digest_index(s, d2);
            assert(0 <= k < s.len() && s[k].digest@ == d2);
            if k < i {
                assert(s2[k].digest@ == d2);
            } else {
                if k == i {
                    assert(d2 == d);
                } else {
                    assert(s2[k - 1].digest@ == d2);
                }
            }
            assert(has_digest(s2, d2));
        }
    }
    assert forall|d2: Seq<u8>| entries_map(s2).contains_key(d2) implies entries_map(s2)[d2]
        == m2[d2] by {
        let k = choose|k: int| 0 <= k < s2.len() && s2[k].digest@ == d2;
        lemma_entries_map_at(s2, k);
        let k0 = if k < i { k } else { k + 1 };
        assert(s[k0].digest@ == d2);
        lemma_entries_map_at(s, k0);
    }
    assert(entries_map(s2) =~= m2);
}

/// The session table: issuance, validation and revocation of opaque bearer
/// tokens, storing only a one-way digest of each token beside its owner.
///
/// The view is the map from stored digests to owning users. Tokens stay
/// valid until explicitly revoked; no expiry is defined.
pub struct SessionStore {
    entries: Vec<SessionEntry>,
}

impl View for SessionStore {
    type V = Map<Seq<u8>, u128>;

    closed spec fn view(&self) -> Map<Seq<u8>, u128> {
        entries_map(self.entries@)
    }
}

impl SessionStore {
    /// Digests stored in the table are pairwise distinct.
    pub closed spec fn wf(&self) -> bool {
        entries_wf(self.entries@)
    }

    /// An empty table: no digest authenticates.
    pub fn new() -> (r: Self)
        ensures
            r.wf(),
            r@ == Map::<Seq<u8>, u128>::empty(),
    {
        let r = SessionStore { entries: Vec::new() };
        proof {
            assert(r@ =~= Map::<Seq<u8>, u128>::empty());
        }
        r
    }

    /// Persists a session row for `user_id` under the given token digest.
    /// A row already carrying the same digest is replaced.
    pub fn create_session(&mut self, hashed_session_id: &[u8; 32], user_id: u128)
        requires
            old(self).wf(),
        ensures
            final(self).wf(),
            final(self)@ == old(self)@.insert(hashed_session_id@, user_id),
    {
        let ghost m0 = self@;
        self.delete_session(hashed_session_id);
        let entry = SessionEntry { digest: *hashed_session_id, user_id };
        proof {
            if has_digest(self.entries@, hashed_session_id@) {
                let i = digest_index(self.entries@, hashed_session_id@);
                assert(0 <= i < self.entries@.len() && self.entries@[i].digest@
                    == hashed_session_id@);
                lemma_entries_map_at(self.entries@, i);
                assert(self@.contains_key(hashed_session_id@));
            }
            lemma_entries_map_push(self.entries@, entry);
        }
        self.entries.push(entry);
        proof {
            assert(self@ =~= m0.insert(hashed_session_id@, user_id));
        }
    }

    /// Looks a token digest up; the owning user if the digest is stored,
    /// `Error::AuthenticationFailure` otherwise.
    pub fn validate_session(&self, hashed_session_id: &[u8; 32]) -> (r: Result<u128, Error>)
        requires
            self.wf(),
        ensures
            r matches Ok(u) ==> self@.contains_key(hashed_session_id@) && u
                == self@[hashed_session_id@],
            r is Ok <==> self@.contains_key(hashed_session_id@),
            r matches Err(e) ==> e == Error::AuthenticationFailure,
    {
        let n = self.entries.len();
        let mut i: usize = 0;
        while i < n
            invariant
                self.wf(),
                n == self.entries@.len(),
                0 <= i <= n,
                forall|j: int| 0 <= j < i ==> self.entries@[j].digest@ != hashed_session_id@,
            decreases n - i,
        {
            let entry = self.entries[i];
            if bytes_eq(entry.digest.as_slice(), hashed_session_id.as_slice()) {
                proof {
                    lemma_entries_map_at(self.entries@, i as int);
                }
                return Ok(entry.user_id);
            }
            i += 1;
        }
        proof {
            assert(!has_digest(self.entries@, hashed_session_id@));
        }
        Err(Error::AuthenticationFailure)
    }

    /// Deletes the row carrying the given token digest, if any. Idempotent:
    /// deleting an absent digest changes nothing.
    pub fn delete_session(&mut self, hashed_session_id: &[u8; 32])
        requires
            old(self).wf(),
        ensures
            final(self).wf(),
            final(self)@ == old(self)@.remove(hashed_session_id@),
    {
        let n = self.entries.len();
        let mut i: usize = 0;
        while i < n
            invariant
                self.wf(),
                self == old(self),
                n == self.entries@.len(),
                0 <= i <= n,
                forall|j: int| 0 <= j < i ==> self.entries@[j].digest@ != hashed_session_id@,
            decreases n - i,
        {
            let entry = self.entries[i];
            if bytes_eq(entry.digest.as_slice(), hashed_session_id.as_slice()) {
                proof {
                    lemma_entries_map_remove_at(self.entries@, i as int);
                }
                self.entries.remove(i);
                return ;
            }
            i += 1;
        }
        proof {
            assert(!has_digest(self.entries@, hashed_session_id@));
            assert(!self@.contains_key(hashed_session_id@));
            assert(self@ =~= self@.remove(hashed_session_id@));
        }
    }

    /// Mints a fresh token for `user_id` — 43 alphanumeric characters, more
    /// than 256 bits of entropy — stores only its SHA3-256 digest beside the
    /// user, and hands the raw token back: the only moment the raw token
    /// exists outside the caller's memory.
    pub fn issue(&mut self, user_id: u128) -> (token: String)
        requires
            old(self).wf(),
        ensures
            final(self).wf(),
            final(self)@ == old(self)@.insert(sha3_of(token@), user_id),
            token@.len() == 43,
            forall|i: int| 0 <= i < token@.len() ==> session_id_char(#[trigger] token@[i]),
    {
        let token = create_session_id();
        let digest = hash_with_sha3(&token);
        self.create_session(&digest, user_id);
        token
    }

    /// Recomputes the digest of a presented token and looks it up: possession
    /// of a stored token is sufficient to act as the owning user.
    pub fn authenticate(&self, token: &String) -> (r: Result<u128, Error>)
        requires
            self.wf(),
        ensures
            r matches Ok(u) ==> self@.contains_key(sha3_of(token@)) && u == self@[sha3_of(
                token@,
            )],
            r is Ok <==> self@.contains_key(sha3_of(token@)),
            r matches Err(e) ==> e == Error::AuthenticationFailure,
    {
        let digest = hash_with_sha3(token);
        self.validate_session(&digest)
    }

    /// Revokes a presented token. Idempotent: revoking an unknown or already
    /// revoked token is not an error.
    pub fn revoke(&mut self, token: &String)
        requires
            old(self).wf(),
        ensures
            final(self).wf(),
            final(self)@ == old(self)@.remove(sha3_of(token@)),
    {
        let digest = hash_with_sha3(token);
        self.delete_session(&digest);
    }
}

/// The token lifecycle over the session model: a digest just inserted for a
/// user authenticates as that user, and once removed it no longer
/// authenticates, whatever else the table holds.
pub proof fn lemma_token_lifecycle(sessions: Map<Seq<u8>, u128>, digest: Seq<u8>, user_id: u128)
    ensures
        sessions.insert(digest, user_id).contains_key(digest),
        sessions.insert(digest, user_id)[digest] == user_id,
        !sessions.insert(digest, user_id).remove(digest).contains_key(digest),
{
}

} // verus!
