use crate::error::Error;
use vstd::prelude::*;
use vstd::seq_lib::*;

verus! {

/// The mathematical content of one stored note.
pub ghost struct DbNoteView {
    pub note_id: u128,
    pub user_id: u128,
    pub title: Seq<u8>,
    pub title_nonce: Seq<u8>,
    pub content: Seq<u8>,
    pub content_nonce: Seq<u8>,
}

/// One stored note. Title and content are ciphertext bytes, each sealed
/// under its own nonce; both are opaque to the store. The owner is immutable
/// after creation.
pub struct DbNote {
    pub note_id: u128,
    pub user_id: u128,
    pub title: Vec<u8>,
    pub title_nonce: [u8; 12],
    pub content: Vec<u8>,
    pub content_nonce: [u8; 12],
}

impl View for DbNote {
    type V = DbNoteView;

    open spec fn view(&self) -> DbNoteView {
        DbNoteView {
            note_id: self.note_id,
            user_id: self.user_id,
            title: self.title@,
            title_nonce: self.title_nonce@,
            content: self.content@,
            content_nonce: self.content_nonce@,
        }
    }
}

pub open spec fn notes_wf(s: Seq<DbNoteView>) -> bool {
    forall|i: int, j: int| 0 <= i < j < s.len() ==> s[i].note_id != s[j].note_id
}

pub open spec fn has_note_id(s: Seq<DbNoteView>, note_id: u128) -> bool {
    exists|i: int| 0 <= i < s.len() && s[i].note_id == note_id
}

pub open spec fn has_note(s: Seq<DbNoteView>, user_id: u128, note_id: u128) -> bool {
    exists|i: int| 0 <= i < s.len() && s[i].user_id == user_id && s[i].note_id == note_id
}

pub open spec fn note_index(s: Seq<DbNoteView>, user_id: u128, note_id: u128) -> int {
    choose|i: int| 0 <= i < s.len() && s[i].user_id == user_id && s[i].note_id == note_id
}

/// The note owned by `user_id` under `note_id`; meaningful when `has_note`
/// holds and the table is well formed.
pub open spec fn note_at(s: Seq<DbNoteView>, user_id: u128, note_id: u128) -> DbNoteView {
    s[note_index(s, user_id, note_id)]
}

/// Ownership of a note, as a predicate on notes.
pub open spec fn note_owned_by(user_id: u128) -> spec_fn(DbNoteView) -> bool {
    |p: DbNoteView| p.user_id == user_id
}

/// The mathematical contents of a sequence of notes.
pub open spec fn note_views_of(s: Seq<DbNote>) -> Seq<DbNoteView> {
    s.map_values(|p: DbNote| p@)
}

/// In a well-formed table, the note at index `i` is exactly the one that a
/// lookup of its owner and identifier finds.
pub proof fn lemma_note_at(s: Seq<DbNoteView>, i: int)
    requires
        notes_wf(s),
        0 <= i < s.len(),
    ensures
        has_note(s, s[i].user_id, s[i].note_id),
        note_at(s, s[i].user_id, s[i].note_id) == s[i],
{
    assert(has_note(s, s[i].user_id, s[i].note_id));
    let j = note_index(s, s[i].user_id, s[i].note_id);
    assert(0 <= j < s.len() && s[j].note_id == s[i].note_id);
    if j < i {
        assert(s[j].note_id != s[i].note_id);
    }
    if i < j {
        assert(s[i].note_id != s[j].note_id);
    }
}

/// The note table. Note identifiers are unique; every fetch and deletion is
/// keyed by owner and identifier together, so one user's notes are never
/// visible to another.
pub struct NoteStore {
    notes: Vec<DbNote>,
}

impl View for NoteStore {
    type V = Seq<DbNoteView>;

    closed spec fn view(&self) -> Seq<DbNoteView> {
        note_views_of(self.notes@)
    }
}

impl NoteStore {
    pub open spec fn wf(&self) -> bool {
        notes_wf(self@)
    }

    /// An empty table.
    pub fn new() -> (r: Self)
        ensures
            r.wf(),
            r@ == Seq::<DbNoteView>::empty(),
    {
        let r = NoteStore { notes: Vec::new() };
        proof {
            assert(r@ =~= Seq::<DbNoteView>::empty());
        }
        r
    }

    /// Inserts a new note and returns a copy of what was stored.
    /// `Error::Store` exactly when the note identifier is already in use;
    /// the table is unchanged then.
    pub fn create_note(
        &mut self,
        note_id: u128,
        user_id: u128,
        title: &Vec<u8>,
        title_nonce: &[u8; 12],
        content: &Vec<u8>,
        content_nonce: &[u8; 12],
    ) -> (r: Result<DbNote, Error>)
        requires
            old(self).wf(),
        ensures
            final(self).wf(),
            r is Err <==> has_note_id(old(self)@, note_id),
            r matches Err(e) ==> e == Error::Store && final(self)@ == old(self)@,
            r matches Ok(p) ==> p@ == (DbNoteView {
                note_id,
                user_id,
                title: title@,
                title_nonce: title_nonce@,
                content: content@,
                content_nonce: content_nonce@,
            }) && final(self)@ == old(self)@.push(p@),
    {
        let n = self.notes.len();
        let mut i: usize = 0;
        while i < n
            invariant
                self.wf(),
                self == old(self),
                n == self@.len(),
                0 <= i <= n,
                forall|j: int| 0 <= j < i ==> self@[j].note_id != note_id,
            decreases n - i,
        {
            if self.notes[i].note_id == note_id {
                assert(self@[i as int].note_id == note_id);
                return Err(Error::Store);
            }
            i += 1;
        }
        assert(!has_note_id(self@, note_id));
        let record = DbNote {
            note_id,
            user_id,
            title: title.clone(),
            title_nonce: *title_nonce,
            content: content.clone(),
            content_nonce: *content_nonce,
        };
        let copy = DbNote {
            note_id,
            user_id,
            title: title.clone(),
            title_nonce: *title_nonce,
            content: content.clone(),
            content_nonce: *content_nonce,
        };
        let ghost pre = self@;
        self.notes.push(record);
        proof {
            assert(self@ =~= pre.push(copy@));
            assert forall|i2: int, j2: int| 0 <= i2 < j2 < self@.len() implies self@[i2].note_id
                != self@[j2].note_id by {
                if j2 < pre.len() {
                    assert(pre[i2].note_id != pre[j2].note_id);
                }
            }
        }
        Ok(copy)
    }

    /// Fetches a copy of the note stored for this owner under this
    /// identifier, if any.
    pub fn get_note(&self, user_id: u128, note_id: u128) -> (r: Option<DbNote>)
        requires
            self.wf(),
        ensures
            r is Some <==> has_note(self@, user_id, note_id),
            r matches Some(p) ==> p@ == note_at(self@, user_id, note_id),
    {
        let n = self.notes.len();
        let mut i: usize = 0;
        while i < n
            invariant
                self.wf(),
                n == self@.len(),
                0 <= i <= n,
                forall|j: int|
                    0 <= j < i ==> !(self@[j].user_id == user_id && self@[j].note_id == note_id),
            decreases n - i,
        {
            let p = &self.notes[i];
            if p.user_id == user_id && p.note_id == note_id {
                proof {
                    lemma_note_at(self@, i as int);
                }
                return Some(
                    DbNote {
                        note_id: p.note_id,
                        user_id: p.user_id,
                        title: p.title.clone(),
                        title_nonce: p.title_nonce,
                        content: p.content.clone(),
                        content_nonce: p.content_nonce,
                    },
                );
            }
            i += 1;
        }
        assert(!has_note(self@, user_id, note_id));
        None
    }

    /// Fetches copies of all notes owned by `user_id`, in storage order.
    pub fn get_notes(&self, user_id: u128) -> (r: Vec<DbNote>)
        requires
            self.wf(),
        ensures
            note_views_of(r@) == self@.filter(note_owned_by(user_id)),
    {
        let n = self.notes.len();
        let mut result: Vec<DbNote> = Vec::new();
        let mut i: usize = 0;
        proof {
            assert(note_views_of(result@) =~= self@.take(0).filter(note_owned_by(user_id)));
        }
        while i < n
            invariant
                self.wf(),
                n == self@.len(),
                0 <= i <= n,
                note_views_of(result@) == self@.take(i as int).filter(note_owned_by(user_id)),
            decreases n - i,
        {
            let ghost pre = note_views_of(result@);
            let ghost elem = self@[i as int];
            let p = &self.notes[i];
            if p.user_id == user_id {
                result.push(
                    DbNote {
                        note_id: p.note_id,
                        user_id: p.user_id,
                        title: p.title.clone(),
                        title_nonce: p.title_nonce,
                        content: p.content.clone(),
                        content_nonce: p.content_nonce,
                    },
                );
                proof {
                    assert(note_views_of(result@) =~= pre.push(elem));
                }
            }
            proof {
                assert(note_owned_by(user_id)(elem) == (elem.user_id == user_id));
                self@.take(i as int).lemma_filter_push(elem, note_owned_by(user_id));
                assert(self@.take(i as int).push(elem).filter(note_owned_by(user_id))
                    == if note_owned_by(user_id)(elem) {
                    self@.take(i as int).filter(note_owned_by(user_id)).push(elem)
                } else {
                    self@.take(i as int).filter(note_owned_by(user_id))
                });
                assert(self@.take(i + 1) =~= self@.take(i as int).push(elem));
            }
            i += 1;
        }
        proof {
            assert(self@.take(n as int) =~= self@);
        }
        result
    }

    /// Deletes the note stored for this owner under this identifier, if any.
    /// Idempotent: deleting an absent note changes nothing.
    pub fn delete_note(&mut self, user_id: u128, note_id: u128)
        requires
            old(self).wf(),
        ensures
            final(self).wf(),
            has_note(old(self)@, user_id, note_id) ==> final(self)@ == old(self)@.remove(
                note_index(old(self)@, user_id, note_id),
            ),
            !has_note(old(self)@, user_id, note_id) ==> final(self)@ == old(self)@,
    {
        let n = self.notes.len();
        let mut i: usize = 0;
        while i < n
            invariant
                self.wf(),
                self == old(self),
                n == self@.len(),
                0 <= i <= n,
                forall|j: int|
                    0 <= j < i ==> !(self@[j].user_id == user_id && self@[j].note_id == note_id),
            decreases n - i,
        {
            let p = &self.notes[i];
            if p.user_id == user_id && p.note_id == note_id {
                proof {
                    lemma_note_at(self@, i as int);
                    assert(note_index(self@, user_id, note_id) == i as int) by {
                        let j = note_index(self@, user_id, note_id);
                        if j < i {
                            assert(self@[j].note_id != self@[i as int].note_id);
                        }
                        if i < j {
                            assert(self@[i as int].note_id != self@[j].note_id);
                        }
                    }
                }
                let ghost pre = self@;
                self.notes.remove(i);
                proof {
                    assert(self@ =~= pre.remove(i as int));
                    assert forall|i2: int, j2: int|
                        0 <= i2 < j2 < self@.len() implies self@[i2].note_id
                        != self@[j2].note_id by {
                        let i0 = if i2 < i { i2 } else { i2 + 1 };
                        let j0 = if j2 < i { j2 } else { j2 + 1 };
                        assert(self@[i2] == pre[i0]);
                        assert(self@[j2] == pre[j0]);
                        assert(pre[i0].note_id != pre[j0].note_id);
                    }
                }
                return ;
            }
            i += 1;
        }
        assert(!has_note(self@, user_id, note_id));
    }

    /// Replaces the mutable fields of the note stored for this owner under
    /// this identifier and returns a copy of the updated note; `Error::Store`
    /// when no such note exists, and the table is unchanged then. Owner and
    /// identifier are immutable.
    pub fn patch_note(
        &mut self,
        note_id: u128,
        user_id: u128,
        title: &Vec<u8>,
        title_nonce: &[u8; 12],
        content: &Vec<u8>,
        content_nonce: &[u8; 12],
    ) -> (r: Result<DbNote, Error>)
        requires
            old(self).wf(),
        ensures
            final(self).wf(),
            r is Ok <==> has_note(old(self)@, user_id, note_id),
            r matches Err(e) ==> e == Error::Store && final(self)@ == old(self)@,
            r matches Ok(p) ==> p@ == (DbNoteView {
                note_id,
                user_id,
                title: title@,
                title_nonce: title_nonce@,
                content: content@,
                content_nonce: content_nonce@,
            }) && final(self)@ == old(self)@.update(note_index(old(self)@, user_id, note_id), p@),
    {
        let n = self.notes.len();
        let mut i: usize = 0;
        while i < n
            invariant
                self.wf(),
                self == old(self),
                n == self@.len(),
                0 <= i <= n,
                forall|j: int|
                    0 <= j < i ==> !(self@[j].user_id == user_id && self@[j].note_id == note_id),
            decreases n - i,
        {
            let p = &self.notes[i];
            if p.user_id == user_id && p.note_id == note_id {
                proof {
                    lemma_note_at(self@, i as int);
                    assert(note_index(self@, user_id, note_id) == i as int) by {
                        let j = note_index(self@, user_id, note_id);
                        if j < i {
                            assert(self@[j].note_id != self@[i as int].note_id);
                        }
                        if i < j {
                            assert(self@[i as int].note_id != self@[j].note_id);
                        }
                    }
                }
                let updated = DbNote {
                    note_id,
                    user_id,
                    title: title.clone(),
                    title_nonce: *title_nonce,
                    content: content.clone(),
                    content_nonce: *content_nonce,
                };
                let copy = DbNote {
                    note_id,
                    user_id,
                    title: title.clone(),
                    title_nonce: *title_nonce,
                    content: content.clone(),
                    content_nonce: *content_nonce,
                };
                let ghost pre = self@;
                self.notes[i] = updated;
                proof {
                    assert(self@ =~= pre.update(i as int, copy@));
                    assert forall|i2: int, j2: int|
                        0 <= i2 < j2 < self@.len() implies self@[i2].note_id
                        != self@[j2].note_id by {
                        assert(pre[i2].note_id != pre[j2].note_id);
                    }
                }
                return Ok(copy);
            }
            i += 1;
        }
        assert(!has_note(self@, user_id, note_id));
        Err(Error::Store)
    }
}

/// What a caller supplies to create or edit a note: two ciphertext/nonce
/// pairs straight from the cipher.
pub struct NoteIn {
    pub title: Vec<u8>,
    pub title_nonce: [u8; 12],
    pub content: Vec<u8>,
    pub content_nonce: [u8; 12],
}

/// What a caller gets back for one note.
pub struct NoteOut {
    pub note_id: u128,
    pub title: Vec<u8>,
    pub title_nonce: [u8; 12],
    pub content: Vec<u8>,
    pub content_nonce: [u8; 12],
}

impl From<DbNote> for NoteOut {
    fn from(dbnote: DbNote) -> (r: Self) {
        NoteOut {
            note_id: dbnote.note_id,
            title: dbnote.title,
            title_nonce: dbnote.title_nonce,
            content: dbnote.content,
            content_nonce: dbnote.content_nonce,
        }
    }
}

impl vstd::std_specs::convert::FromSpecImpl<DbNote> for NoteOut {
    open spec fn obeys_from_spec() -> bool {
        true
    }

    open spec fn from_spec(dbnote: DbNote) -> Self {
        NoteOut {
            note_id: dbnote.note_id,
            title: dbnote.title,
            title_nonce: dbnote.title_nonce,
            content: dbnote.content,
            content_nonce: dbnote.content_nonce,
        }
    }
}

} // verus!
