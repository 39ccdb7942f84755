use vstd::prelude::*;

verus! {

/// A note of the notes panel: its id and what the panel edits of it.
pub struct NoteSignal<T> {
    pub id: u32,
    pub value: T,
}

/// The notes of the panel after deleting every note with id `id`, the others kept in order.
pub open spec fn without_id<T>(notes: Seq<NoteSignal<T>>, id: u32) -> Seq<NoteSignal<T>>
    decreases notes.len(),
{
    if notes.len() == 0 {
        Seq::empty()
    } else if notes.last().id == id {
        without_id(notes.drop_last(), id)
    } else {
        without_id(notes.drop_last(), id).push(notes.last())
    }
}

/// No note of the list has id `id`.
pub open spec fn id_free<T>(notes: Seq<NoteSignal<T>>, id: u32) -> bool {
    forall|i: int| 0 <= i < notes.len() ==> (#[trigger] notes[i]).id != id
}

/// The ids of the notes are pairwise distinct and all below `next_id`, so
/// the next added note gets an id that no note has.
pub open spec fn ids_fresh<T>(notes: Seq<NoteSignal<T>>, next_id: u32) -> bool {
    &&& forall|i: int| 0 <= i < notes.len() ==> (#[trigger] notes[i]).id < next_id
    &&& forall|i: int, j: int| 0 <= i < j < notes.len() ==> (#[trigger] notes[i]).id != (#[trigger] notes[j]).id
}

/// The notes panel: a list of notes, each with an id, and the id the next
/// added note gets. It starts with the number of notes it was given
/// (taken modulo 2^32).
pub struct NotesPanel<T> {
    pub notes: Vec<NoteSignal<T>>,
    pub next_note_id: u32,
}

impl<T> NotesPanel<T> {
    pub fn new(notes: Vec<NoteSignal<T>>) -> (panel: NotesPanel<T>)
        ensures
            panel.notes@ == notes@,
            panel.next_note_id == notes@.len() as u32,
    {
        let next_note_id: u32 = notes.len() as u32;
        NotesPanel { notes, next_note_id }
    }

    /// Appends a note with the next id, and moves the next id on by one.
    pub fn add_note(&mut self, value: T)
        requires
            old(self).next_note_id < u32::MAX,
        ensures
            final(self).notes@ == old(self).notes@.push(NoteSignal { id: old(self).next_note_id, value }),
            final(self).next_note_id == old(self).next_note_id + 1,
            ids_fresh(old(self).notes@, old(self).next_note_id)
                ==> ids_fresh(final(self).notes@, final(self).next_note_id),
    {
        let note = NoteSignal { id: self.next_note_id, value };
        self.notes.push(note);
        self.next_note_id = self.next_note_id + 1;
        proof {
            if ids_fresh(old(self).notes@, old(self).next_note_id) {
                lemma_add_keeps_ids_fresh(old(self).notes@, old(self).next_note_id, value);
            }
        }
    }

    /// Deletes every note with id `id`; the other notes keep their order.
    pub fn delete_note(&mut self, id: u32)
        ensures
            final(self).notes@ == without_id(old(self).notes@, id),
            final(self).next_note_id == old(self).next_note_id,
            ids_fresh(old(self).notes@, old(self).next_note_id)
                ==> ids_fresh(final(self).notes@, final(self).next_note_id),
    {
        let mut old_notes: Vec<NoteSignal<T>> = Vec::new();
        std::mem::swap(&mut old_notes, &mut self.notes);
        let ghost all = old_notes@;
        let mut kept: Vec<NoteSignal<T>> = Vec::new();
        for note in it: old_notes.into_iter()
            invariant
                it.seq() == all,
                kept@ == without_id(all.take(it.index()), id),
        {
            proof {
                let t = all.take(it.index() + 1);
                assert(t.drop_last() =~= all.take(it.index()));
                assert(t.last() == note);
            }
            if note.id != id {
                kept.push(note);
            }
        }
        proof {
            assert(all.take(all.len() as int) =~= all);
        }
        self.notes = kept;
        proof {
            if ids_fresh(all, self.next_note_id) {
                lemma_delete_keeps_ids_fresh(all, self.next_note_id, id);
            }
        }
    }
}

/// Deleting keeps exactly the notes with another id, in their order: no
/// note with the id is left, and a list that had none is unchanged.
pub proof fn lemma_delete_note<T>(notes: Seq<NoteSignal<T>>, id: u32)
    ensures
        id_free(without_id(notes, id), id),
        without_id(notes, id).len() <= notes.len(),
        id_free(notes, id) ==> without_id(notes, id) == notes,
    decreases notes.len(),
{
    if notes.len() > 0 {
        lemma_delete_note(notes.drop_last(), id);
        if id_free(notes, id) {
            assert(id_free(notes.drop_last(), id)) by {
                assert forall|i: int| 0 <= i < notes.drop_last().len() implies (#[trigger] notes.drop_last()[i]).id != id by {
                    assert(notes.drop_last()[i] == notes[i]);
                }
            }
            assert(notes.last() == notes[notes.len() - 1]);
            assert(notes.drop_last().push(notes.last()) =~= notes);
        }
    }
}

/// Adding a note and then deleting it by its id gives back the notes one
/// had, when no note had that id yet.
pub proof fn lemma_add_then_delete<T>(notes: Seq<NoteSignal<T>>, next_id: u32, value: T)
    requires
        id_free(notes, next_id),
    ensures
        without_id(notes.push(NoteSignal { id: next_id, value }), next_id) == notes,
{
    let pushed = notes.push(NoteSignal { id: next_id, value });
    assert(pushed.drop_last() =~= notes);
    lemma_delete_note(notes, next_id);
}

/// Every note left after a delete is a note of the original list.
proof fn lemma_without_id_members<T>(notes: Seq<NoteSignal<T>>, id: u32)
    ensures
        forall|i: int| 0 <= i < without_id(notes, id).len() ==>
            exists|j: int| 0 <= j < notes.len() && #[trigger] without_id(notes, id)[i] == notes[j],
    decreases notes.len(),
{
    if notes.len() > 0 {
        let rest = notes.drop_last();
        lemma_without_id_members(rest, id);
        let w = without_id(rest, id);
        assert forall|i: int| 0 <= i < without_id(notes, id).len() implies
            exists|j: int| 0 <= j < notes.len() && #[trigger] without_id(notes, id)[i] == notes[j] by {
            if i < w.len() {
                assert(without_id(notes, id)[i] == w[i]);
                let j = choose|j: int| 0 <= j < rest.len() && w[i] == rest[j];
                assert(rest[j] == notes[j]);
            } else {
                assert(without_id(notes, id)[i] == notes[notes.len() - 1]);
            }
        }
    }
}

/// Adding a note keeps the ids distinct and below the next id.
pub proof fn lemma_add_keeps_ids_fresh<T>(notes: Seq<NoteSignal<T>>, next_id: u32, value: T)
    requires
        ids_fresh(notes, next_id),
        next_id < u32::MAX,
    ensures
        ids_fresh(notes.push(NoteSignal { id: next_id, value }), (next_id + 1) as u32),
{
    let pushed = notes.push(NoteSignal { id: next_id, value });
    assert forall|i: int| 0 <= i < pushed.len() implies (#[trigger] pushed[i]).id < next_id + 1 by {
        if i < notes.len() {
            assert(pushed[i] == notes[i]);
        }
    }
    assert forall|i: int, j: int| 0 <= i < j < pushed.len() implies (#[trigger] pushed[i]).id != (#[trigger] pushed[j]).id by {
        assert(pushed[i] == notes[i]);
        if j < notes.len() {
            assert(pushed[j] == notes[j]);
        }
    }
}

/// Deleting notes keeps the ids distinct and below the next id.
pub proof fn lemma_delete_keeps_ids_fresh<T>(notes: Seq<NoteSignal<T>>, next_id: u32, id: u32)
    requires
        ids_fresh(notes, next_id),
    ensures
        ids_fresh(without_id(notes, id), next_id),
    decreases notes.len(),
{
    if notes.len() > 0 {
        let rest = notes.drop_last();
        let last = notes.last();
        assert(ids_fresh(rest, next_id)) by {
            assert forall|i: int| 0 <= i < rest.len() implies (#[trigger] rest[i]).id < next_id by {
                assert(rest[i] == notes[i]);
            }
            assert forall|i: int, j: int| 0 <= i < j < rest.len() implies (#[trigger] rest[i]).id != (#[trigger] rest[j]).id by {
                assert(rest[i] == notes[i]);
                assert(rest[j] == notes[j]);
            }
        }
        lemma_delete_keeps_ids_fresh(rest, next_id, id);
        let w = without_id(rest, id);
        if last.id != id {
            lemma_without_id_members(rest, id);
            let v = w.push(last);
            assert(without_id(notes, id) == v);
            assert(last == notes[notes.len() - 1]);
            assert forall|i: int| 0 <= i < v.len() implies (#[trigger] v[i]).id < next_id by {
                if i < w.len() {
                    assert(v[i] == w[i]);
                }
            }
            assert forall|i: int, j: int| 0 <= i < j < v.len() implies (#[trigger] v[i]).id != (#[trigger] v[j]).id by {
                assert(v[i] == w[i]);
                if j < w.len() {
                    assert(v[j] == w[j]);
                } else {
                    let k = choose|k: int| 0 <= k < rest.len() && #[trigger] w[i] == rest[k];
                    assert(rest[k] == notes[k]);
                }
            }
        }
    }
}

/// Starting from distinct ids below the first next id, the ids stay
/// pairwise distinct, and below the next id, after any add or delete.
pub proof fn lemma_ids_stay_distinct<T>(notes: Seq<NoteSignal<T>>, next_id: u32, value: T, id: u32)
    requires
        ids_fresh(notes, next_id),
    ensures
        next_id < u32::MAX ==> ids_fresh(notes.push(NoteSignal { id: next_id, value }), (next_id + 1) as u32),
        ids_fresh(without_id(notes, id), next_id),
{
    if next_id < u32::MAX {
        lemma_add_keeps_ids_fresh(notes, next_id, value);
    }
    lemma_delete_keeps_ids_fresh(notes, next_id, id);
}

} // verus!
