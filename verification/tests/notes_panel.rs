use hydric::notes_panel::{NoteSignal, NotesPanel};

fn ids(p: &NotesPanel<&'static str>) -> Vec<u32> {
    p.notes.iter().map(|n| n.id).collect()
}

#[test]
fn next_id_starts_at_the_number_of_notes() {
    let p = NotesPanel::new(vec![NoteSignal { id: 0, value: "a" }, NoteSignal { id: 1, value: "b" }]);
    assert_eq!(p.next_note_id, 2);
    assert_eq!(NotesPanel::<u8>::new(vec![]).next_note_id, 0);
}

#[test]
fn adding_notes_gives_fresh_ids() {
    let mut p = NotesPanel::new(vec![]);
    p.add_note("a");
    p.add_note("b");
    p.add_note("c");
    assert_eq!(ids(&p), vec![0, 1, 2]);
    assert_eq!(p.next_note_id, 3);
    assert_eq!(p.notes[2].value, "c");
}

#[test]
fn deleting_keeps_the_others_in_order() {
    let mut p = NotesPanel::new(vec![]);
    for v in ["a", "b", "c", "d"] {
        p.add_note(v);
    }
    p.delete_note(1);
    assert_eq!(ids(&p), vec![0, 2, 3]);
    p.delete_note(9);
    assert_eq!(ids(&p), vec![0, 2, 3]);
    assert_eq!(p.next_note_id, 4);
}

#[test]
fn add_then_delete_restores_the_list() {
    let mut p = NotesPanel::new(vec![NoteSignal { id: 0, value: "a" }, NoteSignal { id: 1, value: "b" }]);
    let id = p.next_note_id;
    p.add_note("new");
    p.delete_note(id);
    assert_eq!(ids(&p), vec![0, 1]);
    assert_eq!(p.notes[1].value, "b");
}

#[test]
fn duplicate_ids_are_deleted_together() {
    // The next id is the number of notes, so it can repeat an id the panel was given.
    let mut p = NotesPanel::new(vec![NoteSignal { id: 1, value: "a" }]);
    p.add_note("b");
    assert_eq!(ids(&p), vec![1, 1]);
    p.delete_note(1);
    assert!(p.notes.is_empty());
}

#[test]
fn ids_stay_distinct_through_adds_and_deletes() {
    let mut p = NotesPanel::new(vec![NoteSignal { id: 1, value: "a" }, NoteSignal { id: 0, value: "b" }]);
    p.add_note("c");
    p.delete_note(0);
    p.add_note("d");
    p.delete_note(2);
    p.add_note("e");
    let got = ids(&p);
    assert_eq!(got, vec![1, 3, 4]);
    for (i, a) in got.iter().enumerate() {
        assert!(*a < p.next_note_id);
        for b in &got[i + 1..] {
            assert_ne!(a, b);
        }
    }
}
