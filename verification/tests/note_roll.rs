use hydric::local_state::{LocalState, StoreAction, WindowKind};
use hydric::music::ScaleValue;
use hydric::note_roll::{
    background_pitches, drag_steps, is_white_note_row, note_interaction, sequencer_input, EditStep,
    NoteSequencerObject, SequencerResponse,
};
use std::collections::HashSet;

fn c_major() -> Vec<ScaleValue> {
    vec![
        ScaleValue::C,
        ScaleValue::D,
        ScaleValue::E,
        ScaleValue::F,
        ScaleValue::G,
        ScaleValue::A,
        ScaleValue::B,
    ]
}

#[test]
fn white_rows_below_a_c() {
    // Top row is a C: rows go C, B, A#, A, G#, G, F#, F, E, D#, D, C#, C, ...
    let scale = c_major();
    let rows: Vec<bool> = (0..13).map(|y| is_white_note_row(y, 0, &scale)).collect();
    assert_eq!(
        rows,
        vec![true, true, false, true, false, true, false, true, true, false, true, false, true]
    );
}

#[test]
fn white_rows_repeat_every_octave() {
    let scale = c_major();
    for c_delta in -14..14 {
        for y in -30..30 {
            assert_eq!(is_white_note_row(y + 12, c_delta, &scale), is_white_note_row(y, c_delta, &scale));
        }
    }
}

#[test]
fn white_rows_shift_with_the_top_note() {
    // Top row a B (one below C): delta 1 turns row 0 into B, row 1 into A#.
    let scale = c_major();
    assert!(is_white_note_row(0, 1, &scale));
    assert!(!is_white_note_row(1, 1, &scale));
    assert!(!is_white_note_row(0, 0, &vec![]));
}

#[test]
fn background_rows_are_the_even_pitches() {
    assert_eq!(background_pitches(9, 16), vec![10, 12, 14, 16]);
    assert_eq!(background_pitches(-3, 2), vec![-2, 0, 2]);
    assert!(background_pitches(5, 4).is_empty());
    assert!(background_pitches(7, 7).is_empty());
}

#[test]
fn shift_click_toggles_selection() {
    let mut s = LocalState::new();
    let o = NoteSequencerObject(());
    assert!(note_interaction(&o, &mut s, 1, 3, true, true, true).is_none());
    assert_eq!(s.selected_notes, HashSet::from([3]));
    assert!(note_interaction(&o, &mut s, 1, 3, true, false, false).is_none());
    assert!(s.selected_notes.is_empty());
}

#[test]
fn double_click_activates() {
    let mut s = LocalState::new();
    s.selected_notes.insert(1);
    let o = NoteSequencerObject(());
    assert!(note_interaction(&o, &mut s, 1, 3, false, true, true).is_none());
    assert!(s.selected_notes.is_empty());
    assert_eq!(s.active_note, Some(3));
    assert!(s.window_state.get_visible(WindowKind::Note));
}

#[test]
fn secondary_click_deletes() {
    let mut s = LocalState::new();
    s.selected_notes.insert(1);
    s.active_note = Some(1);
    let o = NoteSequencerObject(());
    assert_eq!(
        note_interaction(&o, &mut s, 2, 3, false, false, true),
        Some(StoreAction::DeletePlacedNote { track_id: 2, index: 3 })
    );
    assert!(s.selected_notes.is_empty());
    assert_eq!(s.active_note, None);
    assert!(note_interaction(&o, &mut s, 2, 3, false, false, false).is_none());
}

#[test]
fn delete_key_deletes_the_selection() {
    let mut s = LocalState::new();
    s.selected_notes = HashSet::from([0, 2]);
    s.active_note = Some(2);
    match sequencer_input(&mut s, 5, true, true, false) {
        SequencerResponse::Delete(StoreAction::DeletePlacedNotes { track_id, mut indices }) => {
            assert_eq!(track_id, 5);
            indices.sort();
            assert_eq!(indices, vec![0, 2]);
        }
        other => panic!("unexpected {:?}", other),
    }
    assert!(s.selected_notes.is_empty());
    assert_eq!(s.active_note, None);
}

#[test]
fn click_on_the_canvas_adds_a_note() {
    let mut s = LocalState::new();
    s.selected_notes.insert(4);
    assert_eq!(sequencer_input(&mut s, 5, false, true, true), SequencerResponse::Nothing);
    assert_eq!(s.selected_notes, HashSet::from([4]));
    assert_eq!(sequencer_input(&mut s, 5, false, true, false), SequencerResponse::AddNote);
    assert!(s.selected_notes.is_empty());
    assert_eq!(sequencer_input(&mut s, 5, false, false, false), SequencerResponse::Nothing);
}

#[test]
fn dragging_a_note() {
    assert_eq!(
        drag_steps(true, true, true, false, false, false),
        (vec![EditStep::NoteOff, EditStep::SetPitch, EditStep::SetOffset], false)
    );
    assert_eq!(drag_steps(true, false, true, false, false, false), (vec![EditStep::NoteOff, EditStep::SetOffset], false));
    assert_eq!(
        drag_steps(true, true, false, true, true, false),
        (vec![EditStep::NoteOff, EditStep::SetPitch, EditStep::NoteOn], true)
    );
}

#[test]
fn resizing_only_when_the_move_goes_on() {
    assert_eq!(drag_steps(false, false, false, false, true, false), (vec![EditStep::SetDuration], false));
    assert_eq!(drag_steps(false, false, false, false, true, true), (vec![EditStep::SetDuration], true));
    assert_eq!(drag_steps(false, false, false, true, true, true), (vec![EditStep::NoteOn], true));
    assert_eq!(drag_steps(false, false, false, false, false, false), (vec![], false));
}

#[test]
fn white_rows_walk_down_from_the_top_note() {
    // Top row an E (4 semitones above C): rows go E, D#, D, C#, C, B, ...
    let scale = c_major();
    let rows: Vec<bool> = (0..6).map(|y| is_white_note_row(y, -4, &scale)).collect();
    assert_eq!(rows, vec![true, false, true, false, true, true]);
}
