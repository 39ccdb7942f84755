use hydric::local_state::{LocalState, StoreAction, WindowKind, WindowState};
use hydric::note_roll::{NoteSelector, NoteSequencerObject};
use hydric::placed_track::{note_view_close, note_view_delete, placement_view_delete, PlacedTrack, PlacementType};
use std::collections::HashSet;

type Obj = NoteSequencerObject<()>;

#[test]
fn toggling_a_note_twice_restores_the_selection() {
    let mut s = LocalState::new();
    Obj::set_selected(&mut s, Some(3));
    Obj::set_selected(&mut s, Some(5));
    assert_eq!(s.selected_notes, HashSet::from([3, 5]));
    Obj::set_selected(&mut s, Some(3));
    assert_eq!(s.selected_notes, HashSet::from([5]));
    Obj::set_selected(&mut s, Some(3));
    assert_eq!(s.selected_notes, HashSet::from([3, 5]));
    Obj::set_selected(&mut s, None);
    assert!(s.selected_notes.is_empty());
}

#[test]
fn activating_a_note_opens_the_note_window() {
    let mut s = LocalState::new();
    s.active_track = Some(7);
    NoteSequencerObject(()).set_active(&mut s, 2);
    assert_eq!(s.active_note, Some(2));
    assert!(s.window_state.get_visible(WindowKind::Note));
    assert!(!s.window_state.get_visible(WindowKind::NoteRoll));
    assert_eq!(Obj::get_active(&s), Some(NoteSelector { track_id: 7, index: 2 }));
}

#[test]
fn no_active_note_without_an_active_track() {
    let mut s = LocalState::new();
    s.active_note = Some(1);
    assert_eq!(Obj::get_active(&s), None);
    s.selected_notes.insert(4);
    assert!(Obj::get_selected(&s).is_empty());
}

#[test]
fn selected_note_selectors() {
    let mut s = LocalState::new();
    s.active_track = Some(9);
    s.selected_notes = HashSet::from([1, 4]);
    let mut sels = Obj::get_selected(&s);
    sels.sort_by_key(|x| x.index);
    assert_eq!(sels, vec![NoteSelector { track_id: 9, index: 1 }, NoteSelector { track_id: 9, index: 4 }]);
}

#[test]
fn deleting_selected_notes() {
    let mut s = LocalState::new();
    s.active_note = Some(4);
    s.selected_notes = HashSet::from([1, 4, 6]);
    match Obj::delete_selected(&mut s, 11) {
        StoreAction::DeletePlacedNotes { track_id, mut indices } => {
            assert_eq!(track_id, 11);
            indices.sort();
            assert_eq!(indices, vec![1, 4, 6]);
        }
        other => panic!("unexpected {:?}", other),
    }
    assert_eq!(s.active_note, None);
}

#[test]
fn deleting_one_note() {
    let mut s = LocalState::new();
    s.active_note = Some(0);
    let a = NoteSequencerObject(()).delete_self(&mut s, 3, 5);
    assert_eq!(a, StoreAction::DeletePlacedNote { track_id: 3, index: 5 });
    assert_eq!(s.active_note, None);
}

#[test]
fn activating_placements() {
    let mut s = LocalState::new();
    PlacedTrack { kind: PlacementType::Track { track_id: 4, generator_id: 1 } }.set_active(&mut s, 40);
    assert_eq!(s.active_track, Some(4));
    assert_eq!(s.active_placement, Some(40));
    assert!(s.window_state.get_visible(WindowKind::NoteRoll));
    assert!(s.window_state.get_visible(WindowKind::Placement));
    PlacedTrack { kind: PlacementType::Sample { sample_id: 2 } }.set_active(&mut s, 41);
    assert_eq!(s.active_track, Some(4));
    assert_eq!(s.active_placement, Some(41));
    PlacedTrack { kind: PlacementType::DrumTrack { track_id: 8 } }.set_active(&mut s, 42);
    assert_eq!(s.active_track, Some(8));
}

#[test]
fn deleting_selected_placements_deactivates_only_a_selected_one() {
    let mut s = LocalState::new();
    PlacedTrack::set_selected(&mut s, Some(10));
    PlacedTrack::set_selected(&mut s, Some(11));
    s.active_placement = Some(12);
    match PlacedTrack::delete_selected(&mut s) {
        StoreAction::DeletePlacements { mut ids } => {
            ids.sort();
            assert_eq!(ids, vec![10, 11]);
        }
        other => panic!("unexpected {:?}", other),
    }
    assert_eq!(s.active_placement, Some(12));
    s.active_placement = Some(11);
    PlacedTrack::delete_selected(&mut s);
    assert_eq!(s.active_placement, None);
}

#[test]
fn deleting_one_placement() {
    let mut s = LocalState::new();
    let p = PlacedTrack { kind: PlacementType::Sample { sample_id: 1 } };
    s.active_placement = Some(5);
    assert_eq!(p.delete_self(&mut s, 6), StoreAction::DeletePlacement { id: 6 });
    assert_eq!(s.active_placement, Some(5));
    assert_eq!(p.delete_self(&mut s, 5), StoreAction::DeletePlacement { id: 5 });
    assert_eq!(s.active_placement, None);
}

#[test]
fn view_delete_buttons() {
    let mut s = LocalState::new();
    s.window_state.set_visible(WindowKind::Placement, true);
    s.window_state.set_visible(WindowKind::Mixer, true);
    s.active_placement = Some(3);
    s.selected_placements = HashSet::from([3, 4]);
    assert_eq!(placement_view_delete(&mut s, 3), StoreAction::DeletePlacement { id: 3 });
    assert_eq!(s.active_placement, None);
    assert_eq!(s.selected_placements, HashSet::from([4]));
    assert!(!s.window_state.get_visible(WindowKind::Placement));
    assert!(s.window_state.get_visible(WindowKind::Mixer));

    s.window_state.set_visible(WindowKind::Note, true);
    s.active_note = Some(2);
    s.selected_notes = HashSet::from([2, 7]);
    assert_eq!(note_view_delete(&mut s, 1, 2), StoreAction::DeletePlacedNote { track_id: 1, index: 2 });
    assert_eq!(s.active_note, None);
    assert_eq!(s.selected_notes, HashSet::from([7]));
    assert!(!s.window_state.get_visible(WindowKind::Note));

    s.window_state.set_visible(WindowKind::Note, true);
    s.active_note = Some(7);
    note_view_close(&mut s);
    assert_eq!(s.active_note, None);
    assert!(!s.window_state.get_visible(WindowKind::Note));
}

#[test]
fn window_toggles_and_close_all() {
    let mut w = WindowState::new();
    w.toggle(WindowKind::Mixer);
    assert!(w.get_visible(WindowKind::Mixer));
    assert!(!w.get_visible(WindowKind::Scale));
    w.toggle(WindowKind::Scale);
    w.toggle(WindowKind::Mixer);
    assert!(!w.get_visible(WindowKind::Mixer));
    assert!(w.get_visible(WindowKind::Scale));
    w.close_all();
    assert_eq!(w, WindowState::new());
}

#[test]
fn generator_windows_open_one_by_one() {
    let mut w = WindowState::new();
    w.toggle(WindowKind::Generator(7));
    assert!(w.get_visible(WindowKind::Generator(7)));
    assert!(!w.get_visible(WindowKind::Generator(8)));
    assert!(!w.get_visible(WindowKind::GeneratorList));
    w.set_visible(WindowKind::Generator(8), true);
    w.toggle(WindowKind::Generator(7));
    assert!(!w.get_visible(WindowKind::Generator(7)));
    assert!(w.get_visible(WindowKind::Generator(8)));
    w.close_all();
    assert!(!w.get_visible(WindowKind::Generator(8)));
    assert_eq!(w, WindowState::new());
}
