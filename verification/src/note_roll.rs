use vstd::prelude::*;
use crate::local_state::{
    LocalState, StoreAction, TrackId, WindowKind, set_elements, toggle_selection, toggled,
};
use crate::music::{PitchValue, ScaleValue, scale_value_of, semitone};

verus! {

broadcast use vstd::std_specs::hash::group_hash_axioms;

/// A note shown on the note sequencer; `N` is the note as the project stores it.
pub struct NoteSequencerObject<N>(pub N);

/// Address of one note: a track and the note's index in it.
#[derive(PartialEq, Eq, Structural, Clone, Copy, Debug)]
pub struct NoteSelector {
    pub track_id: TrackId,
    pub index: usize,
}

impl<N> NoteSequencerObject<N> {
    /// Makes the note at `index` the active one and opens the note window.
    pub fn set_active(&self, local_state: &mut LocalState, index: usize)
        ensures
            final(local_state).active_note == Some(index),
            final(local_state).window_state.visible(WindowKind::Note),
            forall|k: WindowKind| k != WindowKind::Note ==>
                #[trigger] final(local_state).window_state.visible(k) == old(local_state).window_state.visible(k),
            final(local_state).active_track == old(local_state).active_track,
            final(local_state).selected_notes@ == old(local_state).selected_notes@,
            final(local_state).active_placement == old(local_state).active_placement,
            final(local_state).selected_placements@ == old(local_state).selected_placements@,
    {
        local_state.window_state.set_visible(WindowKind::Note, true);
        local_state.active_note = Some(index);
    }

    /// The toggle gesture on the selected notes: `Some(i)` adds note `i` if
    /// it is not selected and removes it if it is; `None` clears the selection.
    pub fn set_selected(local_state: &mut LocalState, index: Option<usize>)
        ensures
            match index {
                None => final(local_state).selected_notes@ == Set::<usize>::empty(),
                Some(i) => final(local_state).selected_notes@ == toggled(old(local_state).selected_notes@, i),
            },
            final(local_state).active_note == old(local_state).active_note,
            final(local_state).active_track == old(local_state).active_track,
            final(local_state).active_placement == old(local_state).active_placement,
            final(local_state).selected_placements@ == old(local_state).selected_placements@,
            final(local_state).window_state == old(local_state).window_state,
    {
        toggle_selection(&mut local_state.selected_notes, index);
    }

    /// Deletes the selected notes of the track: no note stays active, and the
    /// store is asked to delete exactly the selected indices, each once.
    pub fn delete_selected(local_state: &mut LocalState, track_id: TrackId) -> (action: StoreAction)
        ensures
            final(local_state).active_note is None,
            match action {
                StoreAction::DeletePlacedNotes { track_id: t, indices } => {
                    &&& t == track_id
                    &&& indices@.to_set() == old(local_state).selected_notes@
                    &&& indices@.no_duplicates()
                },
                _ => false,
            },
            final(local_state).selected_notes@ == old(local_state).selected_notes@,
            final(local_state).active_track == old(local_state).active_track,
            final(local_state).active_placement == old(local_state).active_placement,
            final(local_state).selected_placements@ == old(local_state).selected_placements@,
            final(local_state).window_state == old(local_state).window_state,
    {
        local_state.active_note = None;
        let indices = set_elements(&local_state.selected_notes);
        StoreAction::DeletePlacedNotes { track_id, indices }
    }

    /// Deletes this note (at `note_index` of the track): no note stays active.
    pub fn delete_self(&self, local_state: &mut LocalState, track_id: TrackId, note_index: usize) -> (action: StoreAction)
        ensures
            final(local_state).active_note is None,
            action == (StoreAction::DeletePlacedNote { track_id, index: note_index }),
            final(local_state).selected_notes@ == old(local_state).selected_notes@,
            final(local_state).active_track == old(local_state).active_track,
            final(local_state).active_placement == old(local_state).active_placement,
            final(local_state).selected_placements@ == old(local_state).selected_placements@,
            final(local_state).window_state == old(local_state).window_state,
    {
        local_state.active_note = None;
        StoreAction::DeletePlacedNote { track_id, index: note_index }
    }

    /// The active note's address: there is one when both a track and a note are active.
    pub fn get_active(local_state: &LocalState) -> (sel: Option<NoteSelector>)
        ensures
            sel == match (local_state.active_track, local_state.active_note) {
                (Some(t), Some(i)) => Some(NoteSelector { track_id: t, index: i }),
                _ => None,
            },
    {
        match local_state.active_track {
            None => None,
            Some(track_id) => match local_state.active_note {
                None => None,
                Some(index) => Some(NoteSelector { track_id, index }),
            },
        }
    }

    /// The addresses of the selected notes of the active track; none without an active track.
    pub fn get_selected(local_state: &LocalState) -> (sels: Vec<NoteSelector>)
        ensures
            match local_state.active_track {
                None => sels@.len() == 0,
                Some(t) => {
                    &&& sels@.no_duplicates()
                    &&& forall|i: int| 0 <= i < sels@.len() ==> (#[trigger] sels@[i]).track_id == t
                    &&& forall|n: usize| local_state.selected_notes@.contains(n)
                        <==> sels@.contains(NoteSelector { track_id: t, index: n })
                },
            },
    {
        match local_state.active_track {
            None => Vec::new(),
            Some(track_id) => {
                let indices = set_elements(&local_state.selected_notes);
                let mut sels: Vec<NoteSelector> = Vec::new();
                let mut i: usize = 0;
                while i < indices.len()
                    invariant
                        i <= indices@.len(),
                        sels@.len() == i,
                        forall|j: int| 0 <= j < i ==> #[trigger] sels@[j] == (NoteSelector { track_id, index: indices@[j] }),
                    decreases indices@.len() - i,
                {
                    sels.push(NoteSelector { track_id, index: indices[i] });
                    i = i + 1;
                }
                proof {
                    assert forall|a: int, b: int| 0 <= a < b < sels@.len() implies sels@[a] != sels@[b] by {
                        assert(indices@[a] != indices@[b]);
                    }
                    assert forall|n: usize| local_state.selected_notes@.contains(n)
                        implies sels@.contains(NoteSelector { track_id, index: n }) by {
                        assert(indices@.to_set().contains(n));
                        let j: int = choose|j: int| 0 <= j < indices@.len() && indices@[j] == n;
                        assert(sels@[j] == (NoteSelector { track_id, index: n }));
                    }
                    assert forall|n: usize| sels@.contains(NoteSelector { track_id, index: n })
                        implies local_state.selected_notes@.contains(n) by {
                        let j: int = choose|j: int| 0 <= j < sels@.len() && sels@[j] == (NoteSelector { track_id, index: n });
                        assert(indices@.to_set().contains(indices@[j]));
                    }
                }
                sels
            },
        }
    }
}

} // verus!

verus! {

/// What a pointer gesture on one note of the sequencer does: a shift-click
/// toggles the note's selection; otherwise a double click clears the
/// selection and makes the note active; otherwise a secondary click clears
/// the selection and deletes the note. The returned action, if any, is for
/// the store.
pub fn note_interaction<N>(
    object: &NoteSequencerObject<N>,
    local_state: &mut LocalState,
    track_id: TrackId,
    index: usize,
    shift_click: bool,
    double_click: bool,
    secondary_click: bool,
) -> (action: Option<StoreAction>)
    ensures
        final(local_state).active_track == old(local_state).active_track,
        final(local_state).active_placement == old(local_state).active_placement,
        final(local_state).selected_placements@ == old(local_state).selected_placements@,
        if shift_click {
            &&& action is None
            &&& final(local_state).selected_notes@ == toggled(old(local_state).selected_notes@, index)
            &&& final(local_state).active_note == old(local_state).active_note
            &&& final(local_state).window_state == old(local_state).window_state
        } else if double_click {
            &&& action is None
            &&& final(local_state).selected_notes@ == Set::<usize>::empty()
            &&& final(local_state).active_note == Some(index)
            &&& final(local_state).window_state.visible(WindowKind::Note)
            &&& forall|k: WindowKind| k != WindowKind::Note ==>
                #[trigger] final(local_state).window_state.visible(k) == old(local_state).window_state.visible(k)
        } else if secondary_click {
            &&& action == Some(StoreAction::DeletePlacedNote { track_id, index })
            &&& final(local_state).selected_notes@ == Set::<usize>::empty()
            &&& final(local_state).active_note is None
            &&& final(local_state).window_state == old(local_state).window_state
        } else {
            &&& action is None
            &&& final(local_state).selected_notes@ == old(local_state).selected_notes@
            &&& final(local_state).active_note == old(local_state).active_note
            &&& final(local_state).window_state == old(local_state).window_state
        },
{
    if shift_click {
        NoteSequencerObject::<N>::set_selected(local_state, Some(index));
        None
    } else if double_click {
        NoteSequencerObject::<N>::set_selected(local_state, None);
        object.set_active(local_state, index);
        None
    } else if secondary_click {
        NoteSequencerObject::<N>::set_selected(local_state, None);
        Some(object.delete_self(local_state, track_id, index))
    } else {
        None
    }
}

/// What the sequencer canvas does with keyboard and pointer input.
#[derive(Debug, Clone, PartialEq, Eq)]
pub enum SequencerResponse {
    /// Nothing to do.
    Nothing,
    /// Ask the store to delete notes.
    Delete(StoreAction),
    /// Add a new note where the canvas was clicked.
    AddNote,
}

/// Delete or backspace deletes the selected notes and clears the selection;
/// otherwise a click on the canvas without shift clears the selection and
/// asks for a new note at the click.
pub fn sequencer_input(
    local_state: &mut LocalState,
    track_id: TrackId,
    delete_pressed: bool,
    clicked: bool,
    shift_held: bool,
) -> (response: SequencerResponse)
    ensures
        final(local_state).active_track == old(local_state).active_track,
        final(local_state).active_placement == old(local_state).active_placement,
        final(local_state).selected_placements@ == old(local_state).selected_placements@,
        final(local_state).window_state == old(local_state).window_state,
        if delete_pressed {
            &&& final(local_state).selected_notes@ == Set::<usize>::empty()
            &&& final(local_state).active_note is None
            &&& match response {
                SequencerResponse::Delete(StoreAction::DeletePlacedNotes { track_id: t, indices }) => {
                    &&& t == track_id
                    &&& indices@.to_set() == old(local_state).selected_notes@
                    &&& indices@.no_duplicates()
                },
                _ => false,
            }
        } else if clicked && !shift_held {
            &&& final(local_state).selected_notes@ == Set::<usize>::empty()
            &&& final(local_state).active_note == old(local_state).active_note
            &&& response is AddNote
        } else {
            &&& final(local_state).selected_notes@ == old(local_state).selected_notes@
            &&& final(local_state).active_note == old(local_state).active_note
            &&& response is Nothing
        },
{
    if delete_pressed {
        let action = NoteSequencerObject::<()>::delete_selected(local_state, track_id);
        NoteSequencerObject::<()>::set_selected(local_state, None);
        SequencerResponse::Delete(action)
    } else if clicked && !shift_held {
        NoteSequencerObject::<()>::set_selected(local_state, None);
        SequencerResponse::AddNote
    } else {
        SequencerResponse::Nothing
    }
}

/// Whether background row `y` of the note roll (row 0 at the top, at the
/// highest note) is drawn as a white-note row: the row's pitch class,
/// counted down from the top row's class by `c_delta`, is in `scale`.
pub open spec fn white_row_spec(y: int, c_delta: int, scale: Seq<ScaleValue>) -> bool {
    scale.contains(scale_value_of((-(y + c_delta)) % 12))
}

/// The pattern of highlighted background rows of the note roll. `scale` is
/// the list of pitch classes to highlight (the C major scale for white
/// notes) and `c_delta` is the distance from C to the pitch class of the
/// top row.
pub fn is_white_note_row(y: i32, c_delta: i32, scale: &Vec<ScaleValue>) -> (r: bool)
    requires
        i32::MIN < y + c_delta <= i32::MAX,
    ensures
        r == white_row_spec(y as int, c_delta as int, scale@),
{
    let x: i32 = 0 - (y + c_delta);
    let m: i32 = x % 12;
    let r: i32 = if m < 0 { m + 12 } else { m };
    assert(r == (x as int) % 12) by {
        assert(x == 12 * (x / 12) + (x % 12)) by (nonlinear_arith);
    }
    let sv = ScaleValue::from_semitone(r as u8);
    let mut i: usize = 0;
    while i < scale.len()
        invariant
            i <= scale@.len(),
            sv == scale_value_of((x as int) % 12),
            x as int == -(y as int + c_delta as int),
            forall|j: int| 0 <= j < i ==> scale@[j] != sv,
        decreases scale@.len() - i,
    {
        if scale[i] == sv {
            assert(scale@[i as int] == sv);
            return true;
        }
        i = i + 1;
    }
    false
}

/// The highlighted rows repeat every octave.
pub proof fn lemma_white_rows_repeat(y: int, c_delta: int, scale: Seq<ScaleValue>)
    ensures
        white_row_spec(y + 12, c_delta, scale) == white_row_spec(y, c_delta, scale),
{
    assert((-(y + 12 + c_delta)) % 12 == (-(y + c_delta)) % 12) by (nonlinear_arith);
}

/// With `c_delta` set to the distance from the top row's pitch class down
/// to C, row `y` is highlighted exactly when the pitch class `y` semitones
/// below the top row is in `scale`: the rows walk down the scale from the
/// top note.
pub proof fn lemma_white_rows_follow_pitch(y: int, top: ScaleValue, scale: Seq<ScaleValue>)
    ensures
        white_row_spec(y, 0 - semitone(top), scale) == scale.contains(scale_value_of((semitone(top) - y) % 12)),
{
    assert(-(y + (0 - semitone(top))) == semitone(top) - y);
}

/// The pitches of the shaded background rows of the roll: every even pitch
/// from `min_note` to `max_note`, lowest first.
pub fn background_pitches(min_note: PitchValue, max_note: PitchValue) -> (pitches: Vec<PitchValue>)
    ensures
        forall|i: int, j: int| 0 <= i < j < pitches@.len() ==> pitches@[i] < pitches@[j],
        forall|p: int| #![trigger pitches@.contains(p as PitchValue)]
            min_note <= p <= max_note ==> (pitches@.contains(p as PitchValue) <==> p % 2 == 0),
        forall|i: int| 0 <= i < pitches@.len() ==>
            min_note <= #[trigger] pitches@[i] <= max_note && pitches@[i] % 2 == 0,
{
    let mut pitches: Vec<PitchValue> = Vec::new();
    if min_note > max_note {
        return pitches;
    }
    let mut p: PitchValue = min_note;
    loop
        invariant
            min_note <= p <= max_note,
            forall|i: int, j: int| 0 <= i < j < pitches@.len() ==> pitches@[i] < pitches@[j],
            forall|i: int| 0 <= i < pitches@.len() ==>
                min_note <= #[trigger] pitches@[i] < p && pitches@[i] % 2 == 0,
            forall|q: int| #![trigger pitches@.contains(q as PitchValue)]
                min_note <= q < p ==> (pitches@.contains(q as PitchValue) <==> q % 2 == 0),
        decreases max_note - p,
    {
        let ghost before = pitches@;
        if p % 2 == 0 {
            pitches.push(p);
        }
        proof {
            assert forall|q: int| #![trigger pitches@.contains(q as PitchValue)]
                min_note <= q < p + 1 implies (pitches@.contains(q as PitchValue) <==> q % 2 == 0) by {
                if q < p {
                    if before.contains(q as PitchValue) {
                        let k: int = choose|k: int| 0 <= k < before.len() && before[k] == q as PitchValue;
                        assert(pitches@[k] == q as PitchValue);
                    }
                    if pitches@.contains(q as PitchValue) {
                        let k: int = choose|k: int| 0 <= k < pitches@.len() && pitches@[k] == q as PitchValue;
                        if k < before.len() {
                            assert(before[k] == q as PitchValue);
                        }
                    }
                } else if q % 2 == 0 {
                    assert(pitches@[pitches@.len() - 1] == p);
                } else {
                    if pitches@.contains(q as PitchValue) {
                        let k: int = choose|k: int| 0 <= k < pitches@.len() && pitches@[k] == q as PitchValue;
                    }
                }
            }
        }
        if p == max_note {
            return pitches;
        }
        p = p + 1;
    }
}

/// One edit the sequencer makes to a note while it is dragged or resized.
#[derive(PartialEq, Eq, Structural, Clone, Copy, Debug)]
pub enum EditStep {
    /// Silence the note while it moves.
    NoteOff,
    /// Move the note to the pitch under the pointer.
    SetPitch,
    /// Move the note to the (quantised) beat under the pointer.
    SetOffset,
    /// Sound the note again.
    NoteOn,
    /// Set the note's length to reach the (quantised) beat under the pointer.
    SetDuration,
}

/// The edits of the move part of a note drag, in order.
pub open spec fn move_steps(dragged: bool, moved_vertically: bool, moved_horizontally: bool, move_finished: bool) -> Seq<EditStep> {
    (if dragged { seq![EditStep::NoteOff] } else { Seq::empty() })
        + (if dragged && moved_vertically { seq![EditStep::SetPitch] } else { Seq::empty() })
        + (if dragged && moved_horizontally { seq![EditStep::SetOffset] } else { Seq::empty() })
        + (if move_finished { seq![EditStep::NoteOn] } else { Seq::empty() })
}

/// The edits a frame of dragging makes to one note, and whether the
/// interaction ended (so the edits are committed as one undo step). A
/// primary-button drag silences the note and moves it along the axes it
/// moved on; when the drag ends the note sounds again. Only if the move did
/// not end this frame is the resize handle looked at: a pointer on it sets
/// the note's length, and its release also ends the interaction.
pub fn drag_steps(
    dragged: bool,
    moved_vertically: bool,
    moved_horizontally: bool,
    move_finished: bool,
    resize_pointer: bool,
    resize_finished: bool,
) -> (r: (Vec<EditStep>, bool))
    ensures
        r.0@ == move_steps(dragged, moved_vertically, moved_horizontally, move_finished)
            + (if !move_finished && resize_pointer { seq![EditStep::SetDuration] } else { Seq::empty() }),
        r.1 == (move_finished || resize_finished),
        dragged ==> r.0@.len() > 0 && r.0@[0] == EditStep::NoteOff,
        r.0@.contains(EditStep::NoteOff) <==> dragged,
        r.0@.contains(EditStep::SetPitch) <==> dragged && moved_vertically,
        r.0@.contains(EditStep::SetOffset) <==> dragged && moved_horizontally,
        r.0@.contains(EditStep::NoteOn) <==> move_finished,
        r.0@.contains(EditStep::SetDuration) <==> !move_finished && resize_pointer,
        r.0@.no_duplicates(),
{
    proof {
        lemma_drag_edits(dragged, moved_vertically, moved_horizontally, move_finished, resize_pointer);
    }
    let mut steps: Vec<EditStep> = Vec::new();
    if dragged {
        steps.push(EditStep::NoteOff);
        if moved_vertically {
            steps.push(EditStep::SetPitch);
        }
        if moved_horizontally {
            steps.push(EditStep::SetOffset);
        }
    }
    if move_finished {
        steps.push(EditStep::NoteOn);
        assert(steps@ =~= move_steps(dragged, moved_vertically, moved_horizontally, move_finished));
        return (steps, true);
    }
    assert(steps@ =~= move_steps(dragged, moved_vertically, moved_horizontally, move_finished));
    let ghost moved = steps@;
    if resize_pointer {
        steps.push(EditStep::SetDuration);
    }
    assert(steps@ =~= moved + (if resize_pointer { seq![EditStep::SetDuration] } else { Seq::<EditStep>::empty() }));
    (steps, resize_finished)
}

/// What a frame of dragging does to a note, whatever the pointer did: a
/// primary drag always silences the note first, even when the pointer did
/// not move; the note is moved in pitch only when the pointer moved
/// vertically and in time only when it moved horizontally; it sounds again
/// exactly when the move ends; its length is set only while the resize
/// handle is held and the move did not end; no edit is made twice; and the
/// edits come in the order note off, pitch, offset, note on, length.
pub proof fn lemma_drag_edits(
    dragged: bool,
    moved_vertically: bool,
    moved_horizontally: bool,
    move_finished: bool,
    resize_pointer: bool,
)
    ensures
        ({
            let steps = move_steps(dragged, moved_vertically, moved_horizontally, move_finished)
                + (if !move_finished && resize_pointer { seq![EditStep::SetDuration] } else { Seq::empty() });
            &&& dragged ==> steps.len() > 0 && steps[0] == EditStep::NoteOff
            &&& steps.contains(EditStep::NoteOff) <==> dragged
            &&& steps.contains(EditStep::SetPitch) <==> dragged && moved_vertically
            &&& steps.contains(EditStep::SetOffset) <==> dragged && moved_horizontally
            &&& steps.contains(EditStep::NoteOn) <==> move_finished
            &&& steps.contains(EditStep::SetDuration) <==> !move_finished && resize_pointer
            &&& steps.no_duplicates()
            &&& forall|i: int, j: int| 0 <= i < j < steps.len() ==> edit_rank(#[trigger] steps[i]) < edit_rank(#[trigger] steps[j])
        }),
{
    let steps = move_steps(dragged, moved_vertically, moved_horizontally, move_finished)
        + (if !move_finished && resize_pointer { seq![EditStep::SetDuration] } else { Seq::empty() });
    let mut expected: Seq<EditStep> = Seq::empty();
    if dragged {
        expected = expected.push(EditStep::NoteOff);
        if moved_vertically {
            expected = expected.push(EditStep::SetPitch);
        }
        if moved_horizontally {
            expected = expected.push(EditStep::SetOffset);
        }
    }
    if move_finished {
        expected = expected.push(EditStep::NoteOn);
    }
    if !move_finished && resize_pointer {
        expected = expected.push(EditStep::SetDuration);
    }
    assert(steps =~= expected);
    assert forall|i: int, j: int| 0 <= i < j < steps.len() implies edit_rank(steps[i]) < edit_rank(steps[j]) by {}
    assert forall|e: EditStep| steps.contains(e) implies
        (exists|k: int| 0 <= k < steps.len() && steps[k] == e) by {}
    if dragged {
        assert(steps[0] == EditStep::NoteOff);
    }
    if dragged && moved_vertically {
        assert(steps[1] == EditStep::SetPitch);
    }
    if dragged && moved_horizontally {
        let k = if moved_vertically { 2int } else { 1int };
        assert(steps[k] == EditStep::SetOffset);
    }
    if move_finished {
        let k = steps.len() - 1;
        assert(steps[k] == EditStep::NoteOn);
    }
    if !move_finished && resize_pointer {
        let k = steps.len() - 1;
        assert(steps[k] == EditStep::SetDuration);
    }
    assert forall|i: int, j: int| 0 <= i < j < steps.len() implies steps[i] != steps[j] by {
        assert(edit_rank(steps[i]) < edit_rank(steps[j]));
    }
}

/// The order in which the edits of one frame are made.
pub open spec fn edit_rank(e: EditStep) -> int {
    match e {
        EditStep::NoteOff => 0,
        EditStep::SetPitch => 1,
        EditStep::SetOffset => 2,
        EditStep::NoteOn => 3,
        EditStep::SetDuration => 4,
    }
}

} // verus!
