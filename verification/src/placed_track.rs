use vstd::prelude::*;
pub use crate::local_state::GeneratorId;
use crate::local_state::{
    LocalState, PlacementId, StoreAction, TrackId, WindowKind, set_elements, toggle_selection, toggled,
};

verus! {

broadcast use vstd::std_specs::hash::group_hash_axioms;

/// Identifier of an audio sample in the project.
pub type SampleId = u64;

/// What a placement on the arrangement plays.
#[derive(PartialEq, Eq, Structural, Clone, Copy, Debug)]
pub enum PlacementType {
    /// The notes of a track, played by a generator.
    Track { track_id: TrackId, generator_id: GeneratorId },
    /// An audio sample.
    Sample { sample_id: SampleId },
    /// A drum track, one sample per pitch.
    DrumTrack { track_id: TrackId },
}

/// A placement on the arrangement, as the editing logic sees it.
pub struct PlacedTrack {
    pub kind: PlacementType,
}

/// The track a placement edits in the note roll, if it has one.
pub open spec fn placement_track(kind: PlacementType) -> Option<TrackId> {
    match kind {
        PlacementType::Track { track_id, .. } => Some(track_id),
        PlacementType::DrumTrack { track_id } => Some(track_id),
        PlacementType::Sample { .. } => None,
    }
}

impl PlacedTrack {
    /// Makes placement `id` the active one: its track (for track and drum
    /// placements) becomes the active track, and the note roll and placement
    /// windows open.
    pub fn set_active(&self, local_state: &mut LocalState, id: PlacementId)
        ensures
            final(local_state).active_placement == Some(id),
            final(local_state).active_track == match placement_track(self.kind) {
                Some(t) => Some(t),
                None => old(local_state).active_track,
            },
            final(local_state).window_state.visible(WindowKind::NoteRoll),
            final(local_state).window_state.visible(WindowKind::Placement),
            forall|k: WindowKind| k != WindowKind::NoteRoll && k != WindowKind::Placement ==>
                #[trigger] final(local_state).window_state.visible(k) == old(local_state).window_state.visible(k),
            final(local_state).active_note == old(local_state).active_note,
            final(local_state).selected_notes@ == old(local_state).selected_notes@,
            final(local_state).selected_placements@ == old(local_state).selected_placements@,
    {
        match self.kind {
            PlacementType::DrumTrack { track_id } => {
                local_state.active_track = Some(track_id);
            },
            PlacementType::Track { track_id, .. } => {
                local_state.active_track = Some(track_id);
            },
            _ => {},
        }
        local_state.window_state.set_visible(WindowKind::NoteRoll, true);
        local_state.window_state.set_visible(WindowKind::Placement, true);
        local_state.active_placement = Some(id);
    }

    /// The toggle gesture on the selected placements; `None` clears the selection.
    pub fn set_selected(local_state: &mut LocalState, id: Option<PlacementId>)
        ensures
            match id {
                None => final(local_state).selected_placements@ == Set::<PlacementId>::empty(),
                Some(i) => final(local_state).selected_placements@ == toggled(old(local_state).selected_placements@, i),
            },
            final(local_state).active_placement == old(local_state).active_placement,
            final(local_state).active_track == old(local_state).active_track,
            final(local_state).active_note == old(local_state).active_note,
            final(local_state).selected_notes@ == old(local_state).selected_notes@,
            final(local_state).window_state == old(local_state).window_state,
    {
        toggle_selection(&mut local_state.selected_placements, id);
    }

    /// Deletes the selected placements: the active placement is deactivated
    /// if it is among them, and the store is asked to delete exactly the
    /// selected ids, each once.
    pub fn delete_selected(local_state: &mut LocalState) -> (action: StoreAction)
        ensures
            final(local_state).active_placement == match old(local_state).active_placement {
                Some(id) if old(local_state).selected_placements@.contains(id) => None,
                other => other,
            },
            match action {
                StoreAction::DeletePlacements { ids } => {
                    &&& ids@.to_set() == old(local_state).selected_placements@
                    &&& ids@.no_duplicates()
                },
                _ => false,
            },
            final(local_state).selected_placements@ == old(local_state).selected_placements@,
            final(local_state).active_track == old(local_state).active_track,
            final(local_state).active_note == old(local_state).active_note,
            final(local_state).selected_notes@ == old(local_state).selected_notes@,
            final(local_state).window_state == old(local_state).window_state,
    {
        match local_state.active_placement {
            Some(id) => {
                if local_state.selected_placements.contains(&id) {
                    local_state.active_placement = None;
                }
            },
            None => {},
        }
        let ids = set_elements(&local_state.selected_placements);
        StoreAction::DeletePlacements { ids }
    }

    /// Deletes placement `placement_id`: it stops being active if it was.
    pub fn delete_self(&self, local_state: &mut LocalState, placement_id: PlacementId) -> (action: StoreAction)
        ensures
            final(local_state).active_placement == if old(local_state).active_placement == Some(placement_id) {
                None
            } else {
                old(local_state).active_placement
            },
            action == (StoreAction::DeletePlacement { id: placement_id }),
            final(local_state).selected_placements@ == old(local_state).selected_placements@,
            final(local_state).active_track == old(local_state).active_track,
            final(local_state).active_note == old(local_state).active_note,
            final(local_state).selected_notes@ == old(local_state).selected_notes@,
            final(local_state).window_state == old(local_state).window_state,
    {
        if local_state.active_placement == Some(placement_id) {
            local_state.active_placement = None;
        }
        StoreAction::DeletePlacement { id: placement_id }
    }
}

/// The placement window's delete button: the store is asked to delete the
/// placement, the window closes, no placement stays active and the
/// placement leaves the selection.
pub fn placement_view_delete(local_state: &mut LocalState, placement_id: PlacementId) -> (action: StoreAction)
    ensures
        action == (StoreAction::DeletePlacement { id: placement_id }),
        final(local_state).active_placement is None,
        final(local_state).selected_placements@ == old(local_state).selected_placements@.remove(placement_id),
        !final(local_state).window_state.visible(WindowKind::Placement),
        forall|k: WindowKind| k != WindowKind::Placement ==>
            #[trigger] final(local_state).window_state.visible(k) == old(local_state).window_state.visible(k),
        final(local_state).active_track == old(local_state).active_track,
        final(local_state).active_note == old(local_state).active_note,
        final(local_state).selected_notes@ == old(local_state).selected_notes@,
{
    local_state.window_state.set_visible(WindowKind::Placement, false);
    local_state.active_placement = None;
    local_state.selected_placements.remove(&placement_id);
    StoreAction::DeletePlacement { id: placement_id }
}

/// The note window's delete button: the store is asked to delete the note,
/// the window closes, no note stays active and the note leaves the selection.
pub fn note_view_delete(local_state: &mut LocalState, track_id: TrackId, note_index: usize) -> (action: StoreAction)
    ensures
        action == (StoreAction::DeletePlacedNote { track_id, index: note_index }),
        final(local_state).active_note is None,
        final(local_state).selected_notes@ == old(local_state).selected_notes@.remove(note_index),
        !final(local_state).window_state.visible(WindowKind::Note),
        forall|k: WindowKind| k != WindowKind::Note ==>
            #[trigger] final(local_state).window_state.visible(k) == old(local_state).window_state.visible(k),
        final(local_state).active_track == old(local_state).active_track,
        final(local_state).active_placement == old(local_state).active_placement,
        final(local_state).selected_placements@ == old(local_state).selected_placements@,
{
    local_state.active_note = None;
    local_state.window_state.set_visible(WindowKind::Note, false);
    local_state.selected_notes.remove(&note_index);
    StoreAction::DeletePlacedNote { track_id, index: note_index }
}

/// The note window's close button: no note stays active and the window closes.
pub fn note_view_close(local_state: &mut LocalState)
    ensures
        final(local_state).active_note is None,
        !final(local_state).window_state.visible(WindowKind::Note),
        forall|k: WindowKind| k != WindowKind::Note ==>
            #[trigger] final(local_state).window_state.visible(k) == old(local_state).window_state.visible(k),
        final(local_state).active_track == old(local_state).active_track,
        final(local_state).active_placement == old(local_state).active_placement,
        final(local_state).selected_notes@ == old(local_state).selected_notes@,
        final(local_state).selected_placements@ == old(local_state).selected_placements@,
{
    local_state.active_note = None;
    local_state.window_state.set_visible(WindowKind::Note, false);
}

/// Whether a placement plays `track_id` through a generator.
pub open spec fn plays_track(kind: PlacementType, track_id: TrackId) -> bool {
    kind matches PlacementType::Track { track_id: t, .. } && t == track_id
}

/// The generator that plays a track: that of the first track placement of
/// the track, in the order the placements are listed; none if no track
/// placement plays it.
pub fn generator_for_track(placements: &Vec<PlacementType>, track_id: TrackId) -> (g: Option<GeneratorId>)
    ensures
        match g {
            None => forall|i: int| 0 <= i < placements@.len() ==> !plays_track(#[trigger] placements@[i], track_id),
            Some(gen) => exists|i: int| {
                &&& 0 <= i < placements@.len()
                &&& placements@[i] == (PlacementType::Track { track_id, generator_id: gen })
                &&& forall|j: int| 0 <= j < i ==> !plays_track(#[trigger] placements@[j], track_id)
            },
        },
{
    let mut i: usize = 0;
    while i < placements.len()
        invariant
            i <= placements@.len(),
            forall|j: int| 0 <= j < i ==> !plays_track(#[trigger] placements@[j], track_id),
        decreases placements@.len() - i,
    {
        match placements[i] {
            PlacementType::Track { track_id: t, generator_id } => {
                if t == track_id {
                    assert(placements@[i as int] == (PlacementType::Track { track_id, generator_id }));
                    return Some(generator_id);
                }
            },
            _ => {},
        }
        i = i + 1;
    }
    None
}

/// One preview point is drawn for every this many audio frames.
pub const VISUAL_SAMPLING_RATE: usize = 120;

/// How many frames of a sample its placement previews: the longer channel,
/// cut at the placement's length in frames.
pub fn preview_sample_length(left_len: usize, right_len: usize, clip_frames: usize) -> (n: usize)
    ensures
        n == if left_len >= right_len {
            if left_len <= clip_frames { left_len } else { clip_frames }
        } else {
            if right_len <= clip_frames { right_len } else { clip_frames }
        },
{
    let longest: usize = if left_len >= right_len { left_len } else { right_len };
    if longest <= clip_frames { longest } else { clip_frames }
}

/// How many points a preview of `len` frames plots: frame 0, one for every
/// 120th frame from frame 1 on while before the last frame, and the last
/// frame.
pub open spec fn preview_point_count(len: int) -> int {
    if len >= 2 { (len - 2 + 119) / 120 + 2 } else { 2 }
}

/// The `k`-th frame index of a preview of `len` frames: frame 0, then every
/// 120th frame from frame 1 on while before the last frame, then the last
/// frame.
pub open spec fn preview_frame(len: int, k: int) -> int {
    if k == 0 {
        0
    } else if k == preview_point_count(len) - 1 {
        len - 1
    } else {
        1 + 120 * (k - 1)
    }
}

/// The frames whose levels a sample preview plots, in order.
pub fn preview_frame_indices(len: usize) -> (frames: Vec<usize>)
    requires
        len > 0,
    ensures
        frames@.len() == preview_point_count(len as int),
        forall|k: int| 0 <= k < frames@.len() ==> #[trigger] frames@[k] == preview_frame(len as int, k),
        forall|k: int| 0 <= k < frames@.len() ==> #[trigger] frames@[k] < len,
{
    let mut frames: Vec<usize> = Vec::new();
    frames.push(0);
    if len >= 3 {
        let mut i: usize = 1;
        loop
            invariant_except_break
                1 <= i < len - 1,
                i == 1 + 120 * (frames@.len() - 1),
            invariant
                len >= 3,
                frames@.len() >= 1,
                frames@[0] == 0,
                forall|k: int| 1 <= k < frames@.len() ==> #[trigger] frames@[k] == 1 + 120 * (k - 1),
                forall|k: int| 1 <= k < frames@.len() ==> #[trigger] frames@[k] < len - 1,
            ensures
                frames@.len() >= 2,
                frames@[frames@.len() - 1] + 120 >= len - 1,
            decreases len - i,
        {
            frames.push(i);
            assert(frames@[frames@.len() - 1] == i);
            if len - 1 - i <= VISUAL_SAMPLING_RATE {
                break;
            }
            i = i + VISUAL_SAMPLING_RATE;
        }
    }
    assert(frames@.len() == preview_point_count(len as int) - 1) by {
        if len >= 3 {
            let n: int = frames@.len() - 1;
            assert(frames@[n] == 1 + 120 * (n - 1));
            assert((len - 2 + 119) / 120 == n) by (nonlinear_arith)
                requires
                    1 + 120 * (n - 1) + 120 >= len - 1,
                    1 + 120 * (n - 1) < len - 1,
                    n >= 1,
            ;
        }
    }
    frames.push(len - 1);
    frames
}

/// Cutting the plotted points down to one per 120 frames never asks for
/// more points than a fresh preview has, and keeps only the regular ones:
/// frame 0 and every 120th frame from frame 1 on.
pub proof fn lemma_visible_preview_fits(len: int, k: int)
    requires
        len > 0,
    ensures
        len / 120 <= preview_point_count(len),
        1 <= k < len / 120 ==> preview_frame(len, k) == 1 + 120 * (k - 1),
{
    assert(len / 120 <= preview_point_count(len)) by (nonlinear_arith)
        requires len > 0;
    if 1 <= k < len / 120 {
        assert(k < preview_point_count(len) - 1) by (nonlinear_arith)
            requires len > 0, 1 <= k < len / 120;
    }
}

} // verus!
