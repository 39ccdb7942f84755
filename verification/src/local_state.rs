use vstd::prelude::*;
use std::collections::HashSet;
use std::hash::Hash;
use vstd::std_specs::iter::IteratorSpec;

verus! {

broadcast use vstd::std_specs::hash::group_hash_axioms;

/// Identifier of a track in the project.
pub type TrackId = u64;

/// Identifier of a placement on the arrangement.
pub type PlacementId = u64;

/// Identifier of a generator (an instrument) in the project.
pub type GeneratorId = u64;

/// The floating windows of the editor whose visibility the editing logic changes.
#[derive(PartialEq, Eq, Structural, Clone, Copy, Debug)]
pub enum WindowKind {
    NoteRoll,
    Note,
    Placement,
    Mixer,
    GeneratorList,
    Scale,
    SampleTree,
    TrackRoll,
    Microphone,
    Save,
    GraphDebug,
    /// The settings window of one generator.
    Generator(GeneratorId),
}

/// Which of the editor windows are open.
#[derive(PartialEq, Eq, Debug)]
pub struct WindowState {
    pub note_roll: bool,
    pub note: bool,
    pub placement: bool,
    pub mixer: bool,
    pub generator_list: bool,
    pub scale: bool,
    pub sample_tree: bool,
    pub track_roll: bool,
    pub microphone: bool,
    pub save: bool,
    pub graph_debug: bool,
    /// The generators whose settings windows are open.
    pub generators: HashSet<GeneratorId>,
}

impl WindowState {
    pub open spec fn visible(self, kind: WindowKind) -> bool {
        match kind {
            WindowKind::NoteRoll => self.note_roll,
            WindowKind::Note => self.note,
            WindowKind::Placement => self.placement,
            WindowKind::Mixer => self.mixer,
            WindowKind::GeneratorList => self.generator_list,
            WindowKind::Scale => self.scale,
            WindowKind::SampleTree => self.sample_tree,
            WindowKind::TrackRoll => self.track_roll,
            WindowKind::Microphone => self.microphone,
            WindowKind::Save => self.save,
            WindowKind::GraphDebug => self.graph_debug,
            WindowKind::Generator(id) => self.generators@.contains(id),
        }
    }

    /// All windows closed.
    pub fn new() -> (w: WindowState)
        ensures
            forall|k: WindowKind| !#[trigger] w.visible(k),
    {
        WindowState {
            note_roll: false,
            note: false,
            placement: false,
            mixer: false,
            generator_list: false,
            scale: false,
            sample_tree: false,
            track_roll: false,
            microphone: false,
            save: false,
            graph_debug: false,
            generators: HashSet::new(),
        }
    }

    pub fn get_visible(&self, kind: WindowKind) -> (r: bool)
        ensures
            r == self.visible(kind),
    {
        match kind {
            WindowKind::NoteRoll => self.note_roll,
            WindowKind::Note => self.note,
            WindowKind::Placement => self.placement,
            WindowKind::Mixer => self.mixer,
            WindowKind::GeneratorList => self.generator_list,
            WindowKind::Scale => self.scale,
            WindowKind::SampleTree => self.sample_tree,
            WindowKind::TrackRoll => self.track_roll,
            WindowKind::Microphone => self.microphone,
            WindowKind::Save => self.save,
            WindowKind::GraphDebug => self.graph_debug,
            WindowKind::Generator(id) => self.generators.contains(&id),
        }
    }

    /// Opens or closes one window and leaves the others as they are.
    pub fn set_visible(&mut self, kind: WindowKind, visible: bool)
        ensures
            final(self).visible(kind) == visible,
            forall|k: WindowKind| k != kind ==> #[trigger] final(self).visible(k) == old(self).visible(k),
    {
        match kind {
            WindowKind::NoteRoll => self.note_roll = visible,
            WindowKind::Note => self.note = visible,
            WindowKind::Placement => self.placement = visible,
            WindowKind::Mixer => self.mixer = visible,
            WindowKind::GeneratorList => self.generator_list = visible,
            WindowKind::Scale => self.scale = visible,
            WindowKind::SampleTree => self.sample_tree = visible,
            WindowKind::TrackRoll => self.track_roll = visible,
            WindowKind::Microphone => self.microphone = visible,
            WindowKind::Save => self.save = visible,
            WindowKind::GraphDebug => self.graph_debug = visible,
            WindowKind::Generator(id) => {
                if visible {
                    self.generators.insert(id);
                } else {
                    self.generators.remove(&id);
                }
            },
        }
    }

    /// The menu's window button: flips the visibility of one window.
    pub fn toggle(&mut self, kind: WindowKind)
        ensures
            final(self).visible(kind) == !old(self).visible(kind),
            forall|k: WindowKind| k != kind ==> #[trigger] final(self).visible(k) == old(self).visible(k),
    {
        let state = self.get_visible(kind);
        self.set_visible(kind, !state);
    }

    /// Closes every window.
    pub fn close_all(&mut self)
        ensures
            forall|k: WindowKind| !#[trigger] final(self).visible(k),
    {
        *self = WindowState::new();
    }
}

/// The editor's view state: what is active, what is selected, which windows are open.
pub struct LocalState {
    pub active_track: Option<TrackId>,
    pub active_note: Option<usize>,
    pub selected_notes: HashSet<usize>,
    pub active_placement: Option<PlacementId>,
    pub selected_placements: HashSet<PlacementId>,
    pub window_state: WindowState,
}

impl LocalState {
    /// Nothing active, nothing selected, every window closed.
    pub fn new() -> (s: LocalState)
        ensures
            s.active_track is None,
            s.active_note is None,
            s.selected_notes@ == Set::<usize>::empty(),
            s.active_placement is None,
            s.selected_placements@ == Set::<PlacementId>::empty(),
            forall|k: WindowKind| !#[trigger] s.window_state.visible(k),
    {
        LocalState {
            active_track: None,
            active_note: None,
            selected_notes: HashSet::new(),
            active_placement: None,
            selected_placements: HashSet::new(),
            window_state: WindowState::new(),
        }
    }
}

/// A change to the project store that an editing step asks for.
#[derive(Debug, Clone, PartialEq, Eq)]
pub enum StoreAction {
    /// Delete the notes at these indices from the track.
    DeletePlacedNotes { track_id: TrackId, indices: Vec<usize> },
    /// Delete the note at this index from the track.
    DeletePlacedNote { track_id: TrackId, index: usize },
    /// Delete the placements with these ids.
    DeletePlacements { ids: Vec<PlacementId> },
    /// Delete the placement with this id.
    DeletePlacement { id: PlacementId },
}

/// The selection after the toggle gesture on `id`: removed if it was
/// selected, added if it was not.
pub open spec fn toggled<K>(s: Set<K>, id: K) -> Set<K> {
    if s.contains(id) {
        s.remove(id)
    } else {
        s.insert(id)
    }
}

/// Toggling the same element twice gives back the selection one started with.
pub proof fn lemma_toggle_twice<K>(s: Set<K>, id: K)
    ensures
        toggled(toggled(s, id), id) == s,
{
    assert(toggled(toggled(s, id), id) =~= s);
}

/// The toggle gesture flips the membership of its element and no other.
pub proof fn lemma_toggle_flips_only_its_element<K>(s: Set<K>, id: K, other: K)
    ensures
        toggled(s, id).contains(id) == !s.contains(id),
        other != id ==> toggled(s, id).contains(other) == s.contains(other),
{
}

/// Applies the toggle gesture to a selection set; `None` clears it.
pub fn toggle_selection<K: Copy + Eq + Hash>(set: &mut HashSet<K>, id: Option<K>)
    requires
        vstd::std_specs::hash::obeys_key_model::<K>(),
    ensures
        match id {
            None => final(set)@ == Set::<K>::empty(),
            Some(i) => final(set)@ == toggled(old(set)@, i),
        },
{
    match id {
        None => {
            set.clear();
        },
        Some(i) => {
            if set.contains(&i) {
                set.remove(&i);
            } else {
                set.insert(i);
            }
        },
    }
}

/// The elements of a set, each once, in the set's iteration order.
pub fn set_elements<K: Copy + Eq + Hash>(set: &HashSet<K>) -> (v: Vec<K>)
    requires
        vstd::std_specs::hash::obeys_key_model::<K>(),
    ensures
        v@.to_set() == set@,
        v@.no_duplicates(),
{
    let ghost keys = vstd::std_specs::hash::spec_hash_keys_iter(set).remaining();
    assert(keys.unref().to_set() == set@ && keys.no_duplicates());
    let mut v: Vec<K> = Vec::new();
    for k in it: set.iter()
        invariant
            it.seq() == keys,
            v@ == it.seq().take(it.index()).unref(),
    {
        v.push(*k);
    }
    assert(keys.take(keys.len() as int) =~= keys);
    assert(v@ =~= keys.unref());
    proof {
        assert forall|i: int, j: int| 0 <= i < j < v@.len() implies v@[i] != v@[j] by {
            assert(keys[i] != keys[j]);
        }
    }
    v
}

} // verus!
