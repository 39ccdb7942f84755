//! Verified editing and layout logic of the hydric music workstation:
//! piano key layout, note-roll and placement selection state, the
//! microphone recording state machine, the notes panel list, the sample
//! browser tree, generator naming and the audio-preview index selection.

pub mod music;
pub mod piano;
pub mod local_state;
pub mod note_roll;
pub mod placed_track;
pub mod microphone;
pub mod notes_panel;
pub mod sample_tree;
pub mod generator;
pub mod freq_display;
