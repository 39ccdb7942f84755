use hydric::freq_display::{fft_input_window, FrequencyDisplay};
use hydric::placed_track::{generator_for_track, preview_frame_indices, preview_sample_length, PlacementType};

#[test]
fn frequency_display_keeps_its_sources() {
    let player = 5u32;
    let state = "state";
    let d = FrequencyDisplay::new(&player, &state);
    assert!(std::ptr::eq(d.player, &player));
    assert!(std::ptr::eq(d.local_state, &state));
}

#[test]
fn spectrum_window_is_the_latest_audio() {
    let audio: Vec<f32> = vec![0.1, 0.2, 0.3, 0.4, 0.5];
    assert_eq!(fft_input_window(&audio, 2), vec![0.4, 0.5]);
    assert_eq!(fft_input_window(&audio, 5), audio);
    assert!(fft_input_window(&audio, 0).is_empty());
}

#[test]
fn preview_frames() {
    assert_eq!(preview_frame_indices(1), vec![0, 0]);
    assert_eq!(preview_frame_indices(2), vec![0, 1]);
    assert_eq!(preview_frame_indices(3), vec![0, 1, 2]);
    assert_eq!(preview_frame_indices(250), vec![0, 1, 121, 241, 249]);
    assert_eq!(preview_frame_indices(242), vec![0, 1, 121, 241]);
    assert_eq!(preview_frame_indices(243), vec![0, 1, 121, 241, 242]);
}

#[test]
fn visible_preview_fits_a_fresh_preview() {
    for len in 1..2000usize {
        let frames = preview_frame_indices(len);
        assert!(len / 120 <= frames.len());
        for k in 1..len / 120 {
            assert_eq!(frames[k], 1 + 120 * (k - 1));
        }
    }
}

#[test]
fn preview_length_is_the_longer_channel_clipped() {
    assert_eq!(preview_sample_length(100, 80, 1000), 100);
    assert_eq!(preview_sample_length(80, 100, 90), 90);
    assert_eq!(preview_sample_length(0, 0, 10), 0);
}

#[test]
fn the_first_track_placement_names_the_generator() {
    let ps = vec![
        PlacementType::Sample { sample_id: 1 },
        PlacementType::DrumTrack { track_id: 4 },
        PlacementType::Track { track_id: 4, generator_id: 7 },
        PlacementType::Track { track_id: 4, generator_id: 8 },
    ];
    assert_eq!(generator_for_track(&ps, 4), Some(7));
    assert_eq!(generator_for_track(&ps, 5), None);
    assert_eq!(generator_for_track(&vec![], 4), None);
}
