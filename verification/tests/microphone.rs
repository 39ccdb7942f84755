use hydric::microphone::{mic_sample_file_name, MicCommand, MicEvent, MicState};

const STATES: [MicState; 5] = [
    MicState::Idle,
    MicState::RequestingPermissions,
    MicState::ReadyToRecord,
    MicState::Recording,
    MicState::HasRecording,
];

#[test]
fn record_with_permission_starts() {
    let (s, c) = MicState::Idle.step(MicEvent::RecordClicked { has_permissions: true });
    assert_eq!((s, c), (MicState::Idle, MicCommand::Start));
    assert_eq!(s.step(MicEvent::StartFinished { ok: true }), (MicState::Recording, MicCommand::Nothing));
    assert_eq!(s.step(MicEvent::StartFinished { ok: false }), (MicState::Idle, MicCommand::Nothing));
}

#[test]
fn record_without_permission_asks_first() {
    let (s, c) = MicState::Idle.step(MicEvent::RecordClicked { has_permissions: false });
    assert_eq!((s, c), (MicState::RequestingPermissions, MicCommand::RequestPermissions));
    assert_eq!(s.step(MicEvent::PermissionsChecked { granted: false }), (s, MicCommand::Nothing));
    assert_eq!(s.step(MicEvent::PermissionsChecked { granted: true }), (s, MicCommand::Start));
    assert_eq!(s.step(MicEvent::StartFinished { ok: false }), (MicState::Idle, MicCommand::Nothing));
}

#[test]
fn record_is_ignored_unless_idle() {
    for s in STATES.iter().skip(1) {
        assert_eq!(s.step(MicEvent::RecordClicked { has_permissions: true }), (*s, MicCommand::Nothing));
        assert_eq!(s.step(MicEvent::RecordClicked { has_permissions: false }), (*s, MicCommand::Nothing));
    }
    assert_eq!(
        MicState::Idle.step(MicEvent::PermissionsChecked { granted: true }),
        (MicState::Idle, MicCommand::Nothing)
    );
}

#[test]
fn stop_and_clear_from_every_state() {
    for s in STATES {
        assert_eq!(s.step(MicEvent::StopClicked), (MicState::HasRecording, MicCommand::Stop));
        assert_eq!(s.step(MicEvent::ClearClicked), (MicState::Idle, MicCommand::Clear));
    }
}

#[test]
fn only_a_successful_start_enters_recording() {
    let events = [
        MicEvent::RecordClicked { has_permissions: true },
        MicEvent::RecordClicked { has_permissions: false },
        MicEvent::PermissionsChecked { granted: true },
        MicEvent::PermissionsChecked { granted: false },
        MicEvent::StartFinished { ok: true },
        MicEvent::StartFinished { ok: false },
        MicEvent::StopClicked,
        MicEvent::ClearClicked,
    ];
    for s in STATES {
        for e in events {
            let (next, _) = s.step(e);
            if next == MicState::Recording && s != MicState::Recording {
                assert_eq!(e, MicEvent::StartFinished { ok: true });
            }
        }
    }
}

#[test]
fn sample_names_get_the_ogg_extension() {
    assert_eq!(mic_sample_file_name("take1"), Some("take1.ogg".to_string()));
    assert_eq!(mic_sample_file_name("Über2"), Some("Über2.ogg".to_string()));
    assert_eq!(mic_sample_file_name(""), Some(".ogg".to_string()));
}

#[test]
fn sample_names_with_other_characters_are_refused() {
    assert_eq!(mic_sample_file_name("take 1"), None);
    assert_eq!(mic_sample_file_name("a.b"), None);
    assert_eq!(mic_sample_file_name("x'; DROP"), None);
}
