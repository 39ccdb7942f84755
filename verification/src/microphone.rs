use vstd::string::{StringExecFns};
use vstd::prelude::*;

verus! {

/// Where the microphone window is in the record cycle.
#[derive(PartialEq, Eq, Structural, Clone, Copy, Debug)]
pub enum MicState {
    Idle,
    RequestingPermissions,
    ReadyToRecord,
    Recording,
    HasRecording,
}

/// What happened in the microphone window, or what came back from the microphone.
#[derive(PartialEq, Eq, Structural, Clone, Copy, Debug)]
pub enum MicEvent {
    /// The record button was pressed; whether recording is already permitted.
    RecordClicked { has_permissions: bool },
    /// Whether recording is permitted now (checked every frame).
    PermissionsChecked { granted: bool },
    /// The outcome of a `Start` that the window asked for.
    StartFinished { ok: bool },
    /// The stop button was pressed.
    StopClicked,
    /// The clear button was pressed.
    ClearClicked,
}

/// What the window asks the microphone to do.
#[derive(PartialEq, Eq, Structural, Clone, Copy, Debug)]
pub enum MicCommand {
    Nothing,
    Start,
    RequestPermissions,
    Stop,
    Clear,
}

/// The record cycle. Recording starts from `Idle` (asking for permission
/// first if need be, and starting as soon as it is granted); a failed start
/// falls back to `Idle`; stop always leaves a recording; clear always goes
/// back to `Idle`.
pub open spec fn mic_step(state: MicState, event: MicEvent) -> (MicState, MicCommand) {
    match event {
        MicEvent::RecordClicked { has_permissions } => {
            if state == MicState::Idle {
                if has_permissions {
                    (MicState::Idle, MicCommand::Start)
                } else {
                    (MicState::RequestingPermissions, MicCommand::RequestPermissions)
                }
            } else {
                (state, MicCommand::Nothing)
            }
        },
        MicEvent::PermissionsChecked { granted } => {
            if state == MicState::RequestingPermissions && granted {
                (state, MicCommand::Start)
            } else {
                (state, MicCommand::Nothing)
            }
        },
        MicEvent::StartFinished { ok } => {
            if ok {
                (MicState::Recording, MicCommand::Nothing)
            } else {
                (MicState::Idle, MicCommand::Nothing)
            }
        },
        MicEvent::StopClicked => (MicState::HasRecording, MicCommand::Stop),
        MicEvent::ClearClicked => (MicState::Idle, MicCommand::Clear),
    }
}

impl MicState {
    /// The next state of the window and the command for the microphone.
    pub fn step(self, event: MicEvent) -> (r: (MicState, MicCommand))
        ensures
            r == mic_step(self, event),
            event == (MicEvent::StartFinished { ok: true }) ==> r == (MicState::Recording, MicCommand::Nothing),
            event == (MicEvent::StartFinished { ok: false }) ==> r == (MicState::Idle, MicCommand::Nothing),
    {
        match event {
            MicEvent::RecordClicked { has_permissions } => {
                if self == MicState::Idle {
                    if has_permissions {
                        (MicState::Idle, MicCommand::Start)
                    } else {
                        (MicState::RequestingPermissions, MicCommand::RequestPermissions)
                    }
                } else {
                    (self, MicCommand::Nothing)
                }
            },
            MicEvent::PermissionsChecked { granted } => {
                if self == MicState::RequestingPermissions && granted {
                    (self, MicCommand::Start)
                } else {
                    (self, MicCommand::Nothing)
                }
            },
            MicEvent::StartFinished { ok } => {
                if ok {
                    (MicState::Recording, MicCommand::Nothing)
                } else {
                    (MicState::Idle, MicCommand::Nothing)
                }
            },
            MicEvent::StopClicked => (MicState::HasRecording, MicCommand::Stop),
            MicEvent::ClearClicked => (MicState::Idle, MicCommand::Clear),
        }
    }
}

/// Recording begins only with a start that succeeded: a step that enters
/// `Recording` from another state is a successful `StartFinished`, and the
/// window asks the microphone to start only from `Idle` after the record
/// button, or while waiting for a permission that has just been granted.
pub proof fn lemma_recording_needs_successful_start(state: MicState, event: MicEvent)
    ensures
        mic_step(state, event).0 == MicState::Recording && state != MicState::Recording
            ==> event == (MicEvent::StartFinished { ok: true }),
        mic_step(state, event).1 == MicCommand::Start ==> {
            ||| state == MicState::Idle && event == (MicEvent::RecordClicked { has_permissions: true })
            ||| state == MicState::RequestingPermissions && event == (MicEvent::PermissionsChecked { granted: true })
        },
{
}

/// The outcome of a start decides the state, whatever state the start was
/// asked in: a successful start always enters `Recording`, a failed one
/// always falls back to `Idle`, and neither asks the microphone for more.
pub proof fn lemma_start_outcome(state: MicState)
    ensures
        mic_step(state, MicEvent::StartFinished { ok: true }) == (MicState::Recording, MicCommand::Nothing),
        mic_step(state, MicEvent::StartFinished { ok: false }) == (MicState::Idle, MicCommand::Nothing),
{
}

/// Stop always leaves a recording to keep, and clear always resets, from any state.
pub proof fn lemma_stop_and_clear(state: MicState)
    ensures
        mic_step(state, MicEvent::StopClicked) == (MicState::HasRecording, MicCommand::Stop),
        mic_step(state, MicEvent::ClearClicked) == (MicState::Idle, MicCommand::Clear),
{
}

/// Whether `char::is_alphanumeric` holds of a character.
pub uninterp spec fn char_is_alphanumeric(c: char) -> bool;

/// Calls `char::is_alphanumeric` (alphabetic or numeric in the Unicode
/// sense); its result is named, not stated.
#[verifier::external_body]
fn is_alphanumeric(c: char) -> (r: bool)
    ensures
        r == char_is_alphanumeric(c),
{
    c.is_alphanumeric()
}

pub open spec fn all_alphanumeric(s: Seq<char>) -> bool {
    forall|i: int| 0 <= i < s.len() ==> char_is_alphanumeric(#[trigger] s[i])
}

/// The file name a microphone recording is saved under: the name typed in,
/// with the `.ogg` extension, if every character of it is alphanumeric;
/// otherwise none (names with other characters are refused).
pub fn mic_sample_file_name(name: &str) -> (r: Option<String>)
    ensures
        match r {
            Some(file) => all_alphanumeric(name@) && file@ == name@ + ".ogg"@,
            None => !all_alphanumeric(name@),
        },
{
    let mut ok = true;
    for c in it: name.chars()
        invariant
            it.seq() == name@,
            ok == all_alphanumeric(it.seq().take(it.index())),
    {
        let good = is_alphanumeric(c);
        proof {
            let t = it.seq().take(it.index() + 1);
            assert(t.drop_last() =~= it.seq().take(it.index()));
            assert(t.last() == c);
        }
        ok = ok && good;
    }
    proof {
        assert(name@.take(name@.len() as int) =~= name@);
    }
    if ok {
        let mut file = String::from_str(name);
        file.append(".ogg");
        Some(file)
    } else {
        None
    }
}

} // verus!
