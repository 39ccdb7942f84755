use vstd::prelude::*;

verus! {

/// A pitch counted in semitones; one background row of the note roll per value.
pub type PitchValue = i32;

/// The twelve pitch classes of an octave.
#[derive(PartialEq, Eq, Structural, Clone, Copy, Debug)]
pub enum ScaleValue {
    C,
    CSharp,
    D,
    DSharp,
    E,
    F,
    FSharp,
    G,
    GSharp,
    A,
    ASharp,
    B,
}

/// Position of a pitch class inside its octave, in semitones above C.
pub open spec fn semitone(sv: ScaleValue) -> int {
    match sv {
        ScaleValue::C => 0,
        ScaleValue::CSharp => 1,
        ScaleValue::D => 2,
        ScaleValue::DSharp => 3,
        ScaleValue::E => 4,
        ScaleValue::F => 5,
        ScaleValue::FSharp => 6,
        ScaleValue::G => 7,
        ScaleValue::GSharp => 8,
        ScaleValue::A => 9,
        ScaleValue::ASharp => 10,
        ScaleValue::B => 11,
    }
}

/// The pitch classes that sit on white piano keys (the C major scale).
pub open spec fn is_white(sv: ScaleValue) -> bool {
    match sv {
        ScaleValue::C | ScaleValue::D | ScaleValue::E | ScaleValue::F | ScaleValue::G
        | ScaleValue::A | ScaleValue::B => true,
        _ => false,
    }
}

/// The pitch class `n` semitones above C, for `0 <= n < 12`.
pub open spec fn scale_value_of(n: int) -> ScaleValue {
    if n == 0 { ScaleValue::C }
    else if n == 1 { ScaleValue::CSharp }
    else if n == 2 { ScaleValue::D }
    else if n == 3 { ScaleValue::DSharp }
    else if n == 4 { ScaleValue::E }
    else if n == 5 { ScaleValue::F }
    else if n == 6 { ScaleValue::FSharp }
    else if n == 7 { ScaleValue::G }
    else if n == 8 { ScaleValue::GSharp }
    else if n == 9 { ScaleValue::A }
    else if n == 10 { ScaleValue::ASharp }
    else { ScaleValue::B }
}

impl ScaleValue {
    /// The pitch class `n` semitones above C.
    pub fn from_semitone(n: u8) -> (sv: ScaleValue)
        requires
            n < 12,
        ensures
            sv == scale_value_of(n as int),
            semitone(sv) == n,
    {
        if n == 0 { ScaleValue::C }
        else if n == 1 { ScaleValue::CSharp }
        else if n == 2 { ScaleValue::D }
        else if n == 3 { ScaleValue::DSharp }
        else if n == 4 { ScaleValue::E }
        else if n == 5 { ScaleValue::F }
        else if n == 6 { ScaleValue::FSharp }
        else if n == 7 { ScaleValue::G }
        else if n == 8 { ScaleValue::GSharp }
        else if n == 9 { ScaleValue::A }
        else if n == 10 { ScaleValue::ASharp }
        else { ScaleValue::B }
    }

    /// Semitones above C of this pitch class.
    pub fn semitone(&self) -> (r: u8)
        ensures
            r == semitone(*self),
    {
        match self {
            ScaleValue::C => 0,
            ScaleValue::CSharp => 1,
            ScaleValue::D => 2,
            ScaleValue::DSharp => 3,
            ScaleValue::E => 4,
            ScaleValue::F => 5,
            ScaleValue::FSharp => 6,
            ScaleValue::G => 7,
            ScaleValue::GSharp => 8,
            ScaleValue::A => 9,
            ScaleValue::ASharp => 10,
            ScaleValue::B => 11,
        }
    }
}

} // verus!
