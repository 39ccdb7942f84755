use vstd::prelude::*;

verus! {

/// The frequency display of the playing audio: it reads the player's
/// recent output and keeps its peak detectors in the editor state.
pub struct FrequencyDisplay<'a, P, L> {
    pub player: &'a P,
    pub local_state: &'a L,
}

impl<'a, P, L> FrequencyDisplay<'a, P, L> {
    pub fn new(player: &'a P, local_state: &'a L) -> (display: FrequencyDisplay<'a, P, L>)
        ensures
            display.player == player,
            display.local_state == local_state,
    {
        FrequencyDisplay { player, local_state }
    }
}

/// The audio the spectrum is taken of: the latest `fft_size` samples,
/// oldest first. There must be at least that many.
pub fn fft_input_window<T: Copy>(audio: &Vec<T>, fft_size: usize) -> (window: Vec<T>)
    requires
        fft_size <= audio@.len(),
    ensures
        window@ == audio@.subrange(audio@.len() - fft_size, audio@.len() as int),
{
    let chunk_head: usize = audio.len() - fft_size;
    let mut window: Vec<T> = Vec::new();
    let mut i: usize = chunk_head;
    while i < audio.len()
        invariant
            chunk_head == audio@.len() - fft_size,
            chunk_head <= i <= audio@.len(),
            window@ == audio@.subrange(chunk_head as int, i as int),
        decreases audio@.len() - i,
    {
        window.push(audio[i]);
        i = i + 1;
        assert(window@ =~= audio@.subrange(chunk_head as int, i as int));
    }
    window
}

} // verus!
