use vstd::prelude::*;
use crate::music::{PitchValue, ScaleValue, is_white, semitone};

verus! {

/// Which way the keyboard runs on screen.
#[derive(PartialEq, Eq, Structural, Clone, Copy, Debug)]
pub enum PianoOrientation {
    Vertical,
    Horizontal,
}

/// The extent of a key along the pitch axis, in twelfths of one background
/// row, relative to the start of the key's own row.
#[derive(PartialEq, Eq, Structural, Clone, Copy, Debug)]
pub enum PianoKey {
    /// A black key fills exactly its own row.
    Black,
    /// A white key starts `offset` twelfths from its row and is `size` twelfths long.
    White { offset: i32, size: i32 },
}

/// White keys C, D, E share five rows and F, G, A, B share seven, so that
/// the B|C and E|F edges line up with the background rows. In the
/// vertical orientation higher pitches are drawn first, so the offsets run
/// the other way.
pub open spec fn key_spec(orientation: PianoOrientation, sv: ScaleValue) -> PianoKey {
    match orientation {
        PianoOrientation::Vertical => match sv {
            ScaleValue::C => PianoKey::White { offset: -8i32, size: 20i32 },
            ScaleValue::D => PianoKey::White { offset: -4i32, size: 20i32 },
            ScaleValue::E => PianoKey::White { offset: 0i32, size: 20i32 },
            ScaleValue::F => PianoKey::White { offset: -9i32, size: 21i32 },
            ScaleValue::G => PianoKey::White { offset: -6i32, size: 21i32 },
            ScaleValue::A => PianoKey::White { offset: -3i32, size: 21i32 },
            ScaleValue::B => PianoKey::White { offset: 0i32, size: 21i32 },
            _ => PianoKey::Black,
        },
        PianoOrientation::Horizontal => match sv {
            ScaleValue::C => PianoKey::White { offset: 0i32, size: 20i32 },
            ScaleValue::D => PianoKey::White { offset: -4i32, size: 20i32 },
            ScaleValue::E => PianoKey::White { offset: -8i32, size: 20i32 },
            ScaleValue::F => PianoKey::White { offset: 0i32, size: 21i32 },
            ScaleValue::G => PianoKey::White { offset: -3i32, size: 21i32 },
            ScaleValue::A => PianoKey::White { offset: -6i32, size: 21i32 },
            ScaleValue::B => PianoKey::White { offset: -9i32, size: 21i32 },
            _ => PianoKey::Black,
        },
    }
}

/// The keyboard model: the inclusive pitch range it shows and its orientation.
pub struct Piano {
    pub max_note: PitchValue,
    pub min_note: PitchValue,
    pub orientation: PianoOrientation,
}

impl Piano {
    pub fn new(max_note: PitchValue, min_note: PitchValue, orientation: PianoOrientation) -> (r: Piano)
        ensures
            r.max_note == max_note,
            r.min_note == min_note,
            r.orientation == orientation,
    {
        Piano { max_note, min_note, orientation }
    }

    /// The pitches of the keys, lowest first: every pitch from `min_note` to `max_note`.
    pub fn get_piano_notes(&self) -> (notes: Vec<PitchValue>)
        ensures
            notes@.len() == if self.min_note <= self.max_note {
                self.max_note - self.min_note + 1
            } else {
                0
            },
            forall|i: int| 0 <= i < notes@.len() ==> #[trigger] notes@[i] == self.min_note + i,
    {
        let mut notes: Vec<PitchValue> = Vec::new();
        if self.min_note > self.max_note {
            return notes;
        }
        let mut p: PitchValue = self.min_note;
        loop
            invariant
                self.min_note <= p <= self.max_note,
                notes@.len() == p - self.min_note,
                forall|i: int| 0 <= i < notes@.len() ==> #[trigger] notes@[i] == self.min_note + i,
            decreases self.max_note - p,
        {
            notes.push(p);
            if p == self.max_note {
                return notes;
            }
            p = p + 1;
        }
    }

    /// The key drawn for a pitch of class `sv` in this piano's orientation.
    pub fn make_piano_key(&self, sv: ScaleValue) -> (key: PianoKey)
        ensures
            key == key_spec(self.orientation, sv),
            key is Black <==> !is_white(sv),
            is_white(sv) ==> key_size(key) == if semitone(sv) < 5 { 20int } else { 21int },
    {
        proof {
            if is_white(sv) {
                lemma_white_key_sizes(self.orientation, sv);
            }
        }
        match self.orientation {
            PianoOrientation::Vertical => match sv {
                ScaleValue::C => PianoKey::White { offset: -8, size: 20 },
                ScaleValue::D => PianoKey::White { offset: -4, size: 20 },
                ScaleValue::E => PianoKey::White { offset: 0, size: 20 },
                ScaleValue::F => PianoKey::White { offset: -9, size: 21 },
                ScaleValue::G => PianoKey::White { offset: -6, size: 21 },
                ScaleValue::A => PianoKey::White { offset: -3, size: 21 },
                ScaleValue::B => PianoKey::White { offset: 0, size: 21 },
                _ => PianoKey::Black,
            },
            PianoOrientation::Horizontal => match sv {
                ScaleValue::C => PianoKey::White { offset: 0, size: 20 },
                ScaleValue::D => PianoKey::White { offset: -4, size: 20 },
                ScaleValue::E => PianoKey::White { offset: -8, size: 20 },
                ScaleValue::F => PianoKey::White { offset: 0, size: 21 },
                ScaleValue::G => PianoKey::White { offset: -3, size: 21 },
                ScaleValue::A => PianoKey::White { offset: -6, size: 21 },
                ScaleValue::B => PianoKey::White { offset: -9, size: 21 },
                _ => PianoKey::Black,
            },
        }
    }
}

/// The next white pitch class above a white one, and how many semitones up it is.
pub open spec fn next_white(sv: ScaleValue) -> (ScaleValue, int) {
    match sv {
        ScaleValue::C => (ScaleValue::D, 2),
        ScaleValue::D => (ScaleValue::E, 2),
        ScaleValue::E => (ScaleValue::F, 1),
        ScaleValue::F => (ScaleValue::G, 2),
        ScaleValue::G => (ScaleValue::A, 2),
        ScaleValue::A => (ScaleValue::B, 2),
        _ => (ScaleValue::C, 1),
    }
}

pub open spec fn key_start(k: PianoKey) -> int {
    match k {
        PianoKey::White { offset, .. } => offset as int,
        PianoKey::Black => 0,
    }
}

pub open spec fn key_end(k: PianoKey) -> int {
    match k {
        PianoKey::White { offset, size } => offset + size,
        PianoKey::Black => 12,
    }
}

/// Neighbouring white keys meet exactly: along the pitch axis (in twelfths
/// of a row, pitch `p` starting at `12 * p`) the key above a white key starts
/// where that key ends; drawn vertically, where pitch `p` starts at `-12 * p`,
/// the key above ends where that key starts. No gap and no overlap.
pub proof fn lemma_white_keys_tile(sv: ScaleValue, p: int)
    requires
        is_white(sv),
    ensures
        ({
            let (up, d) = next_white(sv);
            &&& is_white(up)
            &&& semitone(up) == (semitone(sv) + d) % 12
            &&& 12 * (p + d) + key_start(key_spec(PianoOrientation::Horizontal, up))
                == 12 * p + key_end(key_spec(PianoOrientation::Horizontal, sv))
            &&& -12 * (p + d) + key_end(key_spec(PianoOrientation::Vertical, up))
                == -12 * p + key_start(key_spec(PianoOrientation::Vertical, sv))
        }),
{
}

/// Every white key covers its whole own row, and the keys C, D, E together
/// span five rows while F, G, A, B span seven.
pub proof fn lemma_white_key_spans(orientation: PianoOrientation, sv: ScaleValue)
    requires
        is_white(sv),
    ensures
        key_start(key_spec(orientation, sv)) <= 0,
        key_end(key_spec(orientation, sv)) >= 12,
        ({
            let size = |v: ScaleValue| key_end(key_spec(orientation, v)) - key_start(key_spec(orientation, v));
            &&& size(ScaleValue::C) + size(ScaleValue::D) + size(ScaleValue::E) == 5 * 12
            &&& size(ScaleValue::F) + size(ScaleValue::G) + size(ScaleValue::A) + size(ScaleValue::B) == 7 * 12
        }),
{
}

/// The length of a key along the pitch axis, in twelfths of a row.
pub open spec fn key_size(k: PianoKey) -> int {
    key_end(k) - key_start(k)
}

/// The white keys within each group are equally long: C, D and E are
/// 5/3 of a row each (20 twelfths) and F, G, A and B 7/4 of a row each
/// (21 twelfths), in both orientations. Drawn horizontally, C and F start on
/// a row edge and E and B end on one, so the B|C and E|F edges line up with
/// the background rows (drawn vertically, the other way round).
pub proof fn lemma_white_key_sizes(orientation: PianoOrientation, sv: ScaleValue)
    requires
        is_white(sv),
    ensures
        key_spec(orientation, sv) is White,
        key_size(key_spec(orientation, sv)) == if semitone(sv) < 5 { 20int } else { 21int },
        key_start(key_spec(PianoOrientation::Horizontal, ScaleValue::C)) == 0,
        key_end(key_spec(PianoOrientation::Horizontal, ScaleValue::E)) == 12,
        key_start(key_spec(PianoOrientation::Horizontal, ScaleValue::F)) == 0,
        key_end(key_spec(PianoOrientation::Horizontal, ScaleValue::B)) == 12,
        key_end(key_spec(PianoOrientation::Vertical, ScaleValue::C)) == 12,
        key_start(key_spec(PianoOrientation::Vertical, ScaleValue::E)) == 0,
        key_end(key_spec(PianoOrientation::Vertical, ScaleValue::F)) == 12,
        key_start(key_spec(PianoOrientation::Vertical, ScaleValue::B)) == 0,
{
}

/// The horizontal keyboard is the vertical one mirrored within each key's row:
/// a key spanning `[s, e]` vertically spans `[12 - e, 12 - s]` horizontally.
pub proof fn lemma_orientations_mirror(sv: ScaleValue)
    ensures
        key_start(key_spec(PianoOrientation::Horizontal, sv)) == 12 - key_end(key_spec(PianoOrientation::Vertical, sv)),
        key_end(key_spec(PianoOrientation::Horizontal, sv)) == 12 - key_start(key_spec(PianoOrientation::Vertical, sv)),
{
}

/// Whether the pointer is over a key, and whether that key is black.
#[derive(PartialEq, Eq, Structural, Clone, Copy, Debug)]
pub struct KeyHit {
    pub contains: bool,
    pub is_black: bool,
}

/// The key a click lands on, the keys listed lowest pitch first: the first
/// black key under the pointer if there is one (black keys lie on top),
/// otherwise the last white key under it; and whether it is black.
pub open spec fn clicked_key_spec(hits: Seq<KeyHit>) -> (Option<int>, bool)
    decreases hits.len(),
{
    if hits.len() == 0 {
        (None, false)
    } else {
        let rest = hits.drop_last();
        let (prev, prev_black) = clicked_key_spec(rest);
        if prev_black {
            (prev, true)
        } else if hits.last().contains {
            (Some(hits.len() - 1), hits.last().is_black)
        } else {
            (prev, false)
        }
    }
}

impl Piano {
    /// Which key a click at some point hits, given for each key (lowest
    /// pitch first) whether it contains the point and whether it is black.
    pub fn calculate_clicked_note(hits: &Vec<KeyHit>) -> (r: (Option<usize>, bool))
        ensures
            r.1 == clicked_key_spec(hits@).1,
            match clicked_key_spec(hits@).0 {
                Some(i) => r.0 == Some(i as usize),
                None => r.0 is None,
            },
            r.0 is Some <==> exists|i: int| 0 <= i < hits@.len() && (#[trigger] hits@[i]).contains,
            r.0 matches Some(i) ==> i < hits@.len() && hits@[i as int].contains && r.1 == hits@[i as int].is_black,
    {
        proof {
            lemma_clicked_key(hits@);
        }
        let mut clicked: Option<usize> = None;
        let mut is_black = false;
        let mut i: usize = 0;
        while i < hits.len()
            invariant
                i <= hits@.len(),
                !is_black,
                clicked_key_spec(hits@.subrange(0, i as int)).1 == false,
                match clicked_key_spec(hits@.subrange(0, i as int)).0 {
                    Some(j) => clicked == Some(j as usize) && 0 <= j < i,
                    None => clicked is None,
                },
            decreases hits@.len() - i,
        {
            let ghost prefix = hits@.subrange(0, i + 1);
            proof {
                assert(prefix.drop_last() =~= hits@.subrange(0, i as int));
                assert(prefix.last() == hits@[i as int]);
            }
            if hits[i].contains {
                clicked = Some(i);
                if hits[i].is_black {
                    is_black = true;
                    proof {
                        lemma_black_click_is_final(hits@, i as int + 1);
                    }
                    return (clicked, is_black);
                }
            }
            i = i + 1;
        }
        assert(hits@.subrange(0, hits@.len() as int) =~= hits@);
        (clicked, is_black)
    }
}

/// A click hits a key exactly when some key contains the point, and the key
/// it hits contains the point. Black keys lie on top: if a black key contains
/// the point, the click hits a black key, the first (lowest) one that
/// contains it; otherwise it hits the last (highest) white key that
/// contains it.
pub proof fn lemma_clicked_key(hits: Seq<KeyHit>)
    ensures
        ({
            let r = clicked_key_spec(hits);
            &&& r.0 is Some <==> exists|i: int| 0 <= i < hits.len() && (#[trigger] hits[i]).contains
            &&& r.0 matches Some(i) ==> 0 <= i < hits.len() && hits[i].contains && r.1 == hits[i].is_black
            &&& r.1 <==> exists|i: int| 0 <= i < hits.len() && (#[trigger] hits[i]).contains && hits[i].is_black
            &&& r.1 ==> (r.0 matches Some(i)
                && forall|j: int| 0 <= j < i ==> !((#[trigger] hits[j]).contains && hits[j].is_black))
            &&& !r.1 ==> (r.0 matches Some(i) ==> forall|j: int| i < j < hits.len() ==> !(#[trigger] hits[j]).contains)
        }),
    decreases hits.len(),
{
    if hits.len() > 0 {
        let rest = hits.drop_last();
        lemma_clicked_key(rest);
        let n = hits.len() - 1;
        assert(hits.last() == hits[n]);
        assert forall|j: int| 0 <= j < n implies #[trigger] rest[j] == hits[j] by {}
        let (prev, prev_black) = clicked_key_spec(rest);
        if prev_black {
            let i = prev->0;
            assert(rest[i] == hits[i]);
            let w = choose|k: int| 0 <= k < rest.len() && (#[trigger] rest[k]).contains && rest[k].is_black;
            assert(rest[w] == hits[w]);
            assert forall|j: int| 0 <= j < i implies !((#[trigger] hits[j]).contains && hits[j].is_black) by {
                assert(rest[j] == hits[j]);
            }
        } else if hits[n].contains {
            if exists|k: int| 0 <= k < hits.len() && (#[trigger] hits[k]).contains && hits[k].is_black {
                let w = choose|k: int| 0 <= k < hits.len() && (#[trigger] hits[k]).contains && hits[k].is_black;
                if w < n {
                    assert(rest[w] == hits[w]);
                }
            }
            assert forall|j: int| 0 <= j < n implies !((#[trigger] hits[j]).contains && hits[j].is_black) by {
                assert(rest[j] == hits[j]);
            }
        } else {
            if exists|k: int| 0 <= k < hits.len() && (#[trigger] hits[k]).contains {
                let w = choose|k: int| 0 <= k < hits.len() && (#[trigger] hits[k]).contains;
                assert(w < n);
                assert(rest[w] == hits[w]);
            }
            if exists|k: int| 0 <= k < hits.len() && (#[trigger] hits[k]).contains && hits[k].is_black {
                let w = choose|k: int| 0 <= k < hits.len() && (#[trigger] hits[k]).contains && hits[k].is_black;
                assert(rest[w] == hits[w]);
            }
            if prev is Some {
                let i = prev->0;
                assert(rest[i] == hits[i]);
                assert forall|j: int| i < j < hits.len() implies !(#[trigger] hits[j]).contains by {
                    if j < n {
                        assert(rest[j] == hits[j]);
                    }
                }
                if exists|k: int| 0 <= k < rest.len() && (#[trigger] rest[k]).contains {
                    let w = choose|k: int| 0 <= k < rest.len() && (#[trigger] rest[k]).contains;
                    assert(rest[w] == hits[w]);
                }
            } else {
                if exists|k: int| 0 <= k < rest.len() && (#[trigger] rest[k]).contains {
                    let w = choose|k: int| 0 <= k < rest.len() && (#[trigger] rest[k]).contains;
                    assert(rest[w] == hits[w]);
                }
            }
        }
    }
}

proof fn lemma_black_click_is_final(hits: Seq<KeyHit>, n: int)
    requires
        0 <= n <= hits.len(),
        clicked_key_spec(hits.subrange(0, n)).1,
    ensures
        clicked_key_spec(hits) == clicked_key_spec(hits.subrange(0, n)),
    decreases hits.len() - n,
{
    if n < hits.len() {
        let next = hits.subrange(0, n + 1);
        assert(next.drop_last() =~= hits.subrange(0, n));
        lemma_black_click_is_final(hits, n + 1);
    } else {
        assert(hits.subrange(0, n) =~= hits);
    }
}

} // verus!
