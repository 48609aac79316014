//! Positions on the note circle and the pitches they sound.

use vstd::prelude::*;

verus! {

/// Semitones in one octave, which is also the number of positions on one
/// turn of the note circle.
pub const SEMITONES: usize = 12;

/// Octaves laid out on the circle.
pub const N_OCTAVES: usize = 2;

/// A pitch, counted in semitones above the base frequency.
#[derive(Clone, Copy, Debug, PartialEq, Eq, Structural)]
pub struct Note(pub usize);

/// A place on the note circle: twelve places per turn, one turn per octave.
#[derive(Clone, Copy, Debug, PartialEq, Eq, Structural)]
pub struct NotePosition(pub usize);

/// The name of each of the twelve pitch classes, counted from "la".
pub open spec fn pitch_class_name(i: int) -> Seq<char> {
    if i == 0 {
        "la"@
    } else if i == 1 {
        "la#"@
    } else if i == 2 {
        "si"@
    } else if i == 3 {
        "do"@
    } else if i == 4 {
        "do#"@
    } else if i == 5 {
        "re"@
    } else if i == 6 {
        "re#"@
    } else if i == 7 {
        "mi"@
    } else if i == 8 {
        "fa"@
    } else if i == 9 {
        "fa#"@
    } else if i == 10 {
        "sol"@
    } else {
        "sol#"@
    }
}

/// The name of pitch class `i`.
pub fn note_name(i: usize) -> (name: &'static str)
    requires
        i < SEMITONES,
    ensures
        name@ == pitch_class_name(i as int),
{
    if i == 0 {
        "la"
    } else if i == 1 {
        "la#"
    } else if i == 2 {
        "si"
    } else if i == 3 {
        "do"
    } else if i == 4 {
        "do#"
    } else if i == 5 {
        "re"
    } else if i == 6 {
        "re#"
    } else if i == 7 {
        "mi"
    } else if i == 8 {
        "fa"
    } else if i == 9 {
        "fa#"
    } else if i == 10 {
        "sol"
    } else {
        "sol#"
    }
}

impl NotePosition {
    /// The octave a position lies in.
    pub open spec fn spec_height(&self) -> usize {
        self.0 / 12
    }

    /// The place of a position within its octave.
    pub open spec fn spec_oclock(&self) -> usize {
        self.0 % 12
    }

    /// The position `number` places into octave `octave`.
    pub fn new(number: usize, octave: usize) -> (position: Self)
        requires
            octave * 12 + number <= usize::MAX,
        ensures
            position.0 == octave * 12 + number,
            number < 12 ==> position.spec_height() == octave && position.spec_oclock() == number,
    {
        NotePosition(octave * 12 + number)
    }

    /// The octave this position lies in.
    #[verifier::when_used_as_spec(spec_height)]
    pub fn height(&self) -> (h: usize)
        ensures
            h == self.spec_height(),
    {
        self.0 / 12
    }

    /// The place of this position within its octave, counted like the hours
    /// of a clock face.
    #[verifier::when_used_as_spec(spec_oclock)]
    pub fn oclock(&self) -> (o: usize)
        ensures
            o == self.spec_oclock(),
    {
        self.0 % 12
    }

    /// The pitch sounded at this position when the circle starts
    /// `base_note` semitones above the base frequency.
    pub fn note(&self, base_note: usize) -> (note: Note)
        requires
            self.0 + base_note <= usize::MAX,
        ensures
            note.0 == self.0 + base_note,
    {
        Note(self.0 + base_note)
    }

    /// The name of the pitch sounded at this position.
    pub fn name(&self, base_note: usize) -> (name: &'static str)
        requires
            self.0 + base_note <= usize::MAX,
        ensures
            name@ == pitch_class_name((self.0 + base_note) % 12),
    {
        note_name((self.0 + base_note) % 12)
    }
}

/// Every place of a circle of `octaves` octaves, from the lowest up.
pub fn note_positions(octaves: usize) -> (positions: Vec<NotePosition>)
    requires
        octaves * 12 <= usize::MAX,
    ensures
        positions@.len() == octaves * 12,
        forall|k: int| 0 <= k < positions@.len() ==> (#[trigger] positions@[k]).0 == k,
{
    let mut positions: Vec<NotePosition> = Vec::new();
    let mut height: usize = 0;
    while height < octaves
        invariant
            height <= octaves,
            octaves * 12 <= usize::MAX,
            positions@.len() == height * 12,
            forall|k: int| 0 <= k < positions@.len() ==> (#[trigger] positions@[k]).0 == k,
        decreases octaves - height,
    {
        let mut number: usize = 0;
        while number < 12
            invariant
                number <= 12,
                height < octaves,
                octaves * 12 <= usize::MAX,
                positions@.len() == height * 12 + number,
                forall|k: int| 0 <= k < positions@.len() ==> (#[trigger] positions@[k]).0 == k,
            decreases 12 - number,
        {
            positions.push(NotePosition::new(number, height));
            number += 1;
        }
        height += 1;
    }
    positions
}

} // verus!
