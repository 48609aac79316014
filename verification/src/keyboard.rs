//! The keyboard: which key plays which place on the note circle, and what a
//! frame of key states does to the voices.

use vstd::prelude::*;
use crate::note::{Note, NotePosition};

verus! {

/// The keys that play notes, in the order of the key table: the digit row,
/// then the letter row below it.
#[derive(Clone, Copy, Debug, PartialEq, Eq, Structural)]
pub enum Key {
    Key1,
    Key2,
    Key3,
    Key4,
    Key5,
    Key6,
    Key7,
    Key8,
    Key9,
    Key0,
    Minus,
    Equals,
    Q,
    W,
    E,
    R,
    T,
    Y,
    U,
    I,
    O,
    P,
    BracketLeft,
    BracketRight,
}

/// The number of keys that play notes.
pub const N_KEYS: usize = 24;

impl Key {
    /// The place of the key in the key table.
    pub open spec fn spec_index(self) -> usize {
        match self {
            Key::Key1 => 0,
            Key::Key2 => 1,
            Key::Key3 => 2,
            Key::Key4 => 3,
            Key::Key5 => 4,
            Key::Key6 => 5,
            Key::Key7 => 6,
            Key::Key8 => 7,
            Key::Key9 => 8,
            Key::Key0 => 9,
            Key::Minus => 10,
            Key::Equals => 11,
            Key::Q => 12,
            Key::W => 13,
            Key::E => 14,
            Key::R => 15,
            Key::T => 16,
            Key::Y => 17,
            Key::U => 18,
            Key::I => 19,
            Key::O => 20,
            Key::P => 21,
            Key::BracketLeft => 22,
            Key::BracketRight => 23,
        }
    }

    /// The key at place `i` of the key table, if the table reaches that far.
    pub open spec fn spec_from_index(i: usize) -> Option<Key> {
        if i == 0 {
            Some(Key::Key1)
        } else if i == 1 {
            Some(Key::Key2)
        } else if i == 2 {
            Some(Key::Key3)
        } else if i == 3 {
            Some(Key::Key4)
        } else if i == 4 {
            Some(Key::Key5)
        } else if i == 5 {
            Some(Key::Key6)
        } else if i == 6 {
            Some(Key::Key7)
        } else if i == 7 {
            Some(Key::Key8)
        } else if i == 8 {
            Some(Key::Key9)
        } else if i == 9 {
            Some(Key::Key0)
        } else if i == 10 {
            Some(Key::Minus)
        } else if i == 11 {
            Some(Key::Equals)
        } else if i == 12 {
            Some(Key::Q)
        } else if i == 13 {
            Some(Key::W)
        } else if i == 14 {
            Some(Key::E)
        } else if i == 15 {
            Some(Key::R)
        } else if i == 16 {
            Some(Key::T)
        } else if i == 17 {
            Some(Key::Y)
        } else if i == 18 {
            Some(Key::U)
        } else if i == 19 {
            Some(Key::I)
        } else if i == 20 {
            Some(Key::O)
        } else if i == 21 {
            Some(Key::P)
        } else if i == 22 {
            Some(Key::BracketLeft)
        } else if i == 23 {
            Some(Key::BracketRight)
        } else {
            None
        }
    }

    /// The place on the note circle that the key plays: the digit row plays
    /// the upper octave, the letter row the lower one.
    pub open spec fn spec_position(self) -> NotePosition {
        if self.spec_index() < 12 {
            NotePosition((self.spec_index() + 12) as usize)
        } else {
            NotePosition((self.spec_index() - 12) as usize)
        }
    }

    /// The key that plays a place on the note circle, if one does.
    pub open spec fn spec_at(position: NotePosition) -> Option<Key> {
        if position.0 < 12 {
            Key::spec_from_index((position.0 + 12) as usize)
        } else if position.0 < 24 {
            Key::spec_from_index((position.0 - 12) as usize)
        } else {
            None
        }
    }

    /// The place of the key in the key table.
    #[verifier::when_used_as_spec(spec_index)]
    pub fn index(self) -> (i: usize)
        ensures
            i == self.spec_index(),
            i < N_KEYS,
            Key::spec_from_index(i) == Some(self),
    {
        match self {
            Key::Key1 => 0,
            Key::Key2 => 1,
            Key::Key3 => 2,
            Key::Key4 => 3,
            Key::Key5 => 4,
            Key::Key6 => 5,
            Key::Key7 => 6,
            Key::Key8 => 7,
            Key::Key9 => 8,
            Key::Key0 => 9,
            Key::Minus => 10,
            Key::Equals => 11,
            Key::Q => 12,
            Key::W => 13,
            Key::E => 14,
            Key::R => 15,
            Key::T => 16,
            Key::Y => 17,
            Key::U => 18,
            Key::I => 19,
            Key::O => 20,
            Key::P => 21,
            Key::BracketLeft => 22,
            Key::BracketRight => 23,
        }
    }

    /// The key at place `i` of the key table, if the table reaches that far.
    #[verifier::when_used_as_spec(spec_from_index)]
    pub fn from_index(i: usize) -> (key: Option<Key>)
        ensures
            key == Key::spec_from_index(i),
            key is Some <==> i < N_KEYS,
            key matches Some(k) ==> k.spec_index() == i,
    {
        if i == 0 {
            Some(Key::Key1)
        } else if i == 1 {
            Some(Key::Key2)
        } else if i == 2 {
            Some(Key::Key3)
        } else if i == 3 {
            Some(Key::Key4)
        } else if i == 4 {
            Some(Key::Key5)
        } else if i == 5 {
            Some(Key::Key6)
        } else if i == 6 {
            Some(Key::Key7)
        } else if i == 7 {
            Some(Key::Key8)
        } else if i == 8 {
            Some(Key::Key9)
        } else if i == 9 {
            Some(Key::Key0)
        } else if i == 10 {
            Some(Key::Minus)
        } else if i == 11 {
            Some(Key::Equals)
        } else if i == 12 {
            Some(Key::Q)
        } else if i == 13 {
            Some(Key::W)
        } else if i == 14 {
            Some(Key::E)
        } else if i == 15 {
            Some(Key::R)
        } else if i == 16 {
            Some(Key::T)
        } else if i == 17 {
            Some(Key::Y)
        } else if i == 18 {
            Some(Key::U)
        } else if i == 19 {
            Some(Key::I)
        } else if i == 20 {
            Some(Key::O)
        } else if i == 21 {
            Some(Key::P)
        } else if i == 22 {
            Some(Key::BracketLeft)
        } else if i == 23 {
            Some(Key::BracketRight)
        } else {
            None
        }
    }

    /// The place on the note circle that the key plays.
    #[verifier::when_used_as_spec(spec_position)]
    pub fn position(self) -> (position: NotePosition)
        ensures
            position == self.spec_position(),
            position.0 < 24,
            position.spec_oclock() == self.spec_index() % 12,
            position.spec_height() == (if self.spec_index() < 12 { 1usize } else { 0usize }),
            Key::spec_at(position) == Some(self),
    {
        let i = self.index();
        if i < 12 {
            NotePosition(i + 12)
        } else {
            NotePosition(i - 12)
        }
    }

    /// The key that plays a place on the note circle, if one does.
    #[verifier::when_used_as_spec(spec_at)]
    pub fn at(position: NotePosition) -> (key: Option<Key>)
        ensures
            key == Key::spec_at(position),
            key is Some <==> position.0 < 24,
            key matches Some(k) ==> k.spec_position() == position,
    {
        if position.0 < 12 {
            Key::from_index(position.0 + 12)
        } else if position.0 < 24 {
            Key::from_index(position.0 - 12)
        } else {
            None
        }
    }
}

/// One voice of the instrument: the place it sounds and whether it sounds.
#[derive(Clone, Copy, Debug, PartialEq, Eq, Structural)]
pub struct Voice {
    pub position: NotePosition,
    pub playing: bool,
}

/// What to tell the sound sink of a voice.
#[derive(Clone, Copy, Debug, PartialEq, Eq, Structural)]
pub enum SinkCommand {
    /// Start the sound: the key went down on a silent voice.
    Play,
    /// Stop the sound: the key is up.
    Pause,
    /// Leave the sink alone.
    Keep,
}

/// The keyboard as one frame sees it.
#[derive(Clone, Debug)]
pub struct KeyboardInput {
    /// The right arrow went down in this frame.
    pub right_just_pressed: bool,
    /// The left arrow went down in this frame.
    pub left_just_pressed: bool,
    /// The note keys that are down.
    pub held: Vec<Key>,
}

/// What one frame of key states leads to.
#[derive(Clone, Debug)]
pub struct KeyboardOutcome {
    /// The base note after the frame.
    pub base_note: usize,
    /// The base note moved, so every voice has to be tuned again.
    pub mapping_changed: bool,
    /// A voice started or stopped since the chord was last taken up.
    pub chord_changed: bool,
    /// One command for each voice, in the order of the voices.
    pub commands: Vec<SinkCommand>,
}

/// Whether an arrow key moves the base note in this frame: the right arrow
/// always does, the left arrow unless the base note is already 0.
pub open spec fn shifts_base(right: bool, left: bool, base_note: usize) -> bool {
    right || (left && base_note > 0)
}

/// The base note after the frame.
pub open spec fn base_after(right: bool, left: bool, base_note: usize) -> int {
    if right {
        base_note + 1
    } else if left && base_note > 0 {
        base_note - 1
    } else {
        base_note as int
    }
}

/// Whether the key of a voice is down.  A voice that no key plays has none
/// down.
pub open spec fn key_down(held: Seq<Key>, voice: Voice) -> bool {
    Key::spec_at(voice.position) matches Some(k) && held.contains(k)
}

/// The voice after a frame in which the arrows moved nothing: a voice that a
/// key plays sounds exactly while the key is down, any other voice is left
/// as it is.
pub open spec fn voice_after(held: Seq<Key>, voice: Voice) -> Voice {
    if Key::spec_at(voice.position) is Some {
        Voice { position: voice.position, playing: key_down(held, voice) }
    } else {
        voice
    }
}

/// The command for the sink of a voice: play when the key went down on a
/// silent voice, pause whenever the key is up, nothing for a voice that goes
/// on sounding or that no key plays.
pub open spec fn command_for(held: Seq<Key>, voice: Voice) -> SinkCommand {
    if Key::spec_at(voice.position) is None {
        SinkCommand::Keep
    } else if !key_down(held, voice) {
        SinkCommand::Pause
    } else if !voice.playing {
        SinkCommand::Play
    } else {
        SinkCommand::Keep
    }
}

/// Whether the frame starts or stops the voice.
pub open spec fn toggles(held: Seq<Key>, voice: Voice) -> bool {
    voice_after(held, voice).playing != voice.playing
}

/// Whether `key` is among the keys that are down.
pub fn is_held(held: &Vec<Key>, key: Key) -> (down: bool)
    ensures
        down == held@.contains(key),
{
    let mut i: usize = 0;
    while i < held.len()
        invariant
            i <= held.len(),
            forall|j: int| 0 <= j < i ==> held@[j] != key,
        decreases held.len() - i,
    {
        if held[i] == key {
            return true;
        }
        i += 1;
    }
    false
}

/// Moves the base note by the arrow keys: up by one for the right arrow,
/// else down by one for the left arrow unless it is at 0.  Returns the new
/// base note if it moved.
pub fn shift_base_note(right: bool, left: bool, base_note: usize) -> (moved: Option<usize>)
    requires
        right ==> base_note < usize::MAX,
    ensures
        moved is Some <==> shifts_base(right, left, base_note),
        moved matches Some(b) ==> b == base_after(right, left, base_note),
{
    if right {
        Some(base_note + 1)
    } else if left && base_note > 0 {
        Some(base_note - 1)
    } else {
        None
    }
}

/// Applies one frame of key states.
///
/// An arrow key that moves the base note ends the frame at once: the voices
/// stay as they are and no sink is told anything.  Otherwise every voice that
/// a key plays follows its key, its sink is told to play or to pause, and the
/// chord counts as changed as soon as one voice started or stopped.
pub fn keyboard_input_system(
    input: &KeyboardInput,
    base_note: usize,
    chord_changed: bool,
    voices: &mut Vec<Voice>,
) -> (outcome: KeyboardOutcome)
    requires
        input.right_just_pressed ==> base_note < usize::MAX,
    ensures
        outcome.base_note == base_after(
            input.right_just_pressed,
            input.left_just_pressed,
            base_note,
        ),
        outcome.mapping_changed == shifts_base(
            input.right_just_pressed,
            input.left_just_pressed,
            base_note,
        ),
        final(voices)@.len() == old(voices)@.len(),
        outcome.commands@.len() == old(voices)@.len(),
        outcome.mapping_changed ==> {
            &&& final(voices)@ == old(voices)@
            &&& outcome.chord_changed == chord_changed
            &&& forall|i: int|
                0 <= i < old(voices)@.len() ==> #[trigger] outcome.commands@[i]
                    == SinkCommand::Keep
        },
        !outcome.mapping_changed ==> {
            &&& forall|i: int|
                0 <= i < old(voices)@.len() ==> #[trigger] final(voices)@[i] == voice_after(
                    input.held@,
                    old(voices)@[i],
                )
            &&& forall|i: int|
                0 <= i < old(voices)@.len() ==> #[trigger] outcome.commands@[i] == command_for(
                    input.held@,
                    old(voices)@[i],
                )
            &&& outcome.chord_changed == (chord_changed || exists|i: int|
                0 <= i < old(voices)@.len() && toggles(input.held@, #[trigger] old(voices)@[i]))
        },
{
    let mut commands: Vec<SinkCommand> = Vec::new();
    let moved = shift_base_note(input.right_just_pressed, input.left_just_pressed, base_note);
    if let Some(base) = moved {
        let mut i: usize = 0;
        while i < voices.len()
            invariant
                i <= voices.len(),
                commands@.len() == i,
                forall|j: int| 0 <= j < i ==> #[trigger] commands@[j] == SinkCommand::Keep,
            decreases voices.len() - i,
        {
            commands.push(SinkCommand::Keep);
            i += 1;
        }
        return KeyboardOutcome { base_note: base, mapping_changed: true, chord_changed, commands };
    }
    let mut changed = chord_changed;
    let mut i: usize = 0;
    while i < voices.len()
        invariant
            i <= voices.len(),
            voices@.len() == old(voices)@.len(),
            commands@.len() == i,
            forall|j: int|
                0 <= j < i ==> #[trigger] voices@[j] == voice_after(input.held@, old(voices)@[j]),
            forall|j: int| i <= j < voices@.len() ==> #[trigger] voices@[j] == old(voices)@[j],
            forall|j: int|
                0 <= j < i ==> #[trigger] commands@[j] == command_for(
                    input.held@,
                    old(voices)@[j],
                ),
            changed == (chord_changed || exists|j: int|
                0 <= j < i && toggles(input.held@, #[trigger] old(voices)@[j])),
        decreases voices.len() - i,
    {
        let voice = voices[i];
        let ghost seen = changed;
        match Key::at(voice.position) {
            Some(key) => {
                let down = is_held(&input.held, key);
                if down != voice.playing {
                    changed = true;
                }
                if !down {
                    commands.push(SinkCommand::Pause);
                } else if !voice.playing {
                    commands.push(SinkCommand::Play);
                } else {
                    commands.push(SinkCommand::Keep);
                }
                voices.set(i, Voice { position: voice.position, playing: down });
            },
            None => {
                commands.push(SinkCommand::Keep);
            },
        }
        proof {
            let held = input.held@;
            let before = old(voices)@;
            assert(voice == before[i as int]);
            assert(toggles(held, before[i as int]) == (changed && !seen) || (toggles(
                held,
                before[i as int],
            ) && seen));
            if changed {
                if seen && !chord_changed {
                    let j = choose|j: int| 0 <= j < i && toggles(held, #[trigger] before[j]);
                    assert(0 <= j < i + 1 && toggles(held, before[j]));
                } else if !chord_changed {
                    assert(toggles(held, before[i as int]));
                }
            } else {
                assert forall|j: int| 0 <= j < i + 1 implies !toggles(
                    held,
                    #[trigger] before[j],
                ) by {
                    if j == i {
                    }
                }
            }
        }
        i += 1;
    }
    KeyboardOutcome { base_note, mapping_changed: false, chord_changed: changed, commands }
}

/// The chord that is sounding: the note of every voice that plays, in the
/// order of the voices, counted from the lowest place of the circle.
pub open spec fn sounding(voices: Seq<Voice>) -> Seq<Note>
    decreases voices.len(),
{
    if voices.len() == 0 {
        Seq::empty()
    } else {
        let before = sounding(voices.drop_last());
        if voices.last().playing {
            before.push(Note(voices.last().position.0))
        } else {
            before
        }
    }
}

/// Collects the chord that is sounding.
pub fn sounding_notes(voices: &Vec<Voice>) -> (chord: Vec<Note>)
    ensures
        chord@ == sounding(voices@),
{
    let mut chord: Vec<Note> = Vec::new();
    let mut i: usize = 0;
    while i < voices.len()
        invariant
            i <= voices.len(),
            chord@ == sounding(voices@.take(i as int)),
        decreases voices.len() - i,
    {
        proof {
            assert(voices@.take(i + 1).drop_last() == voices@.take(i as int));
        }
        if voices[i].playing {
            chord.push(voices[i].position.note(0));
        }
        i += 1;
    }
    proof {
        assert(voices@.take(voices.len() as int) == voices@);
    }
    chord
}

} // verus!
