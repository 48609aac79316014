use chord_string::note::{note_name, note_positions, Note, NotePosition, N_OCTAVES, SEMITONES};

#[test]
fn position_is_octave_times_twelve_plus_number() {
    assert_eq!(NotePosition::new(0, 0), NotePosition(0));
    assert_eq!(NotePosition::new(7, 0), NotePosition(7));
    assert_eq!(NotePosition::new(0, 1), NotePosition(12));
    assert_eq!(NotePosition::new(11, 1), NotePosition(23));
    assert_eq!(NotePosition::new(5, 3), NotePosition(41));
}

#[test]
fn height_and_oclock_split_a_position() {
    let p = NotePosition::new(7, 1);
    assert_eq!(p.height(), 1);
    assert_eq!(p.oclock(), 7);
    assert_eq!(NotePosition(0).height(), 0);
    assert_eq!(NotePosition(0).oclock(), 0);
    assert_eq!(NotePosition(11).height(), 0);
    assert_eq!(NotePosition(12).oclock(), 0);
    assert_eq!(NotePosition(35).height(), 2);
    assert_eq!(NotePosition(35).oclock(), 11);
}

#[test]
fn height_and_oclock_undo_new_for_every_place() {
    for octave in 0..5 {
        for number in 0..12 {
            let p = NotePosition::new(number, octave);
            assert_eq!(p.height(), octave);
            assert_eq!(p.oclock(), number);
        }
    }
}

#[test]
fn note_adds_the_base_note() {
    assert_eq!(NotePosition(0).note(0), Note(0));
    assert_eq!(NotePosition(5).note(27), Note(32));
    assert_eq!(NotePosition(23).note(1), Note(24));
}

#[test]
fn names_follow_the_twelve_pitch_classes() {
    let names = ["la", "la#", "si", "do", "do#", "re", "re#", "mi", "fa", "fa#", "sol", "sol#"];
    for i in 0..12 {
        assert_eq!(note_name(i), names[i]);
        assert_eq!(NotePosition(i).name(0), names[i]);
    }
}

#[test]
fn name_wraps_round_the_octave_and_moves_with_the_base() {
    assert_eq!(NotePosition(12).name(0), "la");
    assert_eq!(NotePosition(23).name(0), "sol#");
    assert_eq!(NotePosition(0).name(27), "do");
    assert_eq!(NotePosition(11).name(27), "si");
    assert_eq!(NotePosition(14).name(10), "la");
}

#[test]
fn positions_are_listed_from_the_lowest_up() {
    let all = note_positions(N_OCTAVES);
    assert_eq!(all.len(), 24);
    for (k, p) in all.iter().enumerate() {
        assert_eq!(p.0, k);
    }
    assert_eq!(note_positions(0).len(), 0);
    assert_eq!(note_positions(3).len(), 3 * SEMITONES);
}
