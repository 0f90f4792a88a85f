use reverb::{parse_i32, parse_note_name, NoteName};

/// Frequency in Hz of a note name in twelve-tone equal temperament with A4 = 440.
fn freq(name: &str) -> Option<f32> {
    let note = parse_note_name(name)?;
    let n = note.semitones_from_a4();
    Some(440.0 * 2f32.powf(n as f32 / 12.0))
}

#[test]
fn a4_is_440() {
    let f = freq("A4").unwrap();
    assert!((f - 440.0).abs() < 0.01);
}

#[test]
fn c4_is_middle_c() {
    let f = freq("C4").unwrap();
    assert!((f - 261.63).abs() < 0.1);
}

#[test]
fn sharp_and_flat_neighbors_match() {
    let cs4 = freq("C#4").unwrap();
    let db4 = freq("Db4").unwrap();
    assert!((cs4 - db4).abs() < 0.01);
}

#[test]
fn unknown_letter_is_none() {
    assert!(freq("H4").is_none());
}

#[test]
fn parsed_fields_of_names() {
    assert_eq!(
        parse_note_name("A4"),
        Some(NoteName { semitone_from_c: 9, accidental: 0, octave: 4 })
    );
    assert_eq!(
        parse_note_name("C#3"),
        Some(NoteName { semitone_from_c: 0, accidental: 1, octave: 3 })
    );
    assert_eq!(
        parse_note_name("Db5"),
        Some(NoteName { semitone_from_c: 2, accidental: -1, octave: 5 })
    );
    assert_eq!(
        parse_note_name("B-1"),
        Some(NoteName { semitone_from_c: 11, accidental: 0, octave: -1 })
    );
    assert_eq!(
        parse_note_name("g+2"),
        Some(NoteName { semitone_from_c: 7, accidental: 0, octave: 2 })
    );
}

#[test]
fn malformed_names_are_none() {
    assert_eq!(parse_note_name(""), None);
    assert_eq!(parse_note_name("C"), None);
    assert_eq!(parse_note_name("C#"), None);
    assert_eq!(parse_note_name("Cb"), None);
    assert_eq!(parse_note_name("C##4"), None);
    assert_eq!(parse_note_name("C4x"), None);
    assert_eq!(parse_note_name("C 4"), None);
    assert_eq!(parse_note_name("h4"), None);
    assert_eq!(parse_note_name("C99999999999"), None);
    assert_eq!(parse_note_name("é4"), None);
}

#[test]
fn semitone_offsets_from_a4() {
    let offset = |s: &str| parse_note_name(s).unwrap().semitones_from_a4();
    assert_eq!(offset("A4"), 0);
    assert_eq!(offset("C4"), -9);
    assert_eq!(offset("A5"), 12);
    assert_eq!(offset("C#4"), offset("Db4"));
    assert_eq!(offset("bb3"), offset("A#3"));
    assert_eq!(offset("c3"), offset("C3"));
    assert_eq!(offset("E#4"), offset("F4"));
    assert_eq!(offset("B#3"), offset("C4"));
    assert_eq!(offset("C-1"), -69);
}

#[test]
fn octave_at_i32_limit_parses() {
    let n = parse_note_name("C2147483647").unwrap();
    assert_eq!(n.octave, i32::MAX);
}

#[test]
fn parse_i32_agrees_with_std() {
    let cases = [
        "", "+", "-", "0", "-0", "+0", "7", "42", "-42", "+42", "007", "2147483647",
        "2147483648", "-2147483648", "-2147483649", "99999999999", "1a", "a1", " 1",
        "1 ", "--1", "+-1", "-+1", "12345678901234567890", "٣",
    ];
    for c in cases.iter() {
        assert_eq!(parse_i32(c.as_bytes()), c.parse::<i32>().ok(), "case {:?}", c);
    }
}
