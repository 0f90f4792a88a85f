use vstd::prelude::*;
use vstd::slice::slice_subrange;
use vstd::string::StringSliceAdditionalSpecFns;

use crate::decimal::{parse_i32, spec_parse_i32};

verus! {

/// A note name such as `A4`, `C#3` or `Db5`, taken apart: the letter's
/// distance in semitones above C, the accidental (`+1` sharp, `-1` flat,
/// `0` natural) and the octave number (C4 is middle C).
#[derive(Debug, Clone, Copy, PartialEq, Eq, Structural)]
pub struct NoteName {
    pub semitone_from_c: i32,
    pub accidental: i32,
    pub octave: i32,
}

/// The semitone of a note letter above C in its octave, for the upper-case
/// letters `C D E F G A B`.
pub open spec fn letter_semitone(letter: u8) -> Option<i32> {
    if letter == 67u8 {
        Some(0i32)
    } else if letter == 68u8 {
        Some(2i32)
    } else if letter == 69u8 {
        Some(4i32)
    } else if letter == 70u8 {
        Some(5i32)
    } else if letter == 71u8 {
        Some(7i32)
    } else if letter == 65u8 {
        Some(9i32)
    } else if letter == 66u8 {
        Some(11i32)
    } else {
        None
    }
}

/// The semitones above C that the seven letters stand for.
pub open spec fn letter_semitone_values(st: i32) -> bool {
    st == 0 || st == 2 || st == 4 || st == 5 || st == 7 || st == 9 || st == 11
}

/// ASCII upper-casing of one byte: `a..=z` become `A..=Z`, all else is kept.
pub open spec fn ascii_upper(b: u8) -> u8 {
    if 97 <= b <= 122 {
        (b - 32) as u8
    } else {
        b
    }
}

/// The accidental that the byte after the letter denotes: `#` sharp, `b` flat.
pub open spec fn accidental_of(b: Seq<u8>) -> i32 {
    if b.len() > 1 && b[1] == 35u8 {
        1i32
    } else if b.len() > 1 && b[1] == 98u8 {
        -1i32
    } else {
        0i32
    }
}

/// Where the octave number starts: after the letter and the accidental, if any.
pub open spec fn octave_start(b: Seq<u8>) -> int {
    if accidental_of(b) == 0 {
        1
    } else {
        2
    }
}

/// What a note name written as the bytes `b` denotes: a letter `A`-`G`
/// (either case), an optional `#` or `b`, then the octave as decimal text
/// that `str::parse::<i32>` accepts. `None` for anything else.
pub open spec fn spec_parse_note(b: Seq<u8>) -> Option<NoteName> {
    if b.len() == 0 {
        None
    } else {
        match letter_semitone(ascii_upper(b[0])) {
            None => None,
            Some(st) => match spec_parse_i32(b.skip(octave_start(b))) {
                None => None,
                Some(o) => Some(
                    NoteName { semitone_from_c: st, accidental: accidental_of(b), octave: o },
                ),
            },
        }
    }
}

/// Reads a note name like "A4", "C#3" or "Db5".
pub fn parse_note_name(name: &str) -> (r: Option<NoteName>)
    ensures
        r == spec_parse_note(name.spec_bytes()),
        r matches Some(n) ==> n.wf(),
{
    let bytes = name.as_bytes();
    let len = bytes.len();
    if len == 0 {
        return None;
    }
    let first = bytes[0];
    let letter = if 97 <= first && first <= 122 {
        first - 32
    } else {
        first
    };
    let semitone_from_c: i32 = if letter == 67u8 {
        0
    } else if letter == 68u8 {
        2
    } else if letter == 69u8 {
        4
    } else if letter == 70u8 {
        5
    } else if letter == 71u8 {
        7
    } else if letter == 65u8 {
        9
    } else if letter == 66u8 {
        11
    } else {
        return None;
    };
    let mut idx: usize = 1;
    let mut accidental: i32 = 0;
    if idx < len {
        if bytes[idx] == 35u8 {
            accidental = 1;
            idx = idx + 1;
        } else if bytes[idx] == 98u8 {
            accidental = -1;
            idx = idx + 1;
        }
    }
    let octave_text = slice_subrange(bytes, idx, len);
    assert(octave_text@ =~= bytes@.skip(idx as int));
    match parse_i32(octave_text) {
        None => None,
        Some(octave) => Some(NoteName { semitone_from_c, accidental, octave }),
    }
}

impl NoteName {
    /// The letter is one of C D E F G A B and the accidental is sharp, flat or none.
    pub open spec fn wf(self) -> bool {
        &&& letter_semitone_values(self.semitone_from_c)
        &&& -1 <= self.accidental <= 1
    }

    /// The note's distance in semitones from A4, as an integer.
    pub open spec fn offset_from_a4(self) -> int {
        (self.octave + 1) * 12 + (self.semitone_from_c + self.accidental) - 69
    }

    /// Every step of the MIDI arithmetic stays within `i32`.
    pub open spec fn fits_i32(self) -> bool {
        &&& self.octave + 1 <= i32::MAX
        &&& i32::MIN <= (self.octave + 1) * 12 <= i32::MAX
        &&& i32::MIN <= (self.octave + 1) * 12 + (self.semitone_from_c + self.accidental)
            <= i32::MAX
        &&& i32::MIN <= self.offset_from_a4() <= i32::MAX
    }

    /// Semitones from A4 in twelve-tone equal temperament: the MIDI note
    /// number (C4, middle C, is 60) minus that of A4 (69).
    pub fn semitones_from_a4(&self) -> (n: i32)
        requires
            self.wf(),
            self.fits_i32(),
        ensures
            n == self.offset_from_a4(),
            n == (self.octave + 1) * 12 + self.semitone_from_c + self.accidental - 69,
    {
        let semitone = self.semitone_from_c + self.accidental;
        let midi = (self.octave + 1) * 12 + semitone;
        let a4_midi: i32 = 69;
        midi - a4_midi
    }
}

/// The sharp of a letter and the flat of the letter a whole tone above it
/// (C# and Db, F# and Gb, ...) name the same pitch, whatever octave follows:
/// either both parse or neither does, and then they are equally far from A4.
pub proof fn lemma_sharp_flat_neighbors(lower: u8, upper: u8, octave_text: Seq<u8>)
    requires
        letter_semitone(ascii_upper(lower)) is Some,
        letter_semitone(ascii_upper(upper)) is Some,
        letter_semitone(ascii_upper(upper)).unwrap() == letter_semitone(ascii_upper(lower)).unwrap()
            + 2,
    ensures
        ({
            let sharp = spec_parse_note(seq![lower, 35u8] + octave_text);
            let flat = spec_parse_note(seq![upper, 98u8] + octave_text);
            &&& sharp is Some <==> flat is Some
            &&& sharp is Some ==> sharp.unwrap().offset_from_a4() == flat.unwrap().offset_from_a4()
        }),
{
    let s = seq![lower, 35u8] + octave_text;
    let f = seq![upper, 98u8] + octave_text;
    assert(s[0] == lower && s[1] == 35u8);
    assert(f[0] == upper && f[1] == 98u8);
    assert(s.skip(2) =~= octave_text);
    assert(f.skip(2) =~= octave_text);
}

/// The letter of a note name may be written in either case.
pub proof fn lemma_letter_case_insensitive(letter: u8, rest: Seq<u8>)
    requires
        97 <= letter <= 122,
    ensures
        spec_parse_note(seq![letter] + rest) == spec_parse_note(seq![(letter - 32) as u8] + rest),
{
    let lo = seq![letter] + rest;
    let up = seq![(letter - 32) as u8] + rest;
    assert(lo[0] == letter && up[0] == (letter - 32) as u8);
    assert(lo.len() == up.len());
    assert(lo.skip(1) =~= up.skip(1));
    if lo.len() > 1 {
        assert(lo[1] == up[1]);
        assert(lo.skip(2) =~= up.skip(2));
    }
}

/// Raising a note by one octave raises it by twelve semitones.
pub proof fn lemma_octave_is_twelve_semitones(n: NoteName)
    requires
        n.octave < i32::MAX,
    ensures
        (NoteName { octave: (n.octave + 1) as i32, ..n }).offset_from_a4() == n.offset_from_a4() + 12,
{
}

/// What each part of a note name contributes, with the letter table written
/// out (C 0, D 2, E 4, F 5, G 7, A 9, B 11 semitones above C, in either
/// case): a name parses exactly when it starts with one of these letters and
/// the text after the letter and an optional `#` or `b` is an octave number;
/// then `#` gives accidental +1, `b` gives -1, none gives 0, and the octave is
/// that number.
pub proof fn lemma_note_name_fields(b: Seq<u8>)
    ensures
        ({
            let r = spec_parse_note(b);
            let has_accidental = b.len() > 1 && (b[1] == 35u8 || b[1] == 98u8);
            let k: int = if has_accidental {
                2
            } else {
                1
            };
            let letter_ok = b.len() > 0 && ((65u8 <= b[0] && b[0] <= 71u8) || (97u8 <= b[0] && b[0]
                <= 103u8));
            &&& r is Some <==> (letter_ok && spec_parse_i32(b.skip(k)) is Some)
            &&& r is Some ==> {
                &&& (b[0] == 67u8 || b[0] == 99u8) ==> r.unwrap().semitone_from_c == 0
                &&& (b[0] == 68u8 || b[0] == 100u8) ==> r.unwrap().semitone_from_c == 2
                &&& (b[0] == 69u8 || b[0] == 101u8) ==> r.unwrap().semitone_from_c == 4
                &&& (b[0] == 70u8 || b[0] == 102u8) ==> r.unwrap().semitone_from_c == 5
                &&& (b[0] == 71u8 || b[0] == 103u8) ==> r.unwrap().semitone_from_c == 7
                &&& (b[0] == 65u8 || b[0] == 97u8) ==> r.unwrap().semitone_from_c == 9
                &&& (b[0] == 66u8 || b[0] == 98u8) ==> r.unwrap().semitone_from_c == 11
                &&& (b.len() > 1 && b[1] == 35u8) ==> r.unwrap().accidental == 1
                &&& (b.len() > 1 && b[1] == 98u8) ==> r.unwrap().accidental == -1
                &&& !has_accidental ==> r.unwrap().accidental == 0
                &&& r.unwrap().octave == spec_parse_i32(b.skip(k)).unwrap()
            }
        }),
{
}

/// The distance from A4, written out: twelve semitones per octave counted
/// from octave -1, plus the letter's semitones above C and the accidental,
/// less A4's 69. A4 is at 0, and one semitone up (same octave) is one more.
pub proof fn lemma_offset_from_a4(n: NoteName)
    ensures
        n.offset_from_a4() == (n.octave + 1) * 12 + n.semitone_from_c + n.accidental - 69,
        n.semitone_from_c == 9 && n.accidental == 0 && n.octave == 4 ==> n.offset_from_a4() == 0,
        n.semitone_from_c < i32::MAX ==> (NoteName {
            semitone_from_c: (n.semitone_from_c + 1) as i32,
            ..n
        }).offset_from_a4() == n.offset_from_a4() + 1,
        n.accidental < i32::MAX ==> (NoteName {
            accidental: (n.accidental + 1) as i32,
            ..n
        }).offset_from_a4() == n.offset_from_a4() + 1,
{
}

} // verus!
