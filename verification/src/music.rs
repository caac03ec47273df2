use vstd::prelude::*;

use crate::text::{
    chars_of, concat, concat3, i64_text, int_text, is_digit, owned, parse_i8, parse_int_spec, parse_u32,
    split_once, split_once_spec, str_eq, string_from_chars,
};

verus! {

/// Ticks per quarter note used by the intermediate representation.
pub const DEFAULT_TICKS_PER_QUARTER: u32 = 480;

/// Errors of the core music types.
#[derive(Debug, Clone, PartialEq, Eq)]
pub enum CoreError {
    InvalidPitchClass(String),
    InvalidPitchLiteral(String),
    InvalidOctave(i8),
    InvalidMidiNumber(i16),
    ZeroDurationDenominator,
    NonPositiveDuration,
    InvalidDurationLiteral(String),
    EmptyChord,
    InvalidTheoryDomain(String),
}

/// The text of a core error, as shown in diagnostics.
pub open spec fn core_error_text(e: CoreError) -> Seq<char> {
    match e {
        CoreError::InvalidPitchClass(v) => "invalid pitch class `"@ + v@ + "`"@,
        CoreError::InvalidPitchLiteral(v) => "invalid pitch literal `"@ + v@ + "`"@,
        CoreError::InvalidOctave(o) => "invalid octave "@ + int_text(o as int)
            + "; supported range is -1..=9"@,
        CoreError::InvalidMidiNumber(n) => "invalid MIDI note "@ + int_text(n as int)
            + "; supported range is 0..=127"@,
        CoreError::ZeroDurationDenominator => "duration denominator must not be zero"@,
        CoreError::NonPositiveDuration => "duration must be positive"@,
        CoreError::InvalidDurationLiteral(v) => "invalid duration literal `"@ + v@ + "`"@,
        CoreError::EmptyChord => "chord must contain at least one pitch"@,
        CoreError::InvalidTheoryDomain(v) => "invalid theory domain `"@ + v@ + "`"@,
    }
}

impl CoreError {
    /// The error's message (its `Display` text).
    pub fn message(&self) -> (r: String)
        ensures
            r@ == core_error_text(*self),
    {
        match self {
            CoreError::InvalidPitchClass(v) => concat3("invalid pitch class `", v.as_str(), "`"),
            CoreError::InvalidPitchLiteral(v) => concat3(
                "invalid pitch literal `",
                v.as_str(),
                "`",
            ),
            CoreError::InvalidOctave(o) => {
                let n = i64_text(*o as i64);
                concat3("invalid octave ", n.as_str(), "; supported range is -1..=9")
            },
            CoreError::InvalidMidiNumber(m) => {
                let n = i64_text(*m as i64);
                concat3("invalid MIDI note ", n.as_str(), "; supported range is 0..=127")
            },
            CoreError::ZeroDurationDenominator => owned("duration denominator must not be zero"),
            CoreError::NonPositiveDuration => owned("duration must be positive"),
            CoreError::InvalidDurationLiteral(v) => concat3(
                "invalid duration literal `",
                v.as_str(),
                "`",
            ),
            CoreError::EmptyChord => owned("chord must contain at least one pitch"),
            CoreError::InvalidTheoryDomain(v) => concat3(
                "invalid theory domain `",
                v.as_str(),
                "`",
            ),
        }
    }
}

/// The twelve pitch classes, spelled with sharps.
#[derive(Debug, Clone, Copy, PartialEq, Eq, Structural, Hash, PartialOrd, Ord)]
pub enum PitchClass {
    C,
    Cs,
    D,
    Ds,
    E,
    F,
    Fs,
    G,
    Gs,
    A,
    As,
    B,
}

/// Semitones of a pitch class above C.
pub open spec fn semitone_of(p: PitchClass) -> int {
    match p {
        PitchClass::C => 0,
        PitchClass::Cs => 1,
        PitchClass::D => 2,
        PitchClass::Ds => 3,
        PitchClass::E => 4,
        PitchClass::F => 5,
        PitchClass::Fs => 6,
        PitchClass::G => 7,
        PitchClass::Gs => 8,
        PitchClass::A => 9,
        PitchClass::As => 10,
        PitchClass::B => 11,
    }
}

/// The pitch class `n` semitones above C, counted modulo 12.
pub open spec fn class_of_semitone(n: int) -> PitchClass {
    let r = n % 12;
    if r == 0 {
        PitchClass::C
    } else if r == 1 {
        PitchClass::Cs
    } else if r == 2 {
        PitchClass::D
    } else if r == 3 {
        PitchClass::Ds
    } else if r == 4 {
        PitchClass::E
    } else if r == 5 {
        PitchClass::F
    } else if r == 6 {
        PitchClass::Fs
    } else if r == 7 {
        PitchClass::G
    } else if r == 8 {
        PitchClass::Gs
    } else if r == 9 {
        PitchClass::A
    } else if r == 10 {
        PitchClass::As
    } else {
        PitchClass::B
    }
}

/// The spellings that `PitchClass::from_str` accepts.
pub open spec fn pitch_class_from_text(t: Seq<char>) -> Option<PitchClass> {
    if t == "C"@ {
        Some(PitchClass::C)
    } else if t == "C#"@ || t == "Db"@ {
        Some(PitchClass::Cs)
    } else if t == "D"@ {
        Some(PitchClass::D)
    } else if t == "D#"@ || t == "Eb"@ {
        Some(PitchClass::Ds)
    } else if t == "E"@ || t == "Fb"@ {
        Some(PitchClass::E)
    } else if t == "F"@ || t == "E#"@ {
        Some(PitchClass::F)
    } else if t == "F#"@ || t == "Gb"@ {
        Some(PitchClass::Fs)
    } else if t == "G"@ {
        Some(PitchClass::G)
    } else if t == "G#"@ || t == "Ab"@ {
        Some(PitchClass::Gs)
    } else if t == "A"@ {
        Some(PitchClass::A)
    } else if t == "A#"@ || t == "Bb"@ {
        Some(PitchClass::As)
    } else if t == "B"@ || t == "Cb"@ {
        Some(PitchClass::B)
    } else {
        None
    }
}

/// The sharp spelling of a pitch class (its `Display` text).
pub open spec fn pitch_class_text(p: PitchClass) -> Seq<char> {
    match p {
        PitchClass::C => "C"@,
        PitchClass::Cs => "C#"@,
        PitchClass::D => "D"@,
        PitchClass::Ds => "D#"@,
        PitchClass::E => "E"@,
        PitchClass::F => "F"@,
        PitchClass::Fs => "F#"@,
        PitchClass::G => "G"@,
        PitchClass::Gs => "G#"@,
        PitchClass::A => "A"@,
        PitchClass::As => "A#"@,
        PitchClass::B => "B"@,
    }
}

/// Reading the name of a pitch class gives the class back (its `Display` text parses
/// to it).
pub proof fn lemma_pitch_class_name_parses(c: PitchClass)
    ensures
        pitch_class_from_text(pitch_class_text(c)) == Some(c),
{
    reveal_strlit("C");
    reveal_strlit("C#");
    reveal_strlit("Db");
    reveal_strlit("D");
    reveal_strlit("D#");
    reveal_strlit("Eb");
    reveal_strlit("E");
    reveal_strlit("Fb");
    reveal_strlit("F");
    reveal_strlit("E#");
    reveal_strlit("F#");
    reveal_strlit("Gb");
    reveal_strlit("G");
    reveal_strlit("G#");
    reveal_strlit("Ab");
    reveal_strlit("A");
    reveal_strlit("A#");
    reveal_strlit("Bb");
    reveal_strlit("B");
    reveal_strlit("Cb");
    assert("C"@.len() == 1 && "C"@[0] == 'C');
    assert("C#"@.len() == 2 && "C#"@[0] == 'C' && "C#"@[1] == '#');
    assert("Db"@.len() == 2 && "Db"@[0] == 'D' && "Db"@[1] == 'b');
    assert("D"@.len() == 1 && "D"@[0] == 'D');
    assert("D#"@.len() == 2 && "D#"@[0] == 'D' && "D#"@[1] == '#');
    assert("Eb"@.len() == 2 && "Eb"@[0] == 'E' && "Eb"@[1] == 'b');
    assert("E"@.len() == 1 && "E"@[0] == 'E');
    assert("Fb"@.len() == 2 && "Fb"@[0] == 'F' && "Fb"@[1] == 'b');
    assert("F"@.len() == 1 && "F"@[0] == 'F');
    assert("E#"@.len() == 2 && "E#"@[0] == 'E' && "E#"@[1] == '#');
    assert("F#"@.len() == 2 && "F#"@[0] == 'F' && "F#"@[1] == '#');
    assert("Gb"@.len() == 2 && "Gb"@[0] == 'G' && "Gb"@[1] == 'b');
    assert("G"@.len() == 1 && "G"@[0] == 'G');
    assert("G#"@.len() == 2 && "G#"@[0] == 'G' && "G#"@[1] == '#');
    assert("Ab"@.len() == 2 && "Ab"@[0] == 'A' && "Ab"@[1] == 'b');
    assert("A"@.len() == 1 && "A"@[0] == 'A');
    assert("A#"@.len() == 2 && "A#"@[0] == 'A' && "A#"@[1] == '#');
    assert("Bb"@.len() == 2 && "Bb"@[0] == 'B' && "Bb"@[1] == 'b');
    assert("B"@.len() == 1 && "B"@[0] == 'B');
    assert("Cb"@.len() == 2 && "Cb"@[0] == 'C' && "Cb"@[1] == 'b');
    match c {
        PitchClass::C => {
            assert(pitch_class_text(c) == "C"@);
            assert(pitch_class_from_text("C"@) == Some(PitchClass::C));
        },
        PitchClass::Cs => {
            assert(pitch_class_text(c) == "C#"@);
            assert(pitch_class_from_text("C#"@) == Some(PitchClass::Cs));
        },
        PitchClass::D => {
            assert(pitch_class_text(c) == "D"@);
            assert(pitch_class_from_text("D"@) == Some(PitchClass::D));
        },
        PitchClass::Ds => {
            assert(pitch_class_text(c) == "D#"@);
            assert(pitch_class_from_text("D#"@) == Some(PitchClass::Ds));
        },
        PitchClass::E => {
            assert(pitch_class_text(c) == "E"@);
            assert(pitch_class_from_text("E"@) == Some(PitchClass::E));
        },
        PitchClass::F => {
            assert(pitch_class_text(c) == "F"@);
            assert(pitch_class_from_text("F"@) == Some(PitchClass::F));
        },
        PitchClass::Fs => {
            assert(pitch_class_text(c) == "F#"@);
            assert(pitch_class_from_text("F#"@) == Some(PitchClass::Fs));
        },
        PitchClass::G => {
            assert(pitch_class_text(c) == "G"@);
            assert(pitch_class_from_text("G"@) == Some(PitchClass::G));
        },
        PitchClass::Gs => {
            assert(pitch_class_text(c) == "G#"@);
            assert(pitch_class_from_text("G#"@) == Some(PitchClass::Gs));
        },
        PitchClass::A => {
            assert(pitch_class_text(c) == "A"@);
            assert(pitch_class_from_text("A"@) == Some(PitchClass::A));
        },
        PitchClass::As => {
            assert(pitch_class_text(c) == "A#"@);
            assert(pitch_class_from_text("A#"@) == Some(PitchClass::As));
        },
        PitchClass::B => {
            assert(pitch_class_text(c) == "B"@);
            assert(pitch_class_from_text("B"@) == Some(PitchClass::B));
        },
    }
}

impl PitchClass {
    pub fn semitone(self) -> (r: i16)
        ensures
            r == semitone_of(self),
            0 <= r < 12,
    {
        match self {
            PitchClass::C => 0,
            PitchClass::Cs => 1,
            PitchClass::D => 2,
            PitchClass::Ds => 3,
            PitchClass::E => 4,
            PitchClass::F => 5,
            PitchClass::Fs => 6,
            PitchClass::G => 7,
            PitchClass::Gs => 8,
            PitchClass::A => 9,
            PitchClass::As => 10,
            PitchClass::B => 11,
        }
    }

    pub fn from_semitone(semitone: i16) -> (r: PitchClass)
        ensures
            r == class_of_semitone(semitone as int),
    {
        let m = semitone % 12;
        let r = if m < 0 {
            m + 12
        } else {
            m
        };
        assert(r as int == (semitone as int) % 12);
        if r == 0 {
            PitchClass::C
        } else if r == 1 {
            PitchClass::Cs
        } else if r == 2 {
            PitchClass::D
        } else if r == 3 {
            PitchClass::Ds
        } else if r == 4 {
            PitchClass::E
        } else if r == 5 {
            PitchClass::F
        } else if r == 6 {
            PitchClass::Fs
        } else if r == 7 {
            PitchClass::G
        } else if r == 8 {
            PitchClass::Gs
        } else if r == 9 {
            PitchClass::A
        } else if r == 10 {
            PitchClass::As
        } else {
            PitchClass::B
        }
    }

    /// Reads a pitch class spelling (`FromStr`).
    pub fn parse(value: &str) -> (r: Result<PitchClass, CoreError>)
        ensures
            r matches Ok(p) ==> pitch_class_from_text(value@) == Some(p),
            r is Err <==> pitch_class_from_text(value@) is None,
            r matches Err(e) ==> (e matches CoreError::InvalidPitchClass(t) && t@ == value@),
    {
        if str_eq(value, "C") {
            Ok(PitchClass::C)
        } else if str_eq(value, "C#") || str_eq(value, "Db") {
            Ok(PitchClass::Cs)
        } else if str_eq(value, "D") {
            Ok(PitchClass::D)
        } else if str_eq(value, "D#") || str_eq(value, "Eb") {
            Ok(PitchClass::Ds)
        } else if str_eq(value, "E") || str_eq(value, "Fb") {
            Ok(PitchClass::E)
        } else if str_eq(value, "F") || str_eq(value, "E#") {
            Ok(PitchClass::F)
        } else if str_eq(value, "F#") || str_eq(value, "Gb") {
            Ok(PitchClass::Fs)
        } else if str_eq(value, "G") {
            Ok(PitchClass::G)
        } else if str_eq(value, "G#") || str_eq(value, "Ab") {
            Ok(PitchClass::Gs)
        } else if str_eq(value, "A") {
            Ok(PitchClass::A)
        } else if str_eq(value, "A#") || str_eq(value, "Bb") {
            Ok(PitchClass::As)
        } else if str_eq(value, "B") || str_eq(value, "Cb") {
            Ok(PitchClass::B)
        } else {
            Err(CoreError::InvalidPitchClass(owned(value)))
        }
    }

    /// The sharp spelling (the `Display` text).
    pub fn name(self) -> (r: &'static str)
        ensures
            r@ == pitch_class_text(self),
    {
        match self {
            PitchClass::C => "C",
            PitchClass::Cs => "C#",
            PitchClass::D => "D",
            PitchClass::Ds => "D#",
            PitchClass::E => "E",
            PitchClass::F => "F",
            PitchClass::Fs => "F#",
            PitchClass::G => "G",
            PitchClass::Gs => "G#",
            PitchClass::A => "A",
            PitchClass::As => "A#",
            PitchClass::B => "B",
        }
    }
}

/// A pitch: a pitch class in an octave (C4 is MIDI 60).
#[derive(Debug, Clone, Copy, PartialEq, Eq, Structural, Hash)]
pub struct Pitch {
    class: PitchClass,
    octave: i8,
}

/// MIDI number of a pitch class in an octave, before any range check.
pub open spec fn midi_of(class: PitchClass, octave: int) -> int {
    (octave + 1) * 12 + semitone_of(class)
}

/// What `Pitch::midi_number` gives for a class and an octave.
pub open spec fn midi_result(class: PitchClass, octave: i8) -> Result<u8, CoreError> {
    if !(-1 <= octave <= 9) {
        Err(CoreError::InvalidOctave(octave))
    } else if !(0 <= midi_of(class, octave as int) <= 127) {
        Err(CoreError::InvalidMidiNumber(midi_of(class, octave as int) as i16))
    } else {
        Ok(midi_of(class, octave as int) as u8)
    }
}

/// The pitch with MIDI number `n`, for `n` in `0..=127`.
pub open spec fn pitch_of_midi(n: int) -> (PitchClass, int) {
    (class_of_semitone(n), n / 12 - 1)
}

impl Pitch {
    pub closed spec fn class_spec(self) -> PitchClass {
        self.class
    }

    /// The pitch a literal spells, when it spells one with a MIDI number.
    pub closed spec fn literal_spec(s: Seq<char>) -> Option<Pitch> {
        match pitch_literal(s) {
            Some((c, o)) => if midi_result(c, o) is Ok {
                Some(Pitch { class: c, octave: o })
            } else {
                None
            },
            None => None,
        }
    }

    pub closed spec fn octave_spec(self) -> i8 {
        self.octave
    }

    /// The pitch's MIDI number, when it has one in range.
    pub open spec fn midi_spec(self) -> Result<u8, CoreError> {
        midi_result(self.class_spec(), self.octave_spec())
    }

    /// A pitch whose MIDI number lies in `0..=127`.
    pub open spec fn valid(self) -> bool {
        self.midi_spec() is Ok
    }

    pub fn new(class: PitchClass, octave: i8) -> (r: Result<Pitch, CoreError>)
        ensures
            r matches Ok(p) ==> p.class_spec() == class && p.octave_spec() == octave && p.valid(),
            r matches Err(e) ==> midi_result(class, octave) == Err::<u8, CoreError>(e),
    {
        let pitch = Pitch { class, octave };
        match pitch.midi_number() {
            Ok(_) => Ok(pitch),
            Err(e) => Err(e),
        }
    }

    pub fn from_midi_number(midi_number: i16) -> (r: Result<Pitch, CoreError>)
        ensures
            r is Ok <==> 0 <= midi_number <= 127,
            r matches Ok(p) ==> p == Pitch::of_midi_spec(midi_number as int) && p.class_spec()
                == pitch_of_midi(midi_number as int).0 && p.octave_spec() == pitch_of_midi(
                midi_number as int,
            ).1 && p.midi_spec() == Ok::<u8, CoreError>(midi_number as u8),
            r matches Err(e) ==> e == CoreError::InvalidMidiNumber(midi_number),
    {
        if !(0 <= midi_number && midi_number <= 127) {
            return Err(CoreError::InvalidMidiNumber(midi_number));
        }
        let class = PitchClass::from_semitone(midi_number);
        let octave = (midi_number / 12) as i8 - 1;
        let p = Pitch { class, octave };
        assert(midi_of(class, octave as int) == midi_number) by {
            assert(semitone_of(class_of_semitone(midi_number as int)) == (midi_number as int) % 12);
        }
        Ok(p)
    }

    pub fn class(self) -> (r: PitchClass)
        ensures
            r == self.class_spec(),
    {
        self.class
    }

    pub fn octave(self) -> (r: i8)
        ensures
            r == self.octave_spec(),
    {
        self.octave
    }

    pub fn midi_number(self) -> (r: Result<u8, CoreError>)
        ensures
            r == self.midi_spec(),
    {
        if !(-1 <= self.octave && self.octave <= 9) {
            return Err(CoreError::InvalidOctave(self.octave));
        }
        let number: i16 = (self.octave as i16 + 1) * 12 + self.class.semitone();
        if !(0 <= number && number <= 127) {
            return Err(CoreError::InvalidMidiNumber(number));
        }
        Ok(number as u8)
    }

    /// The pitch `interval` away, when both have MIDI numbers in range.
    pub fn transpose(self, interval: Interval) -> (r: Result<Pitch, CoreError>)
        ensures
            r == self.transpose_spec(interval),
            self.midi_spec() is Err ==> r == Err::<Pitch, CoreError>(self.midi_spec()->Err_0),
            self.midi_spec() matches Ok(m) ==> {
                let target = m as int + interval.semitones_spec();
                &&& (r is Ok <==> 0 <= target <= 127)
                &&& r matches Ok(p) ==> p.midi_spec() == Ok::<u8, CoreError>(target as u8)
                    && p.class_spec() == pitch_of_midi(target).0 && p.octave_spec()
                    == pitch_of_midi(target).1
                &&& r matches Err(e) ==> e == CoreError::InvalidMidiNumber(target as i16)
            },
    {
        let m = match self.midi_number() {
            Ok(m) => m,
            Err(e) => return Err(e),
        };
        let target: i32 = m as i32 + interval.semitones() as i32;
        if target < -32768 || target > 32767 {
            return Err(CoreError::InvalidMidiNumber(target as i16));
        }
        Pitch::from_midi_number(target as i16)
    }

    /// The pitch a given interval up (`Pitch + Interval`).
    pub fn add(self, rhs: Interval) -> (r: Result<Pitch, CoreError>)
        ensures
            r == self.transpose_spec(rhs),
    {
        self.transpose(rhs)
    }

    /// The pitch a given interval down (`Pitch - Interval`).
    pub fn sub(self, rhs: Interval) -> (r: Result<Pitch, CoreError>)
        requires
            rhs.semitones_spec() > i16::MIN,
        ensures
            r == self.transpose_spec(rhs.neg_spec()),
    {
        self.transpose(rhs.neg())
    }

    /// The pitch with MIDI number `n`.
    pub closed spec fn of_midi_spec(n: int) -> Pitch {
        Pitch { class: class_of_semitone(n), octave: (n / 12 - 1) as i8 }
    }

    /// What `transpose` gives.
    pub closed spec fn transpose_spec(self, interval: Interval) -> Result<Pitch, CoreError> {
        match self.midi_spec() {
            Err(e) => Err(e),
            Ok(m) => {
                let t = m as int + interval.semitones_spec();
                if 0 <= t <= 127 {
                    Ok(Pitch::of_midi_spec(t))
                } else {
                    Err(CoreError::InvalidMidiNumber(t as i16))
                }
            },
        }
    }

    /// A pitch with a MIDI number is the pitch of that number: reading a pitch's MIDI
    /// number and building the pitch from it gives the pitch back.
    pub proof fn lemma_midi_round_trip(p: Pitch)
        requires
            p.valid(),
        ensures
            p.midi_spec() matches Ok(m) && Pitch::of_midi_spec(m as int) == p,
    {
        let m = midi_of(p.class, p.octave as int);
        assert(m % 12 == semitone_of(p.class)) by {
            assert(m == (p.octave + 1) * 12 + semitone_of(p.class));
            vstd::arithmetic::div_mod::lemma_fundamental_div_mod(m, 12);
            vstd::arithmetic::div_mod::lemma_mod_multiples_vanish(p.octave + 1, semitone_of(p.class), 12);
            vstd::arithmetic::div_mod::lemma_small_mod(semitone_of(p.class) as nat, 12);
        }
        assert(m / 12 == p.octave + 1) by {
            vstd::arithmetic::div_mod::lemma_fundamental_div_mod(m, 12);
        }
        assert(class_of_semitone(m) == p.class) by {
            match p.class {
                PitchClass::C => {},
                PitchClass::Cs => {},
                PitchClass::D => {},
                PitchClass::Ds => {},
                PitchClass::E => {},
                PitchClass::F => {},
                PitchClass::Fs => {},
                PitchClass::G => {},
                PitchClass::Gs => {},
                PitchClass::A => {},
                PitchClass::As => {},
                PitchClass::B => {},
            }
        }
    }

    /// Transposing a pitch by an interval and then back by the same interval gives
    /// the pitch again (`(p + i) - i == p` whenever `p + i` is a pitch).
    pub proof fn lemma_transpose_back(p: Pitch, i: Interval)
        requires
            p.valid(),
            i.semitones_spec() > i16::MIN,
            p.transpose_spec(i) is Ok,
        ensures
            p.transpose_spec(i)->Ok_0.transpose_spec(i.neg_spec()) == Ok::<Pitch, CoreError>(p),
    {
        let m = p.midi_spec()->Ok_0;
        let t = m as int + i.semitones_spec();
        let q = Pitch::of_midi_spec(t);
        assert(0 <= t <= 127);
        crate::music::lemma_of_midi_number(t);
        assert(q.midi_spec() == Ok::<u8, CoreError>(t as u8));
        assert(t - i.semitones_spec() == m);
        Pitch::lemma_midi_round_trip(p);
    }

    /// Reads a pitch literal such as `C4`, `Bb3` or `C-1` (`FromStr`).
    pub fn parse(value: &str) -> (r: Result<Pitch, CoreError>)
        ensures
            r matches Ok(p) ==> p.valid() && pitch_literal(value@) == Some((p.class_spec(), p.octave_spec())),
            pitch_literal(value@) matches Some((c, o)) ==> (midi_result(c, o) is Ok <==> r is Ok),
            pitch_literal(value@) is None ==> r is Err,
            r matches Ok(p) ==> Pitch::literal_spec(value@) == Some(p),
            r is Err <==> Pitch::literal_spec(value@) is None,
    {
        let v = chars_of(value);
        let mut i: usize = 0;
        while i < v.len() && !(('0' <= v[i] && v[i] <= '9') || v[i] == '-')
            invariant
                i <= v@.len(),
                forall|j: int| 0 <= j < i ==> !octave_start(#[trigger] v@[j]),
            decreases v.len() - i,
        {
            i = i + 1;
        }
        proof {
            lemma_octave_split(v@, i as int);
        }
        if i == v.len() {
            return Err(CoreError::InvalidPitchLiteral(owned(value)));
        }
        let class_text = string_from_chars(&v, 0, i);
        let octave_text = string_from_chars(&v, i, v.len());
        assert(class_text@ == value@.take(i as int));
        assert(octave_text@ == value@.skip(i as int));
        let octave = match parse_i8(octave_text.as_str()) {
            Some(o) => o,
            None => return Err(CoreError::InvalidPitchLiteral(owned(value))),
        };
        let class = match PitchClass::parse(class_text.as_str()) {
            Ok(c) => c,
            Err(e) => return Err(e),
        };
        Pitch::new(class, octave)
    }

    /// Reading a pitch's text gives the pitch's class and octave back (its `Display`
    /// text parses to it).
    pub proof fn lemma_text_parses(p: Pitch)
        ensures
            pitch_literal(pitch_class_text(p.class_spec()) + int_text(p.octave_spec() as int)) == Some(
                (p.class_spec(), p.octave_spec()),
            ),
    {
        let a = pitch_class_text(p.class);
        let b = int_text(p.octave as int);
        lemma_pitch_class_name_parses(p.class);
        crate::text::lemma_int_text_parses(p.octave as int);
        lemma_pitch_class_text_plain(p.class);
        assert(b.len() >= 1 && octave_start(b[0])) by {
            if p.octave < 0 {
                assert(b[0] == '-');
            } else {
                crate::text::lemma_decimal_digits(p.octave as nat);
                assert(crate::text::all_digits(b));
            }
        }
        lemma_octave_index_after(a, b);
        assert((a + b).take(a.len() as int) =~= a);
        assert((a + b).skip(a.len() as int) =~= b);
    }

    /// The pitch's text such as `C#4` (its `Display` text).
    pub fn to_text(self) -> (r: String)
        ensures
            r@ == pitch_class_text(self.class_spec()) + int_text(self.octave_spec() as int),
    {
        let o = i64_text(self.octave as i64);
        concat(self.class.name(), o.as_str())
    }
}

/// A character at which the octave of a pitch literal starts.
pub open spec fn octave_start(c: char) -> bool {
    is_digit(c) || c == '-'
}

/// Index of the first octave character of a pitch literal.
pub open spec fn octave_index(s: Seq<char>) -> int
    decreases s.len(),
{
    if s.len() == 0 {
        -1
    } else if octave_start(s[0]) {
        0
    } else {
        let k = octave_index(s.drop_first());
        if k < 0 {
            -1
        } else {
            k + 1
        }
    }
}

proof fn lemma_of_midi_number(n: int)
    requires
        0 <= n <= 127,
    ensures
        Pitch::of_midi_spec(n).midi_spec() == Ok::<u8, CoreError>(n as u8),
{
    let c = class_of_semitone(n);
    assert(semitone_of(c) == n % 12);
    let o = n / 12 - 1;
    assert(-1 <= o <= 9);
    assert(midi_of(c, o) == n) by {
        vstd::arithmetic::div_mod::lemma_fundamental_div_mod(n, 12);
    }
}

/// No character of a pitch class's name starts an octave.
proof fn lemma_pitch_class_text_plain(c: PitchClass)
    ensures
        forall|i: int| 0 <= i < pitch_class_text(c).len() ==> !octave_start(#[trigger] pitch_class_text(c)[i]),
{
    reveal_strlit("C");
    reveal_strlit("C#");
    reveal_strlit("D");
    reveal_strlit("D#");
    reveal_strlit("E");
    reveal_strlit("F");
    reveal_strlit("F#");
    reveal_strlit("G");
    reveal_strlit("G#");
    reveal_strlit("A");
    reveal_strlit("A#");
    reveal_strlit("B");
}

/// The octave of a literal starts right after a prefix without octave characters.
proof fn lemma_octave_index_after(a: Seq<char>, b: Seq<char>)
    requires
        forall|i: int| 0 <= i < a.len() ==> !octave_start(#[trigger] a[i]),
        b.len() >= 1,
        octave_start(b[0]),
    ensures
        octave_index(a + b) == a.len(),
    decreases a.len(),
{
    if a.len() == 0 {
        assert(a + b =~= b);
    } else {
        assert((a + b).drop_first() =~= a.drop_first() + b);
        assert((a + b)[0] == a[0]);
        assert forall|i: int| 0 <= i < a.drop_first().len() implies !octave_start(#[trigger] a.drop_first()[i]) by {
            assert(a.drop_first()[i] == a[i + 1]);
        }
        lemma_octave_index_after(a.drop_first(), b);
    }
}

proof fn lemma_octave_split(s: Seq<char>, i: int)
    requires
        0 <= i <= s.len(),
        forall|j: int| 0 <= j < i ==> !octave_start(#[trigger] s[j]),
        i == s.len() || octave_start(s[i]),
    ensures
        octave_index(s) == (if i == s.len() {
            -1
        } else {
            i
        }),
    decreases i,
{
    if i > 0 {
        assert forall|j: int| 0 <= j < i - 1 implies !octave_start(#[trigger] s.drop_first()[j]) by {
            assert(s.drop_first()[j] == s[j + 1]);
        }
        if i < s.len() {
            assert(s.drop_first()[i - 1] == s[i]);
        }
        assert(!octave_start(s[0]));
        lemma_octave_split(s.drop_first(), i - 1);
    }
}

/// The class and octave that a pitch literal spells, when it spells one: the text before
/// the first digit or `-` names the class, the rest reads as an `i8`.
pub open spec fn pitch_literal(s: Seq<char>) -> Option<(PitchClass, i8)> {
    let k = octave_index(s);
    if k < 0 {
        None
    } else {
        match (pitch_class_from_text(s.take(k)), parse_int_spec(s.skip(k), true, -128, 127)) {
            (Some(c), Some(o)) => Some((c, o as i8)),
            _ => None,
        }
    }
}

/// A signed distance in semitones.
#[derive(Debug, Clone, Copy, PartialEq, Eq, Structural, Hash)]
pub struct Interval {
    semitones: i16,
}

/// The interval names that `Interval::from_str` accepts, with their sizes.
pub open spec fn interval_from_text(t: Seq<char>) -> Option<int> {
    if t == "m2"@ {
        Some(1)
    } else if t == "M2"@ {
        Some(2)
    } else if t == "m3"@ {
        Some(3)
    } else if t == "M3"@ {
        Some(4)
    } else if t == "P4"@ {
        Some(5)
    } else if t == "TT"@ {
        Some(6)
    } else if t == "P5"@ {
        Some(7)
    } else if t == "m6"@ {
        Some(8)
    } else if t == "M6"@ {
        Some(9)
    } else if t == "m7"@ {
        Some(10)
    } else if t == "M7"@ {
        Some(11)
    } else if t == "P8"@ {
        Some(12)
    } else {
        None
    }
}

impl Interval {
    pub closed spec fn semitones_spec(self) -> int {
        self.semitones as int
    }

    /// The interval a name spells.
    pub closed spec fn literal_spec(s: Seq<char>) -> Option<Interval> {
        match interval_from_text(s) {
            Some(n) => Some(Interval { semitones: n as i16 }),
            None => None,
        }
    }

    pub closed spec fn neg_spec(self) -> Interval {
        Interval { semitones: (-self.semitones) as i16 }
    }

    pub fn new(semitones: i16) -> (r: Interval)
        ensures
            r.semitones_spec() == semitones,
    {
        Interval { semitones }
    }

    pub fn minor_third() -> (r: Interval)
        ensures
            r.semitones_spec() == 3,
    {
        Interval { semitones: 3 }
    }

    pub fn major_third() -> (r: Interval)
        ensures
            r.semitones_spec() == 4,
    {
        Interval { semitones: 4 }
    }

    pub fn perfect_fifth() -> (r: Interval)
        ensures
            r.semitones_spec() == 7,
    {
        Interval { semitones: 7 }
    }

    pub fn semitones(self) -> (r: i16)
        ensures
            r == self.semitones_spec(),
    {
        self.semitones
    }

    /// The interval in the other direction (`-interval`).
    pub fn neg(self) -> (r: Interval)
        requires
            self.semitones_spec() > i16::MIN,
        ensures
            r == self.neg_spec(),
            r.semitones_spec() == -self.semitones_spec(),
    {
        Interval { semitones: -self.semitones }
    }

    /// Reads an interval name such as `M3` (`FromStr`).
    pub fn parse(value: &str) -> (r: Result<Interval, CoreError>)
        ensures
            r matches Ok(i) ==> interval_from_text(value@) == Some(i.semitones_spec()),
            r is Err <==> interval_from_text(value@) is None,
            r matches Err(e) ==> (e matches CoreError::InvalidPitchLiteral(t) && t@ == value@),
            r matches Ok(i) ==> Interval::literal_spec(value@) == Some(i),
            r is Err <==> Interval::literal_spec(value@) is None,
    {
        if str_eq(value, "m2") {
            Ok(Interval::new(1))
        } else if str_eq(value, "M2") {
            Ok(Interval::new(2))
        } else if str_eq(value, "m3") {
            Ok(Interval::minor_third())
        } else if str_eq(value, "M3") {
            Ok(Interval::major_third())
        } else if str_eq(value, "P4") {
            Ok(Interval::new(5))
        } else if str_eq(value, "TT") {
            Ok(Interval::new(6))
        } else if str_eq(value, "P5") {
            Ok(Interval::perfect_fifth())
        } else if str_eq(value, "m6") {
            Ok(Interval::new(8))
        } else if str_eq(value, "M6") {
            Ok(Interval::new(9))
        } else if str_eq(value, "m7") {
            Ok(Interval::new(10))
        } else if str_eq(value, "M7") {
            Ok(Interval::new(11))
        } else if str_eq(value, "P8") {
            Ok(Interval::new(12))
        } else {
            Err(CoreError::InvalidPitchLiteral(owned(value)))
        }
    }
}

/// Greatest common divisor.
pub open spec fn gcd_spec(a: nat, b: nat) -> nat
    decreases b,
{
    if b == 0 {
        a
    } else {
        gcd_spec(b, a % b)
    }
}

#[verifier::spinoff_prover]
proof fn lemma_gcd_divides(a: nat, b: nat)
    requires
        a > 0 || b > 0,
    ensures
        gcd_spec(a, b) > 0,
        a % gcd_spec(a, b) == 0,
        b % gcd_spec(a, b) == 0,
    decreases b,
{
    if b > 0 {
        lemma_gcd_divides(b, a % b);
        let g = gcd_spec(b, a % b);
        // a == (a / b) * b + a % b, and g divides both b and a % b
        vstd::arithmetic::div_mod::lemma_fundamental_div_mod(a as int, b as int);
        vstd::arithmetic::div_mod::lemma_mod_multiples_basic((a / b) as int * (b / g) as int, g as int);
        vstd::arithmetic::div_mod::lemma_fundamental_div_mod(b as int, g as int);
        vstd::arithmetic::div_mod::lemma_fundamental_div_mod((a % b) as int, g as int);
        assert(a as int == ((a / b) * (b / g) + (a % b) / g) * g) by (nonlinear_arith)
            requires
                a as int == b as int * (a / b) as int + (a % b) as int,
                b as int == g as int * (b / g) as int,
                (a % b) as int == g as int * ((a % b) / g) as int,
        ;
        vstd::arithmetic::div_mod::lemma_mod_multiples_basic(
            ((a / b) * (b / g) + (a % b) / g) as int,
            g as int,
        );
    }
}

/// Every common divisor of two numbers divides their greatest common divisor.
proof fn lemma_common_divisor_divides_gcd(a: nat, b: nat, c: nat)
    requires
        c > 0,
        a % c == 0,
        b % c == 0,
    ensures
        gcd_spec(a, b) % c == 0,
    decreases b,
{
    if b > 0 {
        vstd::arithmetic::div_mod::lemma_fundamental_div_mod(a as int, b as int);
        vstd::arithmetic::div_mod::lemma_fundamental_div_mod(a as int, c as int);
        vstd::arithmetic::div_mod::lemma_fundamental_div_mod(b as int, c as int);
        let x = (a / c) as int;
        let y = (b / c) as int;
        let q = (a / b) as int;
        assert((a % b) as int == (x - y * q) * c) by (nonlinear_arith)
            requires
                a as int == b as int * q + (a % b) as int,
                a as int == c as int * x,
                b as int == c as int * y,
        ;
        assert(x - y * q >= 0) by (nonlinear_arith)
            requires
                (a % b) as int == (x - y * q) * c,
                c > 0,
                (a % b) >= 0,
        ;
        vstd::arithmetic::div_mod::lemma_mod_multiples_basic(x - y * q, c as int);
        lemma_common_divisor_divides_gcd(b, a % b, c);
    }
}

/// The greatest common divisor of two multiples of `k` is `k` times theirs.
proof fn lemma_gcd_scale(a: nat, b: nat, k: nat)
    requires
        k > 0,
    ensures
        gcd_spec(k * a, k * b) == k * gcd_spec(a, b),
    decreases b,
{
    if b > 0 {
        vstd::arithmetic::div_mod::lemma_fundamental_div_mod(a as int, b as int);
        let q = (a / b) as int;
        let r = (a % b) as int;
        assert(0 <= k * r < k * b) by (nonlinear_arith)
            requires
                0 <= r < b,
                k > 0,
        ;
        assert((k * a) as int == q * (k * b) + k * r) by (nonlinear_arith)
            requires
                a as int == b * q + r,
        ;
        vstd::arithmetic::div_mod::lemma_fundamental_div_mod_converse((k * a) as int, (k * b) as int, q, k * r);
        assert((k * a) % (k * b) == k * (a % b));
        lemma_gcd_scale(b, a % b, k);
    } else {
        assert(k * b == 0) by (nonlinear_arith)
            requires
                b == 0,
        ;
    }
}

/// A duration is kept in lowest terms: whatever numerator and denominator it was made from,
/// its own have no common divisor but 1.
pub proof fn lemma_duration_lowest_terms(numerator: nat, denominator: nat)
    requires
        numerator > 0,
        denominator > 0,
    ensures
        duration_result(numerator, denominator) matches Ok((a, b)) && a > 0 && b > 0 && gcd_spec(a, b)
            == 1,
{
    let g = gcd_spec(numerator, denominator);
    lemma_gcd_divides(numerator, denominator);
    vstd::arithmetic::div_mod::lemma_fundamental_div_mod(numerator as int, g as int);
    vstd::arithmetic::div_mod::lemma_fundamental_div_mod(denominator as int, g as int);
    let a = numerator / g;
    let b = denominator / g;
    assert(a > 0 && b > 0) by (nonlinear_arith)
        requires
            numerator as int == g * a,
            denominator as int == g * b,
            numerator > 0,
            denominator > 0,
            g > 0,
    ;
    let h = gcd_spec(a, b);
    lemma_gcd_divides(a, b);
    vstd::arithmetic::div_mod::lemma_fundamental_div_mod(a as int, h as int);
    vstd::arithmetic::div_mod::lemma_fundamental_div_mod(b as int, h as int);
    let gh = g * h;
    assert(gh > 0) by (nonlinear_arith)
        requires
            gh == g * h,
            g > 0,
            h > 0,
    ;
    assert(numerator as int == gh * (a / h) && denominator as int == gh * (b / h)) by (nonlinear_arith)
        requires
            numerator as int == g * a,
            denominator as int == g * b,
            a as int == h * (a / h),
            b as int == h * (b / h),
            gh == g * h,
    ;
    vstd::arithmetic::div_mod::lemma_mod_multiples_basic((a / h) as int, gh as int);
    vstd::arithmetic::div_mod::lemma_mod_multiples_basic((b / h) as int, gh as int);
    lemma_common_divisor_divides_gcd(numerator, denominator, gh);
    vstd::arithmetic::div_mod::lemma_fundamental_div_mod(g as int, gh as int);
    assert(h == 1) by (nonlinear_arith)
        requires
            g as int == gh * (g / gh),
            gh == g * h,
            g > 0,
            h > 0,
    ;
}

/// Scaling a numerator and a denominator by the same factor makes the same duration.
pub proof fn lemma_duration_scale(numerator: nat, denominator: nat, k: nat)
    requires
        numerator > 0,
        denominator > 0,
        k > 0,
    ensures
        duration_result(k * numerator, k * denominator) == duration_result(numerator, denominator),
{
    let g = gcd_spec(numerator, denominator);
    lemma_gcd_divides(numerator, denominator);
    lemma_gcd_scale(numerator, denominator, k);
    vstd::arithmetic::div_mod::lemma_fundamental_div_mod(numerator as int, g as int);
    vstd::arithmetic::div_mod::lemma_fundamental_div_mod(denominator as int, g as int);
    let a = (numerator / g) as int;
    let b = (denominator / g) as int;
    assert(k * numerator > 0 && k * denominator > 0 && k * g > 0) by (nonlinear_arith)
        requires
            k > 0,
            numerator > 0,
            denominator > 0,
            g > 0,
    ;
    assert((k * numerator) as int == a * (k * g) + 0 && (k * denominator) as int == b * (k * g) + 0)
        by (nonlinear_arith)
        requires
            numerator as int == g * a,
            denominator as int == g * b,
    ;
    vstd::arithmetic::div_mod::lemma_fundamental_div_mod_converse((k * numerator) as int, (k * g) as int, a, 0);
    vstd::arithmetic::div_mod::lemma_fundamental_div_mod_converse((k * denominator) as int, (k * g) as int, b, 0);
}

fn gcd(a: u32, b: u32) -> (r: u32)
    ensures
        r == gcd_spec(a as nat, b as nat),
{
    let mut x = a;
    let mut y = b;
    while y != 0
        invariant
            gcd_spec(x as nat, y as nat) == gcd_spec(a as nat, b as nat),
        decreases y,
    {
        let r = x % y;
        x = y;
        y = r;
    }
    x
}

/// A positive rational length of time, in whole notes, kept in lowest terms.
#[derive(Debug, Clone, Copy, PartialEq, Eq, Structural, Hash)]
pub struct Duration {
    numerator: u32,
    denominator: u32,
}

/// What `Duration::new` gives for a numerator and a denominator.
pub open spec fn duration_result(numerator: nat, denominator: nat) -> Result<(nat, nat), CoreError> {
    if denominator == 0 {
        Err(CoreError::ZeroDurationDenominator)
    } else if numerator == 0 {
        Err(CoreError::NonPositiveDuration)
    } else {
        let g = gcd_spec(numerator, denominator);
        Ok((numerator / g, denominator / g))
    }
}

impl Duration {
    pub closed spec fn numerator_spec(self) -> nat {
        self.numerator as nat
    }

    /// The duration a literal spells, in lowest terms, when it spells a valid one.
    pub closed spec fn literal_spec(s: Seq<char>) -> Option<Duration> {
        match duration_literal(s) {
            Some((n, d)) => match duration_result(n, d) {
                Ok((a, b)) => Some(Duration { numerator: a as u32, denominator: b as u32 }),
                Err(_) => None,
            },
            None => None,
        }
    }

    pub closed spec fn denominator_spec(self) -> nat {
        self.denominator as nat
    }

    pub fn new(numerator: u32, denominator: u32) -> (r: Result<Duration, CoreError>)
        ensures
            r matches Ok(d) ==> duration_result(numerator as nat, denominator as nat) == Ok::<
                (nat, nat),
                CoreError,
            >((d.numerator_spec(), d.denominator_spec())),
            r matches Err(e) ==> duration_result(numerator as nat, denominator as nat) == Err::<
                (nat, nat),
                CoreError,
            >(e),
    {
        if denominator == 0 {
            return Err(CoreError::ZeroDurationDenominator);
        }
        if numerator == 0 {
            return Err(CoreError::NonPositiveDuration);
        }
        let divisor = gcd(numerator, denominator);
        proof {
            lemma_gcd_divides(numerator as nat, denominator as nat);
        }
        Ok(Duration { numerator: numerator / divisor, denominator: denominator / divisor })
    }

    pub fn numerator(self) -> (r: u32)
        ensures
            r == self.numerator_spec(),
    {
        self.numerator
    }

    pub fn denominator(self) -> (r: u32)
        ensures
            r == self.denominator_spec(),
    {
        self.denominator
    }

    /// Length in ticks: `ticks_per_quarter * 4 * numerator / denominator`.
    pub fn ticks(self, ticks_per_quarter: u32) -> (r: u32)
        requires
            self.denominator_spec() > 0,
            ticks_per_quarter as nat * 4 * self.numerator_spec() <= u32::MAX,
        ensures
            r == (ticks_per_quarter as nat * 4 * self.numerator_spec()) / self.denominator_spec(),
    {
        let wide: u64 = ticks_per_quarter as u64 * 4 * self.numerator as u64;
        let q: u64 = wide / self.denominator as u64;
        assert(q <= wide) by (nonlinear_arith)
            requires
                q == wide / (self.denominator as u64),
                self.denominator > 0,
        ;
        q as u32
    }

    /// Same length of time.
    pub fn same(self, other: Duration) -> (r: bool)
        ensures
            r == (self.numerator_spec() == other.numerator_spec() && self.denominator_spec()
                == other.denominator_spec()),
    {
        self.numerator == other.numerator && self.denominator == other.denominator
    }

    /// Reads a duration literal `numerator/denominator` (`FromStr`).
    pub fn parse(value: &str) -> (r: Result<Duration, CoreError>)
        ensures
            duration_literal(value@) is None ==> (r matches Err(CoreError::InvalidDurationLiteral(
                t,
            )) && t@ == value@),
            duration_literal(value@) matches Some((n, d)) ==> match r {
                Ok(x) => duration_result(n, d) == Ok::<(nat, nat), CoreError>(
                    (x.numerator_spec(), x.denominator_spec()),
                ),
                Err(e) => duration_result(n, d) == Err::<(nat, nat), CoreError>(e),
            },
            r matches Ok(x) ==> Duration::literal_spec(value@) == Some(x),
            r is Err <==> Duration::literal_spec(value@) is None,
    {
        let (a, b) = match split_once(value, '/') {
            Some(pair) => pair,
            None => return Err(CoreError::InvalidDurationLiteral(owned(value))),
        };
        let n = match parse_u32(a.as_str()) {
            Some(n) => n,
            None => return Err(CoreError::InvalidDurationLiteral(owned(value))),
        };
        let d = match parse_u32(b.as_str()) {
            Some(d) => d,
            None => return Err(CoreError::InvalidDurationLiteral(owned(value))),
        };
        Duration::new(n, d)
    }
}

/// The numerator and denominator that a duration literal spells: the text around the
/// first `/`, each read as a `u32`.
pub open spec fn duration_literal(s: Seq<char>) -> Option<(nat, nat)> {
    match split_once_spec(s, '/') {
        Some((a, b)) => match (
            parse_int_spec(a, false, 0, 0xffff_ffff),
            parse_int_spec(b, false, 0, 0xffff_ffff),
        ) {
            (Some(n), Some(d)) => Some((n as nat, d as nat)),
            _ => None,
        },
        None => None,
    }
}

/// A single pitch held for a duration.
#[derive(Debug, Clone, PartialEq, Eq)]
pub struct Note {
    pitch: Pitch,
    duration: Duration,
    velocity: u8,
}

impl Note {
    pub closed spec fn pitch_spec(self) -> Pitch {
        self.pitch
    }

    pub closed spec fn duration_spec(self) -> Duration {
        self.duration
    }

    pub closed spec fn velocity_spec(self) -> u8 {
        self.velocity
    }

    pub fn new(pitch: Pitch, duration: Duration) -> (r: Note)
        ensures
            r.pitch_spec() == pitch,
            r.duration_spec() == duration,
            r.velocity_spec() == 80,
    {
        Note { pitch, duration, velocity: 80 }
    }

    pub fn with_velocity(pitch: Pitch, duration: Duration, velocity: u8) -> (r: Note)
        ensures
            r.pitch_spec() == pitch,
            r.duration_spec() == duration,
            r.velocity_spec() == velocity,
    {
        Note { pitch, duration, velocity }
    }

    pub fn pitch(&self) -> (r: Pitch)
        ensures
            r == self.pitch_spec(),
    {
        self.pitch
    }

    pub fn duration(&self) -> (r: Duration)
        ensures
            r == self.duration_spec(),
    {
        self.duration
    }

    pub fn velocity(&self) -> (r: u8)
        ensures
            r == self.velocity_spec(),
    {
        self.velocity
    }
}

/// Pitches sounding together for a duration.
#[derive(Debug, Clone, PartialEq, Eq)]
pub struct Chord {
    pitches: Vec<Pitch>,
    duration: Duration,
}

impl Chord {
    pub closed spec fn pitches_spec(self) -> Seq<Pitch> {
        self.pitches@
    }

    pub closed spec fn duration_spec(self) -> Duration {
        self.duration
    }

    pub fn new(pitches: Vec<Pitch>, duration: Duration) -> (r: Result<Chord, CoreError>)
        ensures
            r is Ok <==> pitches@.len() > 0,
            r matches Ok(c) ==> c.pitches_spec() == pitches@ && c.duration_spec() == duration,
            r matches Err(e) ==> e == CoreError::EmptyChord,
    {
        if pitches.len() == 0 {
            return Err(CoreError::EmptyChord);
        }
        Ok(Chord { pitches, duration })
    }

    pub fn pitches(&self) -> (r: &[Pitch])
        ensures
            r@ == self.pitches_spec(),
    {
        self.pitches.as_slice()
    }

    pub fn duration(&self) -> (r: Duration)
        ensures
            r == self.duration_spec(),
    {
        self.duration
    }
}

/// One event of a voice.
#[derive(Debug, Clone, PartialEq, Eq)]
pub enum VoiceEvent {
    Note(Note),
    Chord(Chord),
}

impl VoiceEvent {
    pub fn duration(&self) -> (r: Duration)
        ensures
            r == match self {
                VoiceEvent::Note(n) => n.duration_spec(),
                VoiceEvent::Chord(c) => c.duration_spec(),
            },
    {
        match self {
            VoiceEvent::Note(note) => note.duration(),
            VoiceEvent::Chord(chord) => chord.duration(),
        }
    }
}

/// A named sequence of events.
#[derive(Debug, Clone, PartialEq, Eq)]
pub struct Voice {
    name: String,
    events: Vec<VoiceEvent>,
}

impl Voice {
    pub closed spec fn name_spec(self) -> Seq<char> {
        self.name@
    }

    pub closed spec fn events_spec(self) -> Seq<VoiceEvent> {
        self.events@
    }

    pub fn new(name: &str) -> (r: Voice)
        ensures
            r.name_spec() == name@,
            r.events_spec() == Seq::<VoiceEvent>::empty(),
    {
        Voice { name: owned(name), events: Vec::new() }
    }

    pub fn push(&mut self, event: VoiceEvent)
        ensures
            final(self).events_spec() == old(self).events_spec().push(event),
            final(self).name_spec() == old(self).name_spec(),
    {
        self.events.push(event);
    }

    pub fn name(&self) -> (r: &str)
        ensures
            r@ == self.name_spec(),
    {
        self.name.as_str()
    }

    pub fn events(&self) -> (r: &[VoiceEvent])
        ensures
            r@ == self.events_spec(),
    {
        self.events.as_slice()
    }
}

/// A titled set of voices.
#[derive(Debug, Clone, PartialEq, Eq)]
pub struct Score {
    title: String,
    voices: Vec<Voice>,
}

impl Score {
    pub closed spec fn title_spec(self) -> Seq<char> {
        self.title@
    }

    pub closed spec fn voices_spec(self) -> Seq<Voice> {
        self.voices@
    }

    pub fn new(title: &str) -> (r: Score)
        ensures
            r.title_spec() == title@,
            r.voices_spec() == Seq::<Voice>::empty(),
    {
        Score { title: owned(title), voices: Vec::new() }
    }

    pub fn push_voice(&mut self, voice: Voice)
        ensures
            final(self).voices_spec() == old(self).voices_spec().push(voice),
            final(self).title_spec() == old(self).title_spec(),
    {
        self.voices.push(voice);
    }

    pub fn title(&self) -> (r: &str)
        ensures
            r@ == self.title_spec(),
    {
        self.title.as_str()
    }

    pub fn voices(&self) -> (r: &[Voice])
        ensures
            r@ == self.voices_spec(),
    {
        self.voices.as_slice()
    }
}

/// Types of MusicLang expressions.
#[derive(Debug, Clone, PartialEq, Eq)]
pub enum MusicType {
    Int,
    Bool,
    Pitch,
    Interval,
    Duration,
    Chord,
    String,
    Unit,
}

} // verus!
