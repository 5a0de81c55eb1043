use crate::error::ValidationError;
use vstd::prelude::*;

verus! {

/// Lowest key code that names a key of the instrument.
pub const LOWEST_KEY: u8 = 15;

/// Highest key code that names a key of the instrument.
pub const HIGHEST_KEY: u8 = 113;

/// A key of the instrument. Each variant stands for one key code between
/// `LOWEST_KEY` and `HIGHEST_KEY`; the letter is the pitch, the digit the
/// register, which steps up at every A.
#[derive(Debug, Clone, Copy, PartialEq, Eq, Structural)]
pub enum PianoKeyCode {
    Eb0,
    E0,
    F0,
    Gb0,
    G0,
    Ab0,
    A1,
    Bb1,
    B1,
    C1,
    Db1,
    D1,
    Eb1,
    E1,
    F1,
    Gb1,
    G1,
    Ab1,
    A2,
    Bb2,
    B2,
    C2,
    Db2,
    D2,
    Eb2,
    E2,
    F2,
    Gb2,
    G2,
    Ab2,
    A3,
    Bb3,
    B3,
    C3,
    Db3,
    D3,
    Eb3,
    E3,
    F3,
    Gb3,
    G3,
    Ab3,
    A4,
    Bb4,
    B4,
    C4,
    Db4,
    D4,
    Eb4,
    E4,
    F4,
    Gb4,
    G4,
    Ab4,
    A5,
    Bb5,
    B5,
    C5,
    Db5,
    D5,
    Eb5,
    E5,
    F5,
    Gb5,
    G5,
    Ab5,
    A6,
    Bb6,
    B6,
    C6,
    Db6,
    D6,
    Eb6,
    E6,
    F6,
    Gb6,
    G6,
    Ab6,
    A7,
    Bb7,
    B7,
    C7,
    Db7,
    D7,
    Eb7,
    E7,
    F7,
    Gb7,
    G7,
    Ab7,
    A8,
    Bb8,
    B8,
    C8,
    Db8,
    D8,
    Eb8,
    E8,
    F8,
}

/// Whether `code` names a key of the instrument.
pub open spec fn is_key_code(code: int) -> bool {
    LOWEST_KEY <= code <= HIGHEST_KEY
}

/// The sharp-style name of a pitch class, 0 being C and 11 being B.
pub open spec fn pitch_class_name(pitch_class: int) -> Seq<char> {
    if pitch_class == 0 {
        seq!['C']
    } else if pitch_class == 1 {
        seq!['C', '#']
    } else if pitch_class == 2 {
        seq!['D']
    } else if pitch_class == 3 {
        seq!['D', '#']
    } else if pitch_class == 4 {
        seq!['E']
    } else if pitch_class == 5 {
        seq!['F']
    } else if pitch_class == 6 {
        seq!['F', '#']
    } else if pitch_class == 7 {
        seq!['G']
    } else if pitch_class == 8 {
        seq!['G', '#']
    } else if pitch_class == 9 {
        seq!['A']
    } else if pitch_class == 10 {
        seq!['A', '#']
    } else {
        seq!['B']
    }
}

impl PianoKeyCode {
    /// The key code of this key.
    pub open spec fn code(self) -> u8 {
        match self {
            PianoKeyCode::Eb0 => 15,
            PianoKeyCode::E0 => 16,
            PianoKeyCode::F0 => 17,
            PianoKeyCode::Gb0 => 18,
            PianoKeyCode::G0 => 19,
            PianoKeyCode::Ab0 => 20,
            PianoKeyCode::A1 => 21,
            PianoKeyCode::Bb1 => 22,
            PianoKeyCode::B1 => 23,
            PianoKeyCode::C1 => 24,
            PianoKeyCode::Db1 => 25,
            PianoKeyCode::D1 => 26,
            PianoKeyCode::Eb1 => 27,
            PianoKeyCode::E1 => 28,
            PianoKeyCode::F1 => 29,
            PianoKeyCode::Gb1 => 30,
            PianoKeyCode::G1 => 31,
            PianoKeyCode::Ab1 => 32,
            PianoKeyCode::A2 => 33,
            PianoKeyCode::Bb2 => 34,
            PianoKeyCode::B2 => 35,
            PianoKeyCode::C2 => 36,
            PianoKeyCode::Db2 => 37,
            PianoKeyCode::D2 => 38,
            PianoKeyCode::Eb2 => 39,
            PianoKeyCode::E2 => 40,
            PianoKeyCode::F2 => 41,
            PianoKeyCode::Gb2 => 42,
            PianoKeyCode::G2 => 43,
            PianoKeyCode::Ab2 => 44,
            PianoKeyCode::A3 => 45,
            PianoKeyCode::Bb3 => 46,
            PianoKeyCode::B3 => 47,
            PianoKeyCode::C3 => 48,
            PianoKeyCode::Db3 => 49,
            PianoKeyCode::D3 => 50,
            PianoKeyCode::Eb3 => 51,
            PianoKeyCode::E3 => 52,
            PianoKeyCode::F3 => 53,
            PianoKeyCode::Gb3 => 54,
            PianoKeyCode::G3 => 55,
            PianoKeyCode::Ab3 => 56,
            PianoKeyCode::A4 => 57,
            PianoKeyCode::Bb4 => 58,
            PianoKeyCode::B4 => 59,
            PianoKeyCode::C4 => 60,
            PianoKeyCode::Db4 => 61,
            PianoKeyCode::D4 => 62,
            PianoKeyCode::Eb4 => 63,
            PianoKeyCode::E4 => 64,
            PianoKeyCode::F4 => 65,
            PianoKeyCode::Gb4 => 66,
            PianoKeyCode::G4 => 67,
            PianoKeyCode::Ab4 => 68,
            PianoKeyCode::A5 => 69,
            PianoKeyCode::Bb5 => 70,
            PianoKeyCode::B5 => 71,
            PianoKeyCode::C5 => 72,
            PianoKeyCode::Db5 => 73,
            PianoKeyCode::D5 => 74,
            PianoKeyCode::Eb5 => 75,
            PianoKeyCode::E5 => 76,
            PianoKeyCode::F5 => 77,
            PianoKeyCode::Gb5 => 78,
            PianoKeyCode::G5 => 79,
            PianoKeyCode::Ab5 => 80,
            PianoKeyCode::A6 => 81,
            PianoKeyCode::Bb6 => 82,
            PianoKeyCode::B6 => 83,
            PianoKeyCode::C6 => 84,
            PianoKeyCode::Db6 => 85,
            PianoKeyCode::D6 => 86,
            PianoKeyCode::Eb6 => 87,
            PianoKeyCode::E6 => 88,
            PianoKeyCode::F6 => 89,
            PianoKeyCode::Gb6 => 90,
            PianoKeyCode::G6 => 91,
            PianoKeyCode::Ab6 => 92,
            PianoKeyCode::A7 => 93,
            PianoKeyCode::Bb7 => 94,
            PianoKeyCode::B7 => 95,
            PianoKeyCode::C7 => 96,
            PianoKeyCode::Db7 => 97,
            PianoKeyCode::D7 => 98,
            PianoKeyCode::Eb7 => 99,
            PianoKeyCode::E7 => 100,
            PianoKeyCode::F7 => 101,
            PianoKeyCode::Gb7 => 102,
            PianoKeyCode::G7 => 103,
            PianoKeyCode::Ab7 => 104,
            PianoKeyCode::A8 => 105,
            PianoKeyCode::Bb8 => 106,
            PianoKeyCode::B8 => 107,
            PianoKeyCode::C8 => 108,
            PianoKeyCode::Db8 => 109,
            PianoKeyCode::D8 => 110,
            PianoKeyCode::Eb8 => 111,
            PianoKeyCode::E8 => 112,
            PianoKeyCode::F8 => 113,
        }
    }

    /// The key with the given code; meaningful only where `is_key_code` holds.
    pub open spec fn of_code(code: u8) -> PianoKeyCode {
        match code {
            15 => PianoKeyCode::Eb0,
            16 => PianoKeyCode::E0,
            17 => PianoKeyCode::F0,
            18 => PianoKeyCode::Gb0,
            19 => PianoKeyCode::G0,
            20 => PianoKeyCode::Ab0,
            21 => PianoKeyCode::A1,
            22 => PianoKeyCode::Bb1,
            23 => PianoKeyCode::B1,
            24 => PianoKeyCode::C1,
            25 => PianoKeyCode::Db1,
            26 => PianoKeyCode::D1,
            27 => PianoKeyCode::Eb1,
            28 => PianoKeyCode::E1,
            29 => PianoKeyCode::F1,
            30 => PianoKeyCode::Gb1,
            31 => PianoKeyCode::G1,
            32 => PianoKeyCode::Ab1,
            33 => PianoKeyCode::A2,
            34 => PianoKeyCode::Bb2,
            35 => PianoKeyCode::B2,
            36 => PianoKeyCode::C2,
            37 => PianoKeyCode::Db2,
            38 => PianoKeyCode::D2,
            39 => PianoKeyCode::Eb2,
            40 => PianoKeyCode::E2,
            41 => PianoKeyCode::F2,
            42 => PianoKeyCode::Gb2,
            43 => PianoKeyCode::G2,
            44 => PianoKeyCode::Ab2,
            45 => PianoKeyCode::A3,
            46 => PianoKeyCode::Bb3,
            47 => PianoKeyCode::B3,
            48 => PianoKeyCode::C3,
            49 => PianoKeyCode::Db3,
            50 => PianoKeyCode::D3,
            51 => PianoKeyCode::Eb3,
            52 => PianoKeyCode::E3,
            53 => PianoKeyCode::F3,
            54 => PianoKeyCode::Gb3,
            55 => PianoKeyCode::G3,
            56 => PianoKeyCode::Ab3,
            57 => PianoKeyCode::A4,
            58 => PianoKeyCode::Bb4,
            59 => PianoKeyCode::B4,
            60 => PianoKeyCode::C4,
            61 => PianoKeyCode::Db4,
            62 => PianoKeyCode::D4,
            63 => PianoKeyCode::Eb4,
            64 => PianoKeyCode::E4,
            65 => PianoKeyCode::F4,
            66 => PianoKeyCode::Gb4,
            67 => PianoKeyCode::G4,
            68 => PianoKeyCode::Ab4,
            69 => PianoKeyCode::A5,
            70 => PianoKeyCode::Bb5,
            71 => PianoKeyCode::B5,
            72 => PianoKeyCode::C5,
            73 => PianoKeyCode::Db5,
            74 => PianoKeyCode::D5,
            75 => PianoKeyCode::Eb5,
            76 => PianoKeyCode::E5,
            77 => PianoKeyCode::F5,
            78 => PianoKeyCode::Gb5,
            79 => PianoKeyCode::G5,
            80 => PianoKeyCode::Ab5,
            81 => PianoKeyCode::A6,
            82 => PianoKeyCode::Bb6,
            83 => PianoKeyCode::B6,
            84 => PianoKeyCode::C6,
            85 => PianoKeyCode::Db6,
            86 => PianoKeyCode::D6,
            87 => PianoKeyCode::Eb6,
            88 => PianoKeyCode::E6,
            89 => PianoKeyCode::F6,
            90 => PianoKeyCode::Gb6,
            91 => PianoKeyCode::G6,
            92 => PianoKeyCode::Ab6,
            93 => PianoKeyCode::A7,
            94 => PianoKeyCode::Bb7,
            95 => PianoKeyCode::B7,
            96 => PianoKeyCode::C7,
            97 => PianoKeyCode::Db7,
            98 => PianoKeyCode::D7,
            99 => PianoKeyCode::Eb7,
            100 => PianoKeyCode::E7,
            101 => PianoKeyCode::F7,
            102 => PianoKeyCode::Gb7,
            103 => PianoKeyCode::G7,
            104 => PianoKeyCode::Ab7,
            105 => PianoKeyCode::A8,
            106 => PianoKeyCode::Bb8,
            107 => PianoKeyCode::B8,
            108 => PianoKeyCode::C8,
            109 => PianoKeyCode::Db8,
            110 => PianoKeyCode::D8,
            111 => PianoKeyCode::Eb8,
            112 => PianoKeyCode::E8,
            _ => PianoKeyCode::F8,
        }
    }

    /// The register of this key: the digit in the variant's name.
    pub open spec fn register(self) -> int {
        (self.code() - 9) / 12
    }

    /// Every key's code lies in the supported range, and `of_code` finds the
    /// key again from it.
    pub proof fn lemma_code_of_key(self)
        ensures
            is_key_code(self.code() as int),
            PianoKeyCode::of_code(self.code()) == self,
    {
    }

    /// Every code in the supported range belongs to exactly the key that
    /// `of_code` gives.
    pub proof fn lemma_key_of_code(code: u8)
        requires
            is_key_code(code as int),
        ensures
            PianoKeyCode::of_code(code).code() == code,
    {
    }

    /// The key code as a byte.
    pub fn as_u8(self) -> (code: u8)
        ensures
            code == self.code(),
            is_key_code(code as int),
    {
        match self {
            PianoKeyCode::Eb0 => 15,
            PianoKeyCode::E0 => 16,
            PianoKeyCode::F0 => 17,
            PianoKeyCode::Gb0 => 18,
            PianoKeyCode::G0 => 19,
            PianoKeyCode::Ab0 => 20,
            PianoKeyCode::A1 => 21,
            PianoKeyCode::Bb1 => 22,
            PianoKeyCode::B1 => 23,
            PianoKeyCode::C1 => 24,
            PianoKeyCode::Db1 => 25,
            PianoKeyCode::D1 => 26,
            PianoKeyCode::Eb1 => 27,
            PianoKeyCode::E1 => 28,
            PianoKeyCode::F1 => 29,
            PianoKeyCode::Gb1 => 30,
            PianoKeyCode::G1 => 31,
            PianoKeyCode::Ab1 => 32,
            PianoKeyCode::A2 => 33,
            PianoKeyCode::Bb2 => 34,
            PianoKeyCode::B2 => 35,
            PianoKeyCode::C2 => 36,
            PianoKeyCode::Db2 => 37,
            PianoKeyCode::D2 => 38,
            PianoKeyCode::Eb2 => 39,
            PianoKeyCode::E2 => 40,
            PianoKeyCode::F2 => 41,
            PianoKeyCode::Gb2 => 42,
            PianoKeyCode::G2 => 43,
            PianoKeyCode::Ab2 => 44,
            PianoKeyCode::A3 => 45,
            PianoKeyCode::Bb3 => 46,
            PianoKeyCode::B3 => 47,
            PianoKeyCode::C3 => 48,
            PianoKeyCode::Db3 => 49,
            PianoKeyCode::D3 => 50,
            PianoKeyCode::Eb3 => 51,
            PianoKeyCode::E3 => 52,
            PianoKeyCode::F3 => 53,
            PianoKeyCode::Gb3 => 54,
            PianoKeyCode::G3 => 55,
            PianoKeyCode::Ab3 => 56,
            PianoKeyCode::A4 => 57,
            PianoKeyCode::Bb4 => 58,
            PianoKeyCode::B4 => 59,
            PianoKeyCode::C4 => 60,
            PianoKeyCode::Db4 => 61,
            PianoKeyCode::D4 => 62,
            PianoKeyCode::Eb4 => 63,
            PianoKeyCode::E4 => 64,
            PianoKeyCode::F4 => 65,
            PianoKeyCode::Gb4 => 66,
            PianoKeyCode::G4 => 67,
            PianoKeyCode::Ab4 => 68,
            PianoKeyCode::A5 => 69,
            PianoKeyCode::Bb5 => 70,
            PianoKeyCode::B5 => 71,
            PianoKeyCode::C5 => 72,
            PianoKeyCode::Db5 => 73,
            PianoKeyCode::D5 => 74,
            PianoKeyCode::Eb5 => 75,
            PianoKeyCode::E5 => 76,
            PianoKeyCode::F5 => 77,
            PianoKeyCode::Gb5 => 78,
            PianoKeyCode::G5 => 79,
            PianoKeyCode::Ab5 => 80,
            PianoKeyCode::A6 => 81,
            PianoKeyCode::Bb6 => 82,
            PianoKeyCode::B6 => 83,
            PianoKeyCode::C6 => 84,
            PianoKeyCode::Db6 => 85,
            PianoKeyCode::D6 => 86,
            PianoKeyCode::Eb6 => 87,
            PianoKeyCode::E6 => 88,
            PianoKeyCode::F6 => 89,
            PianoKeyCode::Gb6 => 90,
            PianoKeyCode::G6 => 91,
            PianoKeyCode::Ab6 => 92,
            PianoKeyCode::A7 => 93,
            PianoKeyCode::Bb7 => 94,
            PianoKeyCode::B7 => 95,
            PianoKeyCode::C7 => 96,
            PianoKeyCode::Db7 => 97,
            PianoKeyCode::D7 => 98,
            PianoKeyCode::Eb7 => 99,
            PianoKeyCode::E7 => 100,
            PianoKeyCode::F7 => 101,
            PianoKeyCode::Gb7 => 102,
            PianoKeyCode::G7 => 103,
            PianoKeyCode::Ab7 => 104,
            PianoKeyCode::A8 => 105,
            PianoKeyCode::Bb8 => 106,
            PianoKeyCode::B8 => 107,
            PianoKeyCode::C8 => 108,
            PianoKeyCode::Db8 => 109,
            PianoKeyCode::D8 => 110,
            PianoKeyCode::Eb8 => 111,
            PianoKeyCode::E8 => 112,
            PianoKeyCode::F8 => 113,
        }
    }

    /// The key with code `key`, or `InvalidNote` when no key has that code.
    pub fn from_u8(key: u8) -> (res: Result<PianoKeyCode, ValidationError>)
        ensures
            is_key_code(key as int) ==> res == Ok::<PianoKeyCode, ValidationError>(
                PianoKeyCode::of_code(key),
            ),
            !is_key_code(key as int) ==> res == Err::<PianoKeyCode, ValidationError>(
                ValidationError::InvalidNote(key),
            ),
    {
        match key {
            15 => Ok(PianoKeyCode::Eb0),
            16 => Ok(PianoKeyCode::E0),
            17 => Ok(PianoKeyCode::F0),
            18 => Ok(PianoKeyCode::Gb0),
            19 => Ok(PianoKeyCode::G0),
            20 => Ok(PianoKeyCode::Ab0),
            21 => Ok(PianoKeyCode::A1),
            22 => Ok(PianoKeyCode::Bb1),
            23 => Ok(PianoKeyCode::B1),
            24 => Ok(PianoKeyCode::C1),
            25 => Ok(PianoKeyCode::Db1),
            26 => Ok(PianoKeyCode::D1),
            27 => Ok(PianoKeyCode::Eb1),
            28 => Ok(PianoKeyCode::E1),
            29 => Ok(PianoKeyCode::F1),
            30 => Ok(PianoKeyCode::Gb1),
            31 => Ok(PianoKeyCode::G1),
            32 => Ok(PianoKeyCode::Ab1),
            33 => Ok(PianoKeyCode::A2),
            34 => Ok(PianoKeyCode::Bb2),
            35 => Ok(PianoKeyCode::B2),
            36 => Ok(PianoKeyCode::C2),
            37 => Ok(PianoKeyCode::Db2),
            38 => Ok(PianoKeyCode::D2),
            39 => Ok(PianoKeyCode::Eb2),
            40 => Ok(PianoKeyCode::E2),
            41 => Ok(PianoKeyCode::F2),
            42 => Ok(PianoKeyCode::Gb2),
            43 => Ok(PianoKeyCode::G2),
            44 => Ok(PianoKeyCode::Ab2),
            45 => Ok(PianoKeyCode::A3),
            46 => Ok(PianoKeyCode::Bb3),
            47 => Ok(PianoKeyCode::B3),
            48 => Ok(PianoKeyCode::C3),
            49 => Ok(PianoKeyCode::Db3),
            50 => Ok(PianoKeyCode::D3),
            51 => Ok(PianoKeyCode::Eb3),
            52 => Ok(PianoKeyCode::E3),
            53 => Ok(PianoKeyCode::F3),
            54 => Ok(PianoKeyCode::Gb3),
            55 => Ok(PianoKeyCode::G3),
            56 => Ok(PianoKeyCode::Ab3),
            57 => Ok(PianoKeyCode::A4),
            58 => Ok(PianoKeyCode::Bb4),
            59 => Ok(PianoKeyCode::B4),
            60 => Ok(PianoKeyCode::C4),
            61 => Ok(PianoKeyCode::Db4),
            62 => Ok(PianoKeyCode::D4),
            63 => Ok(PianoKeyCode::Eb4),
            64 => Ok(PianoKeyCode::E4),
            65 => Ok(PianoKeyCode::F4),
            66 => Ok(PianoKeyCode::Gb4),
            67 => Ok(PianoKeyCode::G4),
            68 => Ok(PianoKeyCode::Ab4),
            69 => Ok(PianoKeyCode::A5),
            70 => Ok(PianoKeyCode::Bb5),
            71 => Ok(PianoKeyCode::B5),
            72 => Ok(PianoKeyCode::C5),
            73 => Ok(PianoKeyCode::Db5),
            74 => Ok(PianoKeyCode::D5),
            75 => Ok(PianoKeyCode::Eb5),
            76 => Ok(PianoKeyCode::E5),
            77 => Ok(PianoKeyCode::F5),
            78 => Ok(PianoKeyCode::Gb5),
            79 => Ok(PianoKeyCode::G5),
            80 => Ok(PianoKeyCode::Ab5),
            81 => Ok(PianoKeyCode::A6),
            82 => Ok(PianoKeyCode::Bb6),
            83 => Ok(PianoKeyCode::B6),
            84 => Ok(PianoKeyCode::C6),
            85 => Ok(PianoKeyCode::Db6),
            86 => Ok(PianoKeyCode::D6),
            87 => Ok(PianoKeyCode::Eb6),
            88 => Ok(PianoKeyCode::E6),
            89 => Ok(PianoKeyCode::F6),
            90 => Ok(PianoKeyCode::Gb6),
            91 => Ok(PianoKeyCode::G6),
            92 => Ok(PianoKeyCode::Ab6),
            93 => Ok(PianoKeyCode::A7),
            94 => Ok(PianoKeyCode::Bb7),
            95 => Ok(PianoKeyCode::B7),
            96 => Ok(PianoKeyCode::C7),
            97 => Ok(PianoKeyCode::Db7),
            98 => Ok(PianoKeyCode::D7),
            99 => Ok(PianoKeyCode::Eb7),
            100 => Ok(PianoKeyCode::E7),
            101 => Ok(PianoKeyCode::F7),
            102 => Ok(PianoKeyCode::Gb7),
            103 => Ok(PianoKeyCode::G7),
            104 => Ok(PianoKeyCode::Ab7),
            105 => Ok(PianoKeyCode::A8),
            106 => Ok(PianoKeyCode::Bb8),
            107 => Ok(PianoKeyCode::B8),
            108 => Ok(PianoKeyCode::C8),
            109 => Ok(PianoKeyCode::Db8),
            110 => Ok(PianoKeyCode::D8),
            111 => Ok(PianoKeyCode::Eb8),
            112 => Ok(PianoKeyCode::E8),
            113 => Ok(PianoKeyCode::F8),
            k => Err(ValidationError::InvalidNote(k)),
        }
    }

    /// The name of the key's pitch, written with sharps and without its
    /// register: `Eb4` is called `D#`.
    pub fn to_key_name(self) -> (name: String)
        ensures
            name@ == pitch_class_name(self.code() as int % 12),
    {
        let pitch_class: u8 = self.as_u8() % 12;
        let name: &str = if pitch_class == 0 {
            "C"
        } else if pitch_class == 1 {
            "C#"
        } else if pitch_class == 2 {
            "D"
        } else if pitch_class == 3 {
            "D#"
        } else if pitch_class == 4 {
            "E"
        } else if pitch_class == 5 {
            "F"
        } else if pitch_class == 6 {
            "F#"
        } else if pitch_class == 7 {
            "G"
        } else if pitch_class == 8 {
            "G#"
        } else if pitch_class == 9 {
            "A"
        } else if pitch_class == 10 {
            "A#"
        } else {
            "B"
        };
        proof {
            reveal_strlit("C");
            reveal_strlit("C#");
            reveal_strlit("D");
            reveal_strlit("D#");
            reveal_strlit("E");
            reveal_strlit("F");
            reveal_strlit("F#");
            reveal_strlit("G");
            reveal_strlit("G#");
            reveal_strlit("A");
            reveal_strlit("A#");
            reveal_strlit("B");
            assert(name@ =~= pitch_class_name(pitch_class as int));
        }
        name.to_owned()
    }

    /// The register of the key, from 0 for the lowest keys to 8.
    pub fn octave(self) -> (octave: u8)
        ensures
            octave == self.register(),
            octave <= 8,
    {
        (self.as_u8() - 9) / 12
    }
}

} // verus!
