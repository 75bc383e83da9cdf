//! The opcode table: the name and the code of every instruction, and how many
//! argument bytes follow each code on the wire.
use crate::chars::{chars_of, is_word};
use crate::trusted::{hex_of, hex_string};
use vstd::prelude::*;
use vstd::string::*;

verus! {

/// The byte that starts every instruction on the wire. It is no opcode.
pub const MARKER: u8 = 0x70;

/// The code that stands for a name that the table does not hold.
pub const SENTINEL: u8 = 0xFE;

/// The code of the dialogue-text instruction.
pub const TEXT: u8 = 0x02;

/// The code of the flag-check instruction, whose argument count is not fixed.
pub const FLAG_CHECK: u8 = 0x35;

/// How many argument bytes follow a code.
#[derive(Clone, Copy, PartialEq, Eq, Debug)]
pub enum Arity {
    /// Exactly this many.
    Fixed(usize),
    /// As many as stand before the next marker byte or the end of the input.
    Variable,
}

/// What the table says of a name.
#[derive(Clone, Copy, PartialEq, Eq, Debug)]
pub enum Lookup {
    /// The name is in the table, with this code.
    Known(u8),
    /// The name is not in the table: it is encoded as [`SENTINEL`] and needs a
    /// second look by whoever wrote it.
    Unknown,
}

/// The name of a code, for the codes that have one.
pub open spec fn name_of(code: u8) -> Option<Seq<char>> {
    match code {
        0x00 => Some("0x00"@),
        0x02 => Some("Text"@),
        0x03 => Some("TextBoxFormat"@),
        0x04 => Some("PostProcessingFilter"@),
        0x05 => Some("Movie"@),
        0x06 => Some("Animation"@),
        0x08 => Some("Voice"@),
        0x09 => Some("Music"@),
        0x0A => Some("Sound"@),
        0x0B => Some("SoundB"@),
        0x0C => Some("AddTruthBullets"@),
        0x0D => Some("AddPresents"@),
        0x0E => Some("UnlockSkill"@),
        0x0F => Some("StudentTitleEntry"@),
        0x14 => Some("TrialCamera"@),
        0x15 => Some("LoadMap"@),
        0x19 => Some("LoadScript"@),
        0x1A => Some("StopScript"@),
        0x1B => Some("RunScript"@),
        0x1C => Some("0x1C"@),
        0x1E => Some("Sprite"@),
        0x1F => Some("ScreenFlash"@),
        0x20 => Some("SpriteFlash"@),
        0x21 => Some("Speaker"@),
        0x22 => Some("ScreenFade"@),
        0x25 => Some("ChangeUi"@),
        0x26 => Some("SetFlag"@),
        0x27 => Some("CheckCharacter"@),
        0x29 => Some("CheckObject"@),
        0x2A => Some("SetLabel"@),
        0x2B => Some("SetChoiceText"@),
        0x2E => Some("CameraShake"@),
        0x30 => Some("ShowBackground"@),
        0x33 => Some("0x33"@),
        0x34 => Some("GoToLabel"@),
        0x35 => Some("CheckFlagA"@),
        0x36 => Some("CheckFlagB"@),
        0x3A => Some("WaitInput"@),
        0x3B => Some("WaitFrame"@),
        0x3C => Some("IfFlagCheck"@),
        _ => None,
    }
}

/// The code of a name, for the names that have one.
pub open spec fn code_of(name: Seq<char>) -> Option<u8> {
    if name == "0x00"@ {
        Some(0x00u8)
    } else if name == "Text"@ {
        Some(0x02u8)
    } else if name == "TextBoxFormat"@ {
        Some(0x03u8)
    } else if name == "PostProcessingFilter"@ {
        Some(0x04u8)
    } else if name == "Movie"@ {
        Some(0x05u8)
    } else if name == "Animation"@ {
        Some(0x06u8)
    } else if name == "Voice"@ {
        Some(0x08u8)
    } else if name == "Music"@ {
        Some(0x09u8)
    } else if name == "Sound"@ {
        Some(0x0Au8)
    } else if name == "SoundB"@ {
        Some(0x0Bu8)
    } else if name == "AddTruthBullets"@ {
        Some(0x0Cu8)
    } else if name == "AddPresents"@ {
        Some(0x0Du8)
    } else if name == "UnlockSkill"@ {
        Some(0x0Eu8)
    } else if name == "StudentTitleEntry"@ {
        Some(0x0Fu8)
    } else if name == "TrialCamera"@ {
        Some(0x14u8)
    } else if name == "LoadMap"@ {
        Some(0x15u8)
    } else if name == "LoadScript"@ {
        Some(0x19u8)
    } else if name == "StopScript"@ {
        Some(0x1Au8)
    } else if name == "RunScript"@ {
        Some(0x1Bu8)
    } else if name == "0x1C"@ {
        Some(0x1Cu8)
    } else if name == "Sprite"@ {
        Some(0x1Eu8)
    } else if name == "ScreenFlash"@ {
        Some(0x1Fu8)
    } else if name == "SpriteFlash"@ {
        Some(0x20u8)
    } else if name == "Speaker"@ {
        Some(0x21u8)
    } else if name == "ScreenFade"@ {
        Some(0x22u8)
    } else if name == "ChangeUi"@ {
        Some(0x25u8)
    } else if name == "SetFlag"@ {
        Some(0x26u8)
    } else if name == "CheckCharacter"@ {
        Some(0x27u8)
    } else if name == "CheckObject"@ {
        Some(0x29u8)
    } else if name == "SetLabel"@ {
        Some(0x2Au8)
    } else if name == "SetChoiceText"@ {
        Some(0x2Bu8)
    } else if name == "CameraShake"@ {
        Some(0x2Eu8)
    } else if name == "ShowBackground"@ {
        Some(0x30u8)
    } else if name == "0x33"@ {
        Some(0x33u8)
    } else if name == "GoToLabel"@ {
        Some(0x34u8)
    } else if name == "CheckFlagA"@ {
        Some(0x35u8)
    } else if name == "CheckFlagB"@ {
        Some(0x36u8)
    } else if name == "WaitInput"@ {
        Some(0x3Au8)
    } else if name == "WaitFrame"@ {
        Some(0x3Bu8)
    } else if name == "IfFlagCheck"@ {
        Some(0x3Cu8)
    } else {
        None
    }
}

/// The argument count of a code, for the codes that the decoder reads.
pub open spec fn arity_of(code: u8) -> Option<Arity> {
    match code {
        0x00 => Some(Arity::Fixed(2)),
        0x02 => Some(Arity::Fixed(2)),
        0x03 => Some(Arity::Fixed(1)),
        0x06 => Some(Arity::Fixed(8)),
        0x08 => Some(Arity::Fixed(5)),
        0x09 => Some(Arity::Fixed(3)),
        0x0A => Some(Arity::Fixed(3)),
        0x15 => Some(Arity::Fixed(3)),
        0x19 => Some(Arity::Fixed(3)),
        0x1A => Some(Arity::Fixed(0)),
        0x1E => Some(Arity::Fixed(5)),
        0x1F => Some(Arity::Fixed(7)),
        0x20 => Some(Arity::Fixed(5)),
        0x21 => Some(Arity::Fixed(1)),
        0x22 => Some(Arity::Fixed(3)),
        0x25 => Some(Arity::Fixed(2)),
        0x26 => Some(Arity::Fixed(3)),
        0x27 => Some(Arity::Fixed(1)),
        0x29 => Some(Arity::Fixed(1)),
        0x2A => Some(Arity::Fixed(2)),
        0x2B => Some(Arity::Fixed(1)),
        0x30 => Some(Arity::Fixed(3)),
        0x33 => Some(Arity::Fixed(4)),
        0x34 => Some(Arity::Fixed(2)),
        0x35 => Some(Arity::Variable),
        0x3A => Some(Arity::Fixed(0)),
        0x3B => Some(Arity::Fixed(0)),
        0x3C => Some(Arity::Fixed(0)),
        _ => None,
    }
}

/// What [`name_to_code`] answers for a name.
pub open spec fn lookup_of(name: Seq<char>) -> Lookup {
    match code_of(name) {
        Some(code) => Lookup::Known(code),
        None => Lookup::Unknown,
    }
}

/// The code that a name is encoded as: its own, or [`SENTINEL`].
pub open spec fn code_for(name: Seq<char>) -> u8 {
    match code_of(name) {
        Some(code) => code,
        None => SENTINEL,
    }
}

/// The reserved name of a code that the table does not hold: `Unknown_0x` and
/// the code as two hexadecimal digits.
pub open spec fn unknown_name(code: u8) -> Seq<char> {
    "Unknown_0x"@ + hex_of(code)
}

/// The name that a code is written as: its own, or the reserved one.
pub open spec fn name_for(code: u8) -> Seq<char> {
    match name_of(code) {
        Some(name) => name,
        None => unknown_name(code),
    }
}

impl Lookup {
    /// The code to encode: the known one, or [`SENTINEL`].
    pub open spec fn spec_code(self) -> u8 {
        match self {
            Lookup::Known(code) => code,
            Lookup::Unknown => SENTINEL,
        }
    }

    /// The code to encode: the known one, or [`SENTINEL`].
    pub fn code(&self) -> (code: u8)
        ensures
            code == self.spec_code(),
    {
        match self {
            Lookup::Known(code) => *code,
            Lookup::Unknown => SENTINEL,
        }
    }
}

/// The name of `code` as the table spells it, or `None` for a code without one.
pub fn known_name(code: u8) -> (name: Option<&'static str>)
    ensures
        match name {
            Some(s) => name_of(code) == Some(s@),
            None => name_of(code) is None,
        },
{
    match code {
        0x00 => Some("0x00"),
        0x02 => Some("Text"),
        0x03 => Some("TextBoxFormat"),
        0x04 => Some("PostProcessingFilter"),
        0x05 => Some("Movie"),
        0x06 => Some("Animation"),
        0x08 => Some("Voice"),
        0x09 => Some("Music"),
        0x0A => Some("Sound"),
        0x0B => Some("SoundB"),
        0x0C => Some("AddTruthBullets"),
        0x0D => Some("AddPresents"),
        0x0E => Some("UnlockSkill"),
        0x0F => Some("StudentTitleEntry"),
        0x14 => Some("TrialCamera"),
        0x15 => Some("LoadMap"),
        0x19 => Some("LoadScript"),
        0x1A => Some("StopScript"),
        0x1B => Some("RunScript"),
        0x1C => Some("0x1C"),
        0x1E => Some("Sprite"),
        0x1F => Some("ScreenFlash"),
        0x20 => Some("SpriteFlash"),
        0x21 => Some("Speaker"),
        0x22 => Some("ScreenFade"),
        0x25 => Some("ChangeUi"),
        0x26 => Some("SetFlag"),
        0x27 => Some("CheckCharacter"),
        0x29 => Some("CheckObject"),
        0x2A => Some("SetLabel"),
        0x2B => Some("SetChoiceText"),
        0x2E => Some("CameraShake"),
        0x30 => Some("ShowBackground"),
        0x33 => Some("0x33"),
        0x34 => Some("GoToLabel"),
        0x35 => Some("CheckFlagA"),
        0x36 => Some("CheckFlagB"),
        0x3A => Some("WaitInput"),
        0x3B => Some("WaitFrame"),
        0x3C => Some("IfFlagCheck"),
        _ => None,
    }
}

/// The argument count of `code`, or `None` for a code that the decoder does
/// not read.
pub fn arity(code: u8) -> (arity: Option<Arity>)
    ensures
        arity == arity_of(code),
{
    match code {
        0x00 => Some(Arity::Fixed(2)),
        0x02 => Some(Arity::Fixed(2)),
        0x03 => Some(Arity::Fixed(1)),
        0x06 => Some(Arity::Fixed(8)),
        0x08 => Some(Arity::Fixed(5)),
        0x09 => Some(Arity::Fixed(3)),
        0x0A => Some(Arity::Fixed(3)),
        0x15 => Some(Arity::Fixed(3)),
        0x19 => Some(Arity::Fixed(3)),
        0x1A => Some(Arity::Fixed(0)),
        0x1E => Some(Arity::Fixed(5)),
        0x1F => Some(Arity::Fixed(7)),
        0x20 => Some(Arity::Fixed(5)),
        0x21 => Some(Arity::Fixed(1)),
        0x22 => Some(Arity::Fixed(3)),
        0x25 => Some(Arity::Fixed(2)),
        0x26 => Some(Arity::Fixed(3)),
        0x27 => Some(Arity::Fixed(1)),
        0x29 => Some(Arity::Fixed(1)),
        0x2A => Some(Arity::Fixed(2)),
        0x2B => Some(Arity::Fixed(1)),
        0x30 => Some(Arity::Fixed(3)),
        0x33 => Some(Arity::Fixed(4)),
        0x34 => Some(Arity::Fixed(2)),
        0x35 => Some(Arity::Variable),
        0x3A => Some(Arity::Fixed(0)),
        0x3B => Some(Arity::Fixed(0)),
        0x3C => Some(Arity::Fixed(0)),
        _ => None,
    }
}

/// The code of the name that `name` spells, if the table holds it.
pub(crate) fn code_of_chars(name: &[char]) -> (code: Option<u8>)
    ensures
        code == code_of(name@),
{
    if is_word(name, "0x00") {
        Some(0x00)
    } else if is_word(name, "Text") {
        Some(0x02)
    } else if is_word(name, "TextBoxFormat") {
        Some(0x03)
    } else if is_word(name, "PostProcessingFilter") {
        Some(0x04)
    } else if is_word(name, "Movie") {
        Some(0x05)
    } else if is_word(name, "Animation") {
        Some(0x06)
    } else if is_word(name, "Voice") {
        Some(0x08)
    } else if is_word(name, "Music") {
        Some(0x09)
    } else if is_word(name, "Sound") {
        Some(0x0A)
    } else if is_word(name, "SoundB") {
        Some(0x0B)
    } else if is_word(name, "AddTruthBullets") {
        Some(0x0C)
    } else if is_word(name, "AddPresents") {
        Some(0x0D)
    } else if is_word(name, "UnlockSkill") {
        Some(0x0E)
    } else if is_word(name, "StudentTitleEntry") {
        Some(0x0F)
    } else if is_word(name, "TrialCamera") {
        Some(0x14)
    } else if is_word(name, "LoadMap") {
        Some(0x15)
    } else if is_word(name, "LoadScript") {
        Some(0x19)
    } else if is_word(name, "StopScript") {
        Some(0x1A)
    } else if is_word(name, "RunScript") {
        Some(0x1B)
    } else if is_word(name, "0x1C") {
        Some(0x1C)
    } else if is_word(name, "Sprite") {
        Some(0x1E)
    } else if is_word(name, "ScreenFlash") {
        Some(0x1F)
    } else if is_word(name, "SpriteFlash") {
        Some(0x20)
    } else if is_word(name, "Speaker") {
        Some(0x21)
    } else if is_word(name, "ScreenFade") {
        Some(0x22)
    } else if is_word(name, "ChangeUi") {
        Some(0x25)
    } else if is_word(name, "SetFlag") {
        Some(0x26)
    } else if is_word(name, "CheckCharacter") {
        Some(0x27)
    } else if is_word(name, "CheckObject") {
        Some(0x29)
    } else if is_word(name, "SetLabel") {
        Some(0x2A)
    } else if is_word(name, "SetChoiceText") {
        Some(0x2B)
    } else if is_word(name, "CameraShake") {
        Some(0x2E)
    } else if is_word(name, "ShowBackground") {
        Some(0x30)
    } else if is_word(name, "0x33") {
        Some(0x33)
    } else if is_word(name, "GoToLabel") {
        Some(0x34)
    } else if is_word(name, "CheckFlagA") {
        Some(0x35)
    } else if is_word(name, "CheckFlagB") {
        Some(0x36)
    } else if is_word(name, "WaitInput") {
        Some(0x3A)
    } else if is_word(name, "WaitFrame") {
        Some(0x3B)
    } else if is_word(name, "IfFlagCheck") {
        Some(0x3C)
    } else {
        None
    }
}

/// Looks a name up. An unknown name is no failure: it is reported as
/// [`Lookup::Unknown`], and encoded as [`SENTINEL`].
pub fn name_to_code(name: &str) -> (found: Lookup)
    ensures
        found == lookup_of(name@),
        found.spec_code() == code_for(name@),
{
    let chars = chars_of(name);
    match code_of_chars(chars.as_slice()) {
        Some(code) => Lookup::Known(code),
        None => Lookup::Unknown,
    }
}

/// The name of a code. A code without a name gets the reserved one, which
/// shows the code in hexadecimal.
pub fn code_to_name(code: u8) -> (name: String)
    ensures
        name@ == name_for(code),
{
    match known_name(code) {
        Some(s) => String::from_str(s),
        None => {
            let mut name = String::from_str("Unknown_0x");
            let digits = hex_string(code);
            name.append(digits.as_str());
            name
        },
    }
}

/// The length of each name and its characters at the indices 2, 4 and 9, as
/// far as it has them: no two names of the table agree in all four.
proof fn lemma_names_differ()
    ensures
        "0x00"@.len() == 4,
        "0x00"@[2] == '0',
        "Text"@.len() == 4,
        "Text"@[2] == 'x',
        "TextBoxFormat"@.len() == 13,
        "TextBoxFormat"@[2] == 'x',
        "TextBoxFormat"@[4] == 'B',
        "TextBoxFormat"@[9] == 'r',
        "PostProcessingFilter"@.len() == 20,
        "PostProcessingFilter"@[2] == 's',
        "PostProcessingFilter"@[4] == 'P',
        "PostProcessingFilter"@[9] == 's',
        "Movie"@.len() == 5,
        "Movie"@[2] == 'v',
        "Movie"@[4] == 'e',
        "Animation"@.len() == 9,
        "Animation"@[2] == 'i',
        "Animation"@[4] == 'a',
        "Voice"@.len() == 5,
        "Voice"@[2] == 'i',
        "Voice"@[4] == 'e',
        "Music"@.len() == 5,
        "Music"@[2] == 's',
        "Music"@[4] == 'c',
        "Sound"@.len() == 5,
        "Sound"@[2] == 'u',
        "Sound"@[4] == 'd',
        "SoundB"@.len() == 6,
        "SoundB"@[2] == 'u',
        "SoundB"@[4] == 'd',
        "AddTruthBullets"@.len() == 15,
        "AddTruthBullets"@[2] == 'd',
        "AddTruthBullets"@[4] == 'r',
        "AddTruthBullets"@[9] == 'u',
        "AddPresents"@.len() == 11,
        "AddPresents"@[2] == 'd',
        "AddPresents"@[4] == 'r',
        "AddPresents"@[9] == 't',
        "UnlockSkill"@.len() == 11,
        "UnlockSkill"@[2] == 'l',
        "UnlockSkill"@[4] == 'c',
        "UnlockSkill"@[9] == 'l',
        "StudentTitleEntry"@.len() == 17,
        "StudentTitleEntry"@[2] == 'u',
        "StudentTitleEntry"@[4] == 'e',
        "StudentTitleEntry"@[9] == 't',
        "TrialCamera"@.len() == 11,
        "TrialCamera"@[2] == 'i',
        "TrialCamera"@[4] == 'l',
        "TrialCamera"@[9] == 'r',
        "LoadMap"@.len() == 7,
        "LoadMap"@[2] == 'a',
        "LoadMap"@[4] == 'M',
        "LoadScript"@.len() == 10,
        "LoadScript"@[2] == 'a',
        "LoadScript"@[4] == 'S',
        "LoadScript"@[9] == 't',
        "StopScript"@.len() == 10,
        "StopScript"@[2] == 'o',
        "StopScript"@[4] == 'S',
        "StopScript"@[9] == 't',
        "RunScript"@.len() == 9,
        "RunScript"@[2] == 'n',
        "RunScript"@[4] == 'c',
        "0x1C"@.len() == 4,
        "0x1C"@[2] == '1',
        "Sprite"@.len() == 6,
        "Sprite"@[2] == 'r',
        "Sprite"@[4] == 't',
        "ScreenFlash"@.len() == 11,
        "ScreenFlash"@[2] == 'r',
        "ScreenFlash"@[4] == 'e',
        "ScreenFlash"@[9] == 's',
        "SpriteFlash"@.len() == 11,
        "SpriteFlash"@[2] == 'r',
        "SpriteFlash"@[4] == 't',
        "SpriteFlash"@[9] == 's',
        "Speaker"@.len() == 7,
        "Speaker"@[2] == 'e',
        "Speaker"@[4] == 'k',
        "ScreenFade"@.len() == 10,
        "ScreenFade"@[2] == 'r',
        "ScreenFade"@[4] == 'e',
        "ScreenFade"@[9] == 'e',
        "ChangeUi"@.len() == 8,
        "ChangeUi"@[2] == 'a',
        "ChangeUi"@[4] == 'g',
        "SetFlag"@.len() == 7,
        "SetFlag"@[2] == 't',
        "SetFlag"@[4] == 'l',
        "CheckCharacter"@.len() == 14,
        "CheckCharacter"@[2] == 'e',
        "CheckCharacter"@[4] == 'k',
        "CheckCharacter"@[9] == 'a',
        "CheckObject"@.len() == 11,
        "CheckObject"@[2] == 'e',
        "CheckObject"@[4] == 'k',
        "CheckObject"@[9] == 'c',
        "SetLabel"@.len() == 8,
        "SetLabel"@[2] == 't',
        "SetLabel"@[4] == 'a',
        "SetChoiceText"@.len() == 13,
        "SetChoiceText"@[2] == 't',
        "SetChoiceText"@[4] == 'h',
        "SetChoiceText"@[9] == 'T',
        "CameraShake"@.len() == 11,
        "CameraShake"@[2] == 'm',
        "CameraShake"@[4] == 'r',
        "CameraShake"@[9] == 'k',
        "ShowBackground"@.len() == 14,
        "ShowBackground"@[2] == 'o',
        "ShowBackground"@[4] == 'B',
        "ShowBackground"@[9] == 'r',
        "0x33"@.len() == 4,
        "0x33"@[2] == '3',
        "GoToLabel"@.len() == 9,
        "GoToLabel"@[2] == 'T',
        "GoToLabel"@[4] == 'L',
        "CheckFlagA"@.len() == 10,
        "CheckFlagA"@[2] == 'e',
        "CheckFlagA"@[4] == 'k',
        "CheckFlagA"@[9] == 'A',
        "CheckFlagB"@.len() == 10,
        "CheckFlagB"@[2] == 'e',
        "CheckFlagB"@[4] == 'k',
        "CheckFlagB"@[9] == 'B',
        "WaitInput"@.len() == 9,
        "WaitInput"@[2] == 'i',
        "WaitInput"@[4] == 'I',
        "WaitFrame"@.len() == 9,
        "WaitFrame"@[2] == 'i',
        "WaitFrame"@[4] == 'F',
        "IfFlagCheck"@.len() == 11,
        "IfFlagCheck"@[2] == 'F',
        "IfFlagCheck"@[4] == 'a',
        "IfFlagCheck"@[9] == 'c',
{
    reveal_strlit("0x00");
    reveal_strlit("Text");
    reveal_strlit("TextBoxFormat");
    reveal_strlit("PostProcessingFilter");
    reveal_strlit("Movie");
    reveal_strlit("Animation");
    reveal_strlit("Voice");
    reveal_strlit("Music");
    reveal_strlit("Sound");
    reveal_strlit("SoundB");
    reveal_strlit("AddTruthBullets");
    reveal_strlit("AddPresents");
    reveal_strlit("UnlockSkill");
    reveal_strlit("StudentTitleEntry");
    reveal_strlit("TrialCamera");
    reveal_strlit("LoadMap");
    reveal_strlit("LoadScript");
    reveal_strlit("StopScript");
    reveal_strlit("RunScript");
    reveal_strlit("0x1C");
    reveal_strlit("Sprite");
    reveal_strlit("ScreenFlash");
    reveal_strlit("SpriteFlash");
    reveal_strlit("Speaker");
    reveal_strlit("ScreenFade");
    reveal_strlit("ChangeUi");
    reveal_strlit("SetFlag");
    reveal_strlit("CheckCharacter");
    reveal_strlit("CheckObject");
    reveal_strlit("SetLabel");
    reveal_strlit("SetChoiceText");
    reveal_strlit("CameraShake");
    reveal_strlit("ShowBackground");
    reveal_strlit("0x33");
    reveal_strlit("GoToLabel");
    reveal_strlit("CheckFlagA");
    reveal_strlit("CheckFlagB");
    reveal_strlit("WaitInput");
    reveal_strlit("WaitFrame");
    reveal_strlit("IfFlagCheck");
}

/// What each name of the table spells.
proof fn lemma_names_spelled()
    ensures
        "0x00"@ == seq!['0', 'x', '0', '0'],
        "Text"@ == seq!['T', 'e', 'x', 't'],
        "TextBoxFormat"@ == seq!['T', 'e', 'x', 't', 'B', 'o', 'x', 'F', 'o', 'r', 'm', 'a', 't'],
        "PostProcessingFilter"@ == seq![
            'P', 'o', 's', 't', 'P', 'r', 'o', 'c', 'e', 's', 's', 'i', 'n', 'g', 'F', 'i', 'l',
            't', 'e', 'r',
        ],
        "Movie"@ == seq!['M', 'o', 'v', 'i', 'e'],
        "Animation"@ == seq!['A', 'n', 'i', 'm', 'a', 't', 'i', 'o', 'n'],
        "Voice"@ == seq!['V', 'o', 'i', 'c', 'e'],
        "Music"@ == seq!['M', 'u', 's', 'i', 'c'],
        "Sound"@ == seq!['S', 'o', 'u', 'n', 'd'],
        "SoundB"@ == seq!['S', 'o', 'u', 'n', 'd', 'B'],
        "AddTruthBullets"@ == seq![
            'A', 'd', 'd', 'T', 'r', 'u', 't', 'h', 'B', 'u', 'l', 'l', 'e', 't', 's',
        ],
        "AddPresents"@ == seq!['A', 'd', 'd', 'P', 'r', 'e', 's', 'e', 'n', 't', 's'],
        "UnlockSkill"@ == seq!['U', 'n', 'l', 'o', 'c', 'k', 'S', 'k', 'i', 'l', 'l'],
        "StudentTitleEntry"@ == seq![
            'S', 't', 'u', 'd', 'e', 'n', 't', 'T', 'i', 't', 'l', 'e', 'E', 'n', 't', 'r', 'y',
        ],
        "TrialCamera"@ == seq!['T', 'r', 'i', 'a', 'l', 'C', 'a', 'm', 'e', 'r', 'a'],
        "LoadMap"@ == seq!['L', 'o', 'a', 'd', 'M', 'a', 'p'],
        "LoadScript"@ == seq!['L', 'o', 'a', 'd', 'S', 'c', 'r', 'i', 'p', 't'],
        "StopScript"@ == seq!['S', 't', 'o', 'p', 'S', 'c', 'r', 'i', 'p', 't'],
        "RunScript"@ == seq!['R', 'u', 'n', 'S', 'c', 'r', 'i', 'p', 't'],
        "0x1C"@ == seq!['0', 'x', '1', 'C'],
        "Sprite"@ == seq!['S', 'p', 'r', 'i', 't', 'e'],
        "ScreenFlash"@ == seq!['S', 'c', 'r', 'e', 'e', 'n', 'F', 'l', 'a', 's', 'h'],
        "SpriteFlash"@ == seq!['S', 'p', 'r', 'i', 't', 'e', 'F', 'l', 'a', 's', 'h'],
        "Speaker"@ == seq!['S', 'p', 'e', 'a', 'k', 'e', 'r'],
        "ScreenFade"@ == seq!['S', 'c', 'r', 'e', 'e', 'n', 'F', 'a', 'd', 'e'],
        "ChangeUi"@ == seq!['C', 'h', 'a', 'n', 'g', 'e', 'U', 'i'],
        "SetFlag"@ == seq!['S', 'e', 't', 'F', 'l', 'a', 'g'],
        "CheckCharacter"@ == seq![
            'C', 'h', 'e', 'c', 'k', 'C', 'h', 'a', 'r', 'a', 'c', 't', 'e', 'r',
        ],
        "CheckObject"@ == seq!['C', 'h', 'e', 'c', 'k', 'O', 'b', 'j', 'e', 'c', 't'],
        "SetLabel"@ == seq!['S', 'e', 't', 'L', 'a', 'b', 'e', 'l'],
        "SetChoiceText"@ == seq!['S', 'e', 't', 'C', 'h', 'o', 'i', 'c', 'e', 'T', 'e', 'x', 't'],
        "CameraShake"@ == seq!['C', 'a', 'm', 'e', 'r', 'a', 'S', 'h', 'a', 'k', 'e'],
        "ShowBackground"@ == seq![
            'S', 'h', 'o', 'w', 'B', 'a', 'c', 'k', 'g', 'r', 'o', 'u', 'n', 'd',
        ],
        "0x33"@ == seq!['0', 'x', '3', '3'],
        "GoToLabel"@ == seq!['G', 'o', 'T', 'o', 'L', 'a', 'b', 'e', 'l'],
        "CheckFlagA"@ == seq!['C', 'h', 'e', 'c', 'k', 'F', 'l', 'a', 'g', 'A'],
        "CheckFlagB"@ == seq!['C', 'h', 'e', 'c', 'k', 'F', 'l', 'a', 'g', 'B'],
        "WaitInput"@ == seq!['W', 'a', 'i', 't', 'I', 'n', 'p', 'u', 't'],
        "WaitFrame"@ == seq!['W', 'a', 'i', 't', 'F', 'r', 'a', 'm', 'e'],
        "IfFlagCheck"@ == seq!['I', 'f', 'F', 'l', 'a', 'g', 'C', 'h', 'e', 'c', 'k'],
{
    reveal_strlit("0x00");
    reveal_strlit("Text");
    reveal_strlit("TextBoxFormat");
    reveal_strlit("PostProcessingFilter");
    reveal_strlit("Movie");
    reveal_strlit("Animation");
    reveal_strlit("Voice");
    reveal_strlit("Music");
    reveal_strlit("Sound");
    reveal_strlit("SoundB");
    reveal_strlit("AddTruthBullets");
    reveal_strlit("AddPresents");
    reveal_strlit("UnlockSkill");
    reveal_strlit("StudentTitleEntry");
    reveal_strlit("TrialCamera");
    reveal_strlit("LoadMap");
    reveal_strlit("LoadScript");
    reveal_strlit("StopScript");
    reveal_strlit("RunScript");
    reveal_strlit("0x1C");
    reveal_strlit("Sprite");
    reveal_strlit("ScreenFlash");
    reveal_strlit("SpriteFlash");
    reveal_strlit("Speaker");
    reveal_strlit("ScreenFade");
    reveal_strlit("ChangeUi");
    reveal_strlit("SetFlag");
    reveal_strlit("CheckCharacter");
    reveal_strlit("CheckObject");
    reveal_strlit("SetLabel");
    reveal_strlit("SetChoiceText");
    reveal_strlit("CameraShake");
    reveal_strlit("ShowBackground");
    reveal_strlit("0x33");
    reveal_strlit("GoToLabel");
    reveal_strlit("CheckFlagA");
    reveal_strlit("CheckFlagB");
    reveal_strlit("WaitInput");
    reveal_strlit("WaitFrame");
    reveal_strlit("IfFlagCheck");
    assert("0x00"@ =~= seq!['0', 'x', '0', '0']);
    assert("Text"@ =~= seq!['T', 'e', 'x', 't']);
    assert("TextBoxFormat"@ =~= seq![
        'T', 'e', 'x', 't', 'B', 'o', 'x', 'F', 'o', 'r', 'm', 'a', 't',
    ]);
    assert("PostProcessingFilter"@ =~= seq![
        'P', 'o', 's', 't', 'P', 'r', 'o', 'c', 'e', 's', 's', 'i', 'n', 'g', 'F', 'i', 'l', 't',
        'e', 'r',
    ]);
    assert("Movie"@ =~= seq!['M', 'o', 'v', 'i', 'e']);
    assert("Animation"@ =~= seq!['A', 'n', 'i', 'm', 'a', 't', 'i', 'o', 'n']);
    assert("Voice"@ =~= seq!['V', 'o', 'i', 'c', 'e']);
    assert("Music"@ =~= seq!['M', 'u', 's', 'i', 'c']);
    assert("Sound"@ =~= seq!['S', 'o', 'u', 'n', 'd']);
    assert("SoundB"@ =~= seq!['S', 'o', 'u', 'n', 'd', 'B']);
    assert("AddTruthBullets"@ =~= seq![
        'A', 'd', 'd', 'T', 'r', 'u', 't', 'h', 'B', 'u', 'l', 'l', 'e', 't', 's',
    ]);
    assert("AddPresents"@ =~= seq!['A', 'd', 'd', 'P', 'r', 'e', 's', 'e', 'n', 't', 's']);
    assert("UnlockSkill"@ =~= seq!['U', 'n', 'l', 'o', 'c', 'k', 'S', 'k', 'i', 'l', 'l']);
    assert("StudentTitleEntry"@ =~= seq![
        'S', 't', 'u', 'd', 'e', 'n', 't', 'T', 'i', 't', 'l', 'e', 'E', 'n', 't', 'r', 'y',
    ]);
    assert("TrialCamera"@ =~= seq!['T', 'r', 'i', 'a', 'l', 'C', 'a', 'm', 'e', 'r', 'a']);
    assert("LoadMap"@ =~= seq!['L', 'o', 'a', 'd', 'M', 'a', 'p']);
    assert("LoadScript"@ =~= seq!['L', 'o', 'a', 'd', 'S', 'c', 'r', 'i', 'p', 't']);
    assert("StopScript"@ =~= seq!['S', 't', 'o', 'p', 'S', 'c', 'r', 'i', 'p', 't']);
    assert("RunScript"@ =~= seq!['R', 'u', 'n', 'S', 'c', 'r', 'i', 'p', 't']);
    assert("0x1C"@ =~= seq!['0', 'x', '1', 'C']);
    assert("Sprite"@ =~= seq!['S', 'p', 'r', 'i', 't', 'e']);
    assert("ScreenFlash"@ =~= seq!['S', 'c', 'r', 'e', 'e', 'n', 'F', 'l', 'a', 's', 'h']);
    assert("SpriteFlash"@ =~= seq!['S', 'p', 'r', 'i', 't', 'e', 'F', 'l', 'a', 's', 'h']);
    assert("Speaker"@ =~= seq!['S', 'p', 'e', 'a', 'k', 'e', 'r']);
    assert("ScreenFade"@ =~= seq!['S', 'c', 'r', 'e', 'e', 'n', 'F', 'a', 'd', 'e']);
    assert("ChangeUi"@ =~= seq!['C', 'h', 'a', 'n', 'g', 'e', 'U', 'i']);
    assert("SetFlag"@ =~= seq!['S', 'e', 't', 'F', 'l', 'a', 'g']);
    assert("CheckCharacter"@ =~= seq![
        'C', 'h', 'e', 'c', 'k', 'C', 'h', 'a', 'r', 'a', 'c', 't', 'e', 'r',
    ]);
    assert("CheckObject"@ =~= seq!['C', 'h', 'e', 'c', 'k', 'O', 'b', 'j', 'e', 'c', 't']);
    assert("SetLabel"@ =~= seq!['S', 'e', 't', 'L', 'a', 'b', 'e', 'l']);
    assert("SetChoiceText"@ =~= seq![
        'S', 'e', 't', 'C', 'h', 'o', 'i', 'c', 'e', 'T', 'e', 'x', 't',
    ]);
    assert("CameraShake"@ =~= seq!['C', 'a', 'm', 'e', 'r', 'a', 'S', 'h', 'a', 'k', 'e']);
    assert("ShowBackground"@ =~= seq![
        'S', 'h', 'o', 'w', 'B', 'a', 'c', 'k', 'g', 'r', 'o', 'u', 'n', 'd',
    ]);
    assert("0x33"@ =~= seq!['0', 'x', '3', '3']);
    assert("GoToLabel"@ =~= seq!['G', 'o', 'T', 'o', 'L', 'a', 'b', 'e', 'l']);
    assert("CheckFlagA"@ =~= seq!['C', 'h', 'e', 'c', 'k', 'F', 'l', 'a', 'g', 'A']);
    assert("CheckFlagB"@ =~= seq!['C', 'h', 'e', 'c', 'k', 'F', 'l', 'a', 'g', 'B']);
    assert("WaitInput"@ =~= seq!['W', 'a', 'i', 't', 'I', 'n', 'p', 'u', 't']);
    assert("WaitFrame"@ =~= seq!['W', 'a', 'i', 't', 'F', 'r', 'a', 'm', 'e']);
    assert("IfFlagCheck"@ =~= seq!['I', 'f', 'F', 'l', 'a', 'g', 'C', 'h', 'e', 'c', 'k']);
}

/// The letters and digits of ASCII.
pub open spec fn is_alphanumeric(c: char) -> bool {
    let n = c as u32;
    ||| '0' as u32 <= n <= '9' as u32
    ||| 'A' as u32 <= n <= 'Z' as u32
    ||| 'a' as u32 <= n <= 'z' as u32
}

/// A name of the table is not empty, and is made of letters and digits of
/// ASCII.
pub proof fn lemma_name_chars(code: u8)
    requires
        name_of(code) is Some,
    ensures
        name_of(code).unwrap().len() > 0,
        forall|i: int|
            0 <= i < name_of(code).unwrap().len() ==> is_alphanumeric(
                #[trigger] name_of(code).unwrap()[i],
            ),
{
    lemma_names_spelled();
}

/// A code that has a name is the code of that name.
pub proof fn lemma_code_of_name(code: u8)
    requires
        name_of(code) is Some,
    ensures
        code_of(name_of(code).unwrap()) == Some(code),
        code_for(name_of(code).unwrap()) == code,
{
    lemma_names_differ();
}

/// A name that has a code is the name of that code.
pub proof fn lemma_name_of_code(name: Seq<char>)
    requires
        code_of(name) is Some,
    ensures
        name_of(code_of(name).unwrap()) == Some(name),
        name_for(code_of(name).unwrap()) == name,
{
}

/// The reserved name of a code is no name of the table: it is encoded as the
/// sentinel.
pub proof fn lemma_unknown_name_is_reserved(code: u8)
    ensures
        code_of(unknown_name(code)) is None,
        code_for(unknown_name(code)) == SENTINEL,
{
    let name = unknown_name(code);
    reveal_strlit("Unknown_0x");
    assert(name[7] == '_');
    if code_of(name) is Some {
        lemma_name_of_code(name);
        lemma_name_chars(code_of(name).unwrap());
    }
}

/// Neither the marker byte nor the sentinel is the code of any name, and
/// every code that the decoder reads has a name.
pub proof fn lemma_reserved_codes(code: u8)
    ensures
        name_of(MARKER) is None,
        name_of(SENTINEL) is None,
        arity_of(MARKER) is None,
        arity_of(SENTINEL) is None,
        arity_of(code) is Some ==> name_of(code) is Some,
        arity_of(code) == Some(Arity::Variable) <==> code == FLAG_CHECK,
{
}

} // verus!
