use dgrlin::table::{
    arity, code_to_name, known_name, name_to_code, Arity, Lookup, FLAG_CHECK, MARKER, SENTINEL,
    TEXT,
};

#[test]
fn constants() {
    assert_eq!(MARKER, 112);
    assert_eq!(SENTINEL, 254);
    assert_eq!(TEXT, 2);
    assert_eq!(FLAG_CHECK, 53);
}

#[test]
fn names_have_their_codes() {
    let table: [(&str, u8); 40] = [
        ("0x00", 0x00),
        ("Text", 0x02),
        ("TextBoxFormat", 0x03),
        ("PostProcessingFilter", 0x04),
        ("Movie", 0x05),
        ("Animation", 0x06),
        ("Voice", 0x08),
        ("Music", 0x09),
        ("Sound", 0x0A),
        ("SoundB", 0x0B),
        ("AddTruthBullets", 0x0C),
        ("AddPresents", 0x0D),
        ("UnlockSkill", 0x0E),
        ("StudentTitleEntry", 0x0F),
        ("TrialCamera", 0x14),
        ("LoadMap", 21),
        ("LoadScript", 0x19),
        ("StopScript", 0x1A),
        ("RunScript", 0x1B),
        ("0x1C", 0x1C),
        ("Sprite", 30),
        ("ScreenFlash", 31),
        ("SpriteFlash", 32),
        ("Speaker", 33),
        ("ScreenFade", 34),
        ("ChangeUi", 37),
        ("SetFlag", 38),
        ("CheckCharacter", 39),
        ("CheckObject", 41),
        ("SetLabel", 42),
        ("SetChoiceText", 43),
        ("CameraShake", 0x2E),
        ("ShowBackground", 48),
        ("0x33", 51),
        ("GoToLabel", 52),
        ("CheckFlagA", 0x35),
        ("CheckFlagB", 0x36),
        ("WaitInput", 58),
        ("WaitFrame", 59),
        ("IfFlagCheck", 60),
    ];
    for (name, code) in table {
        assert_eq!(name_to_code(name), Lookup::Known(code), "{}", name);
        assert_eq!(name_to_code(name).code(), code);
        assert_eq!(code_to_name(code), name);
        assert_eq!(known_name(code), Some(name));
    }
}

#[test]
fn names_and_codes_are_inverse() {
    let mut named = 0;
    for code in 0..=255u8 {
        match known_name(code) {
            Some(name) => {
                named += 1;
                assert_eq!(name_to_code(name), Lookup::Known(code));
            }
            None => {
                assert_eq!(name_to_code(&code_to_name(code)), Lookup::Unknown);
            }
        }
    }
    assert_eq!(named, 40);
}

#[test]
fn unknown_names_get_the_sentinel() {
    for name in [
        "Jimmys_Opcode",
        "",
        "waitframe",
        "WaitFrame ",
        " WaitFrame",
        "WaitFram",
        "WaitFrames",
        "If_FlagCheck",
        "CheckFlagA4",
        "0x1c",
        "0xFE",
    ] {
        assert_eq!(name_to_code(name), Lookup::Unknown, "{:?}", name);
        assert_eq!(name_to_code(name).code(), 0xFE);
    }
}

#[test]
fn unknown_codes_get_the_reserved_name() {
    assert_eq!(code_to_name(0x3D), "Unknown_0x3d");
    assert_eq!(code_to_name(0xFE), "Unknown_0xfe");
    assert_eq!(code_to_name(0x70), "Unknown_0x70");
    assert_eq!(code_to_name(0x01), "Unknown_0x01");
    assert_eq!(code_to_name(0xFF), "Unknown_0xff");
    assert_eq!(code_to_name(0xA0), "Unknown_0xa0");
    assert_eq!(known_name(0x3D), None);
    assert_eq!(known_name(0x70), None);
    assert_eq!(known_name(0xFE), None);
}

#[test]
fn argument_counts() {
    let fixed: [(u8, usize); 27] = [
        (0x00, 2),
        (0x02, 2),
        (0x03, 1),
        (0x06, 8),
        (0x08, 5),
        (0x09, 3),
        (0x0A, 3),
        (0x15, 3),
        (0x19, 3),
        (0x1A, 0),
        (0x1E, 5),
        (0x1F, 7),
        (0x20, 5),
        (0x21, 1),
        (0x22, 3),
        (0x25, 2),
        (0x26, 3),
        (0x27, 1),
        (0x29, 1),
        (0x2A, 2),
        (0x2B, 1),
        (0x30, 3),
        (0x33, 4),
        (0x34, 2),
        (0x3A, 0),
        (0x3B, 0),
        (0x3C, 0),
    ];
    let mut known = 0;
    for code in 0..=255u8 {
        match arity(code) {
            Some(Arity::Fixed(count)) => {
                known += 1;
                assert!(fixed.contains(&(code, count)), "{}", code);
                assert!(known_name(code).is_some());
            }
            Some(Arity::Variable) => assert_eq!(code, 0x35),
            None => assert!(fixed.iter().all(|(c, _)| *c != code) && code != 0x35),
        }
    }
    assert_eq!(known, 27);
    assert_eq!(arity(0x35), Some(Arity::Variable));
    assert_eq!(arity(0x05), None);
    assert_eq!(arity(0x70), None);
    assert_eq!(arity(0xFE), None);
}
