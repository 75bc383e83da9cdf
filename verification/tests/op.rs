use dgrlin::op::{Op, OpError};
use dgrlin::opcode::Opcode;

fn flag_check_19() -> Op {
    Op::CheckFlagA19 {
        arg1: 1,
        arg2: 2,
        arg3: 3,
        arg4: 4,
        arg5: 5,
        arg6: 6,
        arg7: 7,
        arg8: 8,
        arg9: 9,
        arg10: 10,
        arg11: 11,
        arg12: 12,
        arg13: 13,
        arg14: 14,
        arg15: 15,
        arg16: 16,
        arg17: 17,
        arg18: 18,
        arg19: 19,
    }
}

fn flag_check_24() -> Op {
    Op::CheckFlagA24 {
        arg1: 1,
        arg2: 2,
        arg3: 3,
        arg4: 4,
        arg5: 5,
        arg6: 6,
        arg7: 7,
        arg8: 8,
        arg9: 9,
        arg10: 10,
        arg11: 11,
        arg12: 12,
        arg13: 13,
        arg14: 14,
        arg15: 15,
        arg16: 16,
        arg17: 17,
        arg18: 18,
        arg19: 19,
        arg20: 20,
        arg21: 21,
        arg22: 22,
        arg23: 23,
        arg24: 24,
    }
}

fn every_variant() -> Vec<(Op, Vec<u8>, &'static str)> {
    vec![
        (Op::Zero { arg1: 191, arg2: 1 }, vec![112, 0, 191, 1], "0x00(191, 1)"),
        (Op::Text { arg1: 1, arg2: 4 }, vec![112, 2, 1, 4], "Text(260)"),
        (Op::TextBoxFormat { arg1: 9 }, vec![112, 3, 9], "TextBoxFormat(9)"),
        (
            Op::Animation {
                arg1: 1,
                arg2: 2,
                arg3: 3,
                arg4: 4,
                arg5: 5,
                arg6: 6,
                arg7: 7,
                arg8: 8,
            },
            vec![112, 6, 1, 2, 3, 4, 5, 6, 7, 8],
            "Animation(1, 2, 3, 4, 5, 6, 7, 8)",
        ),
        (
            Op::Voice { arg1: 1, arg2: 2, arg3: 3, arg4: 4, arg5: 5 },
            vec![112, 8, 1, 2, 3, 4, 5],
            "Voice(1, 2, 3, 4, 5)",
        ),
        (Op::Music { arg1: 1, arg2: 2, arg3: 3 }, vec![112, 9, 1, 2, 3], "Music(1, 2, 3)"),
        (Op::Sound { arg1: 1, arg2: 2, arg3: 3 }, vec![112, 10, 1, 2, 3], "Sound(1, 2, 3)"),
        (Op::LoadMap { arg1: 1, arg2: 2, arg3: 3 }, vec![112, 21, 1, 2, 3], "LoadMap(1, 2, 3)"),
        (
            Op::LoadScript { arg1: 1, arg2: 2, arg3: 3 },
            vec![112, 25, 1, 2, 3],
            "LoadScript(1, 2, 3)",
        ),
        (Op::StopScript, vec![112, 26], "StopScript()"),
        (
            Op::Sprite { arg1: 1, arg2: 2, arg3: 3, arg4: 4, arg5: 5 },
            vec![112, 30, 1, 2, 3, 4, 5],
            "Sprite(1, 2, 3, 4, 5)",
        ),
        (
            Op::ScreenFlash { arg1: 1, arg2: 2, arg3: 3, arg4: 4, arg5: 5, arg6: 6, arg7: 7 },
            vec![112, 31, 1, 2, 3, 4, 5, 6, 7],
            "ScreenFlash(1, 2, 3, 4, 5, 6, 7)",
        ),
        (
            Op::SpriteFlash { arg1: 1, arg2: 2, arg3: 3, arg4: 4, arg5: 5 },
            vec![112, 32, 1, 2, 3, 4, 5],
            "SpriteFlash(1, 2, 3, 4, 5)",
        ),
        (Op::Speaker { arg1: 7 }, vec![112, 33, 7], "Speaker(7)"),
        (
            Op::ScreenFade { arg1: 1, arg2: 0, arg3: 1 },
            vec![112, 34, 1, 0, 1],
            "ScreenFade(1, 0, 1)",
        ),
        (Op::ChangeUi { arg1: 11, arg2: 1 }, vec![112, 37, 11, 1], "ChangeUi(11, 1)"),
        (Op::SetFlag { arg1: 1, arg2: 2, arg3: 3 }, vec![112, 38, 1, 2, 3], "SetFlag(1, 2, 3)"),
        (Op::CheckCharacter { arg1: 5 }, vec![112, 39, 5], "CheckCharacter(5)"),
        (Op::CheckObject { arg1: 5 }, vec![112, 41, 5], "CheckObject(5)"),
        (Op::SetLabel { arg1: 1, arg2: 2 }, vec![112, 42, 1, 2], "SetLabel(1, 2)"),
        (Op::SetChoiceText { arg1: 3 }, vec![112, 43, 3], "SetChoiceText(3)"),
        (
            Op::ShowBackground { arg1: 1, arg2: 2, arg3: 3 },
            vec![112, 48, 1, 2, 3],
            "ShowBackground(1, 2, 3)",
        ),
        (
            Op::ThreeThree { arg1: 2, arg2: 0, arg3: 0, arg4: 100 },
            vec![112, 51, 2, 0, 0, 100],
            "0x33(2, 0, 0, 100)",
        ),
        (Op::GoToLabel { arg1: 1, arg2: 2 }, vec![112, 52, 1, 2], "GoToLabel(1, 2)"),
        (
            Op::CheckFlagA4 { arg1: 1, arg2: 2, arg3: 3, arg4: 4 },
            vec![112, 53, 1, 2, 3, 4],
            "CheckFlagA(1, 2, 3, 4)",
        ),
        (
            flag_check_19(),
            vec![112, 53, 1, 2, 3, 4, 5, 6, 7, 8, 9, 10, 11, 12, 13, 14, 15, 16, 17, 18, 19],
            "CheckFlagA(1, 2, 3, 4, 5, 6, 7, 8, 9, 10, 11, 12, 13, 14, 15, 16, 17, 18, 19)",
        ),
        (
            flag_check_24(),
            vec![
                112, 53, 1, 2, 3, 4, 5, 6, 7, 8, 9, 10, 11, 12, 13, 14, 15, 16, 17, 18, 19, 20, 21,
                22, 23, 24,
            ],
            "CheckFlagA(1, 2, 3, 4, 5, 6, 7, 8, 9, 10, 11, 12, 13, 14, 15, 16, 17, 18, 19, 20, 21, 22, \
             23, 24)",
        ),
        (Op::WaitInput, vec![112, 58], "WaitInput()"),
        (Op::WaitFrame, vec![112, 59], "WaitFrame()"),
        (Op::If_FlagCheck, vec![112, 60], "IfFlagCheck()"),
    ]
}

#[test]
fn every_variant_has_its_wire_form_and_its_line() {
    let all = every_variant();
    assert_eq!(all.len(), 30);
    for (op, bytes, line) in all {
        assert_eq!(op.to_hex(), bytes, "{:?}", op);
        assert_eq!(op.to_string(), line);
    }
}

#[test]
fn every_variant_is_parsed_from_its_line() {
    for (op, _, line) in every_variant() {
        if let Op::Text { .. } = op {
            continue;
        }
        assert_eq!(Op::try_from(line.to_string()), Ok(op), "{}", line);
    }
}

#[test]
fn text_is_written_with_its_identifier_and_read_with_its_bytes() {
    assert_eq!(Op::Text { arg1: 1, arg2: 4 }.to_string(), "Text(260)");
    assert_eq!(Op::Text { arg1: 0, arg2: 0 }.to_string(), "Text(0)");
    assert_eq!(Op::Text { arg1: 0, arg2: 200 }.to_string(), "Text(200)");
    assert_eq!(Op::Text { arg1: 255, arg2: 255 }.to_string(), "Text(65535)");
    assert_eq!(
        Op::try_from("Text(1, 4)".to_string()),
        Ok(Op::Text { arg1: 1, arg2: 4 })
    );
    assert_eq!(
        Op::try_from("Text(260)".to_string()),
        Err(OpError::MissingArguments { expected: 2, found: 0 })
    );
    assert_eq!(
        Op::try_from("Text(200)".to_string()),
        Err(OpError::MissingArguments { expected: 2, found: 1 })
    );
}

#[test]
fn every_variant_is_typed_from_its_code_and_arguments() {
    for (op, bytes, _) in every_variant() {
        assert_eq!(Op::from_code(bytes[1], &bytes[2..]), Ok(op));
        let opcode = op.to_opcode();
        assert_eq!(opcode.hexcode, bytes);
        assert_eq!(opcode.text_id, None);
        assert_eq!(opcode.to_string(), op.to_string());
        assert_eq!(Op::from_opcode(&opcode), Ok(op));
    }
}

#[test]
fn arguments_beyond_the_count_are_left_aside() {
    assert_eq!(Op::try_from("WaitFrame(0, 1, 2, 3, 4)".to_string()), Ok(Op::WaitFrame));
    assert_eq!(
        Op::try_from("ChangeUi(1, 2, 3)".to_string()),
        Ok(Op::ChangeUi { arg1: 1, arg2: 2 })
    );
    assert_eq!(
        Op::from_code(0x21, &[9, 8, 7]),
        Ok(Op::Speaker { arg1: 9 })
    );
}

#[test]
fn too_few_arguments() {
    assert_eq!(
        Op::try_from("ScreenFade(1)".to_string()),
        Err(OpError::MissingArguments { expected: 3, found: 1 })
    );
    assert_eq!(
        Op::try_from("Text(\"George\")".to_string()),
        Err(OpError::MissingArguments { expected: 2, found: 0 })
    );
    assert_eq!(
        Op::from_code(0x06, &[1, 2, 3, 4, 5, 6, 7]),
        Err(OpError::MissingArguments { expected: 8, found: 7 })
    );
}

#[test]
fn names_without_a_typed_form() {
    assert_eq!(Op::try_from("Jimmys_Opcode()".to_string()), Err(OpError::InvalidOpcode));
    assert_eq!(Op::try_from("Movie(1)".to_string()), Err(OpError::InvalidOpcode));
    assert_eq!(Op::try_from("CheckFlagB(1, 2)".to_string()), Err(OpError::InvalidOpcode));
    assert_eq!(Op::try_from(" WaitFrame()".to_string()), Err(OpError::InvalidOpcode));
    assert_eq!(Op::from_code(0xFE, &[]), Err(OpError::InvalidOpcode));
    assert_eq!(Op::from_code(0x70, &[]), Err(OpError::InvalidOpcode));
    assert_eq!(Op::from_code(0x04, &[1]), Err(OpError::InvalidOpcode));
}

#[test]
fn line_without_a_parenthesis() {
    assert_eq!(Op::try_from("WaitFrame".to_string()), Err(OpError::MissingParenthesis));
    assert_eq!(Op::try_from(String::new()), Err(OpError::MissingParenthesis));
    assert_eq!(Op::try_from("{".to_string()), Err(OpError::MissingParenthesis));
}

#[test]
fn flag_check_of_another_length() {
    assert_eq!(
        Op::try_from("CheckFlagA(1, 2, 3)".to_string()),
        Err(OpError::FlagCheckLength(3))
    );
    assert_eq!(Op::try_from("CheckFlagA()".to_string()), Err(OpError::FlagCheckLength(0)));
    assert_eq!(Op::from_code(0x35, &[0; 20]), Err(OpError::FlagCheckLength(20)));
    let opcode = Opcode {
        name: "CheckFlagA".to_string(),
        hexcode: vec![0x70, 0x35, 1, 2, 3, 4, 5],
        text_id: None,
    };
    assert_eq!(Op::from_opcode(&opcode), Err(OpError::FlagCheckLength(5)));
}

#[test]
fn op_error_messages() {
    assert_eq!(OpError::InvalidOpcode.message(), "Invalid Opcode");
    assert_eq!(OpError::MissingParenthesis.message(), "Missing parenthesis");
    assert_eq!(
        OpError::MissingArguments { expected: 3, found: 1 }.message(),
        "Missing arguments: expected 3, found 1"
    );
    assert_eq!(
        OpError::FlagCheckLength(20).message(),
        "Invalid CheckFlagA Length: 20"
    );
}
