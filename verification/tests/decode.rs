use dgrlin::decode::{decode, decode_ops, DecodeError, DecodeErrorKind, Decoded, DecodedOps};
use dgrlin::op::Op;
use dgrlin::opcode::Opcode;

fn decoded(name: &str, hexcode: &[u8]) -> Opcode {
    Opcode {
        name: name.to_string(),
        hexcode: hexcode.to_vec(),
        text_id: None,
    }
}

fn failure(kind: DecodeErrorKind, index: usize, offset: usize) -> DecodeError {
    DecodeError {
        kind,
        index,
        offset,
    }
}

const SAMPLE: [u8; 31] = [
    0x70, 0x00, 0xBF, 0x01, 0x70, 0x22, 0x01, 0x00, 0x01, 0x70, 0x25, 0x0B, 0x01, 0x70, 0x25,
    0x07, 0x00, 0x70, 0x25, 0x10, 0x00, 0x70, 0x33, 0x02, 0x00, 0x00, 0x64, 0x70, 0x33, 0x03,
    0x00,
];

#[test]
fn wait_frame_alone() {
    let script = decode(&[0x70, 0x3B]).unwrap();
    assert_eq!(script.instructions.len(), 1);
    assert_eq!(script.instructions[0].name, "WaitFrame");
    assert_eq!(script.instructions[0].args().len(), 0);
    assert_eq!(script.instructions[0].text_id, None);
    assert_eq!(script.trailing, 0);
}

#[test]
fn a_script_of_several_instructions() {
    let mut bytes = SAMPLE.to_vec();
    bytes.extend([0x00, 0x64]);
    assert_eq!(
        decode(&bytes),
        Ok(Decoded {
            instructions: vec![
                decoded("0x00", &[0x70, 0x00, 0xBF, 0x01]),
                decoded("ScreenFade", &[0x70, 0x22, 0x01, 0x00, 0x01]),
                decoded("ChangeUi", &[0x70, 0x25, 0x0B, 0x01]),
                decoded("ChangeUi", &[0x70, 0x25, 0x07, 0x00]),
                decoded("ChangeUi", &[0x70, 0x25, 0x10, 0x00]),
                decoded("0x33", &[0x70, 0x33, 0x02, 0x00, 0x00, 0x64]),
                decoded("0x33", &[0x70, 0x33, 0x03, 0x00, 0x00, 0x64]),
            ],
            trailing: 0,
        })
    );
    assert_eq!(
        decode_ops(&bytes),
        Ok(DecodedOps {
            ops: vec![
                Op::Zero { arg1: 0xBF, arg2: 1 },
                Op::ScreenFade { arg1: 1, arg2: 0, arg3: 1 },
                Op::ChangeUi { arg1: 0x0B, arg2: 1 },
                Op::ChangeUi { arg1: 7, arg2: 0 },
                Op::ChangeUi { arg1: 0x10, arg2: 0 },
                Op::ThreeThree { arg1: 2, arg2: 0, arg3: 0, arg4: 0x64 },
                Op::ThreeThree { arg1: 3, arg2: 0, arg3: 0, arg4: 0x64 },
            ],
            trailing: 0,
        })
    );
}

#[test]
fn decoding_stops_at_a_byte_that_is_no_marker() {
    assert_eq!(
        decode(&[]),
        Ok(Decoded { instructions: vec![], trailing: 0 })
    );
    assert_eq!(
        decode(&[0x00]),
        Ok(Decoded { instructions: vec![], trailing: 1 })
    );
    assert_eq!(
        decode(&[0x70, 0x3B, 0x00, 0x01, 0x70, 0x3B]),
        Ok(Decoded {
            instructions: vec![decoded("WaitFrame", &[0x70, 0x3B])],
            trailing: 4,
        })
    );
    assert_eq!(
        decode_ops(&[0x70, 0x3A, 0x71]),
        Ok(DecodedOps { ops: vec![Op::WaitInput], trailing: 1 })
    );
    assert_eq!(decode_ops(&[]), Ok(DecodedOps { ops: vec![], trailing: 0 }));
}

#[test]
fn truncated_instruction() {
    assert_eq!(
        decode(&[0x70, 0x00, 0xBF]),
        Err(failure(DecodeErrorKind::Truncated(0), 0, 0))
    );
    assert_eq!(
        decode(&[0x70, 0x3B, 0x70, 0x06, 1, 2, 3]),
        Err(failure(DecodeErrorKind::Truncated(6), 1, 2))
    );
    assert_eq!(
        decode(&SAMPLE),
        Err(failure(DecodeErrorKind::Truncated(0x33), 6, 27))
    );
    assert_eq!(
        decode_ops(&SAMPLE),
        Err(failure(DecodeErrorKind::Truncated(0x33), 6, 27))
    );
    assert_eq!(
        decode(&[0x70, 0x21]),
        Err(failure(DecodeErrorKind::Truncated(0x21), 0, 0))
    );
}

#[test]
fn unknown_code() {
    assert_eq!(
        decode(&[0x70, 0x3B, 0x70, 0x3D]),
        Err(failure(DecodeErrorKind::UnknownCode(0x3D), 1, 2))
    );
    assert_eq!(
        decode(&[0x70, 0x05, 0x01]),
        Err(failure(DecodeErrorKind::UnknownCode(0x05), 0, 0))
    );
    assert_eq!(
        decode(&[0x70, 0xFE]),
        Err(failure(DecodeErrorKind::UnknownCode(0xFE), 0, 0))
    );
    assert_eq!(
        decode(&[0x70, 0x70, 0x3B]),
        Err(failure(DecodeErrorKind::UnknownCode(0x70), 0, 0))
    );
    assert_eq!(
        decode_ops(&[0x70, 0x1A, 0x70, 0x1A, 0x70, 0x36]),
        Err(failure(DecodeErrorKind::UnknownCode(0x36), 2, 4))
    );
}

#[test]
fn marker_without_a_code() {
    assert_eq!(
        decode(&[0x70]),
        Err(failure(DecodeErrorKind::MissingCode, 0, 0))
    );
    assert_eq!(
        decode(&[0x70, 0x21, 0x05, 0x70]),
        Err(failure(DecodeErrorKind::MissingCode, 1, 3))
    );
    assert_eq!(
        decode_ops(&[0x70]),
        Err(failure(DecodeErrorKind::MissingCode, 0, 0))
    );
}

#[test]
fn flag_check_runs_to_the_next_marker() {
    for count in [4usize, 19, 24] {
        let mut bytes = vec![0x70, 0x35];
        bytes.extend((0..count).map(|k| k as u8));
        let own = bytes.clone();
        bytes.extend([0x70, 0x3B]);
        let script = decode(&bytes).unwrap();
        assert_eq!(script.instructions.len(), 2);
        assert_eq!(script.instructions[0], decoded("CheckFlagA", &own));
        assert_eq!(script.instructions[0].args().len(), count);
        assert_eq!(script.instructions[1], decoded("WaitFrame", &[0x70, 0x3B]));
        assert_eq!(script.trailing, 0);
    }
}

#[test]
fn flag_check_runs_to_the_end_of_the_input() {
    assert_eq!(
        decode(&[0x70, 0x35, 1, 2, 3, 4]),
        Ok(Decoded {
            instructions: vec![decoded("CheckFlagA", &[0x70, 0x35, 1, 2, 3, 4])],
            trailing: 0,
        })
    );
    assert_eq!(
        decode(&[0x70, 0x35]),
        Ok(Decoded {
            instructions: vec![decoded("CheckFlagA", &[0x70, 0x35])],
            trailing: 0,
        })
    );
    assert_eq!(
        decode_ops(&[0x70, 0x35, 1, 2, 3, 4]),
        Ok(DecodedOps {
            ops: vec![Op::CheckFlagA4 { arg1: 1, arg2: 2, arg3: 3, arg4: 4 }],
            trailing: 0,
        })
    );
}

#[test]
fn decoder_takes_a_flag_check_of_any_length() {
    for count in [0usize, 1, 3, 5, 18, 20, 23, 25, 100] {
        let mut bytes = vec![0x70, 0x35];
        bytes.extend((0..count).map(|k| k as u8));
        let own = bytes.clone();
        bytes.extend([0x70, 0x1A]);
        assert_eq!(
            decode(&bytes),
            Ok(Decoded {
                instructions: vec![
                    decoded("CheckFlagA", &own),
                    decoded("StopScript", &[0x70, 0x1A])
                ],
                trailing: 0,
            })
        );
    }
}

#[test]
fn strict_decoder_takes_a_flag_check_of_4_19_or_24() {
    for count in 0..40usize {
        let mut bytes = vec![0x70, 0x3B, 0x70, 0x35];
        bytes.extend((0..count).map(|k| k as u8));
        bytes.extend([0x70, 0x1A]);
        let result = decode_ops(&bytes);
        if count == 4 || count == 19 || count == 24 {
            let script = result.unwrap();
            assert_eq!(script.ops.len(), 3);
            assert_eq!(script.ops[0], Op::WaitFrame);
            assert_eq!(script.ops[1].to_hex(), bytes[2..4 + count].to_vec());
            assert_eq!(script.ops[2], Op::StopScript);
            assert_eq!(script.trailing, 0);
        } else {
            assert_eq!(
                result,
                Err(failure(DecodeErrorKind::FlagCheckLength(count), 1, 2))
            );
        }
    }
}

#[test]
fn marker_byte_among_the_arguments_of_a_flag_check_ends_it() {
    assert_eq!(
        decode(&[0x70, 0x35, 1, 0x70, 0x03, 4]),
        Ok(Decoded {
            instructions: vec![
                decoded("CheckFlagA", &[0x70, 0x35, 1]),
                decoded("TextBoxFormat", &[0x70, 0x03, 4]),
            ],
            trailing: 0,
        })
    );
}

#[test]
fn marker_byte_among_fixed_arguments_is_an_argument() {
    assert_eq!(
        decode(&[0x70, 0x25, 0x70, 0x70, 0x70, 0x3A]),
        Ok(Decoded {
            instructions: vec![
                decoded("ChangeUi", &[0x70, 0x25, 0x70, 0x70]),
                decoded("WaitInput", &[0x70, 0x3A]),
            ],
            trailing: 0,
        })
    );
}

#[test]
fn decoding_an_encoded_instruction_gives_it_back() {
    let instructions = [
        decoded("WaitFrame", &[0x70, 0x3B]),
        decoded("Animation", &[0x70, 0x06, 1, 2, 3, 4, 5, 6, 7, 8]),
        decoded("Text", &[0x70, 0x02, 0x01, 0x04]),
        decoded("CheckFlagA", &[0x70, 0x35, 9, 8, 7]),
    ];
    let mut all = Vec::new();
    for op in &instructions {
        let bytes = op.to_hex();
        assert_eq!(
            decode(&bytes),
            Ok(Decoded { instructions: vec![op.clone()], trailing: 0 })
        );
        all.extend(bytes);
    }
    assert_eq!(
        decode(&all),
        Ok(Decoded { instructions: instructions.to_vec(), trailing: 0 })
    );
}

#[test]
fn decode_error_messages() {
    assert_eq!(
        failure(DecodeErrorKind::UnknownCode(0x3D), 1, 2).message(),
        "Invalid opcode: 3d (instruction 1, offset 2)"
    );
    assert_eq!(
        failure(DecodeErrorKind::UnknownCode(0x0A), 0, 0).reason(),
        "Invalid opcode: 0a"
    );
    assert_eq!(
        failure(DecodeErrorKind::Truncated(0xF0), 12, 345).message(),
        "Truncated opcode: f0 (instruction 12, offset 345)"
    );
    assert_eq!(
        failure(DecodeErrorKind::FlagCheckLength(5), 10, 100).message(),
        "Invalid CheckFlagA Length: 5 (instruction 10, offset 100)"
    );
    assert_eq!(
        failure(DecodeErrorKind::MissingCode, 7, 65536).message(),
        "Missing opcode (instruction 7, offset 65536)"
    );
}
