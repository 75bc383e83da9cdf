use dgrlin::decode::{DecodeError, DecodeErrorKind};
use dgrlin::op::OpError;
use dgrlin::script::{byte_to_text, text_to_byte, LineError};

const SAMPLE: [u8; 33] = [
    0x70, 0x00, 0xBF, 0x01, 0x70, 0x22, 0x01, 0x00, 0x01, 0x70, 0x25, 0x0B, 0x01, 0x70, 0x25,
    0x07, 0x00, 0x70, 0x25, 0x10, 0x00, 0x70, 0x33, 0x02, 0x00, 0x00, 0x64, 0x70, 0x33, 0x03,
    0x00, 0x00, 0x64,
];

fn sample_lines() -> Vec<String> {
    [
        "0x00(191, 1)",
        "ScreenFade(1, 0, 1)",
        "ChangeUi(11, 1)",
        "ChangeUi(7, 0)",
        "ChangeUi(16, 0)",
        "0x33(2, 0, 0, 100)",
        "0x33(3, 0, 0, 100)",
    ]
    .iter()
    .map(|line| line.to_string())
    .collect()
}

#[test]
fn bytes_to_lines() {
    assert_eq!(byte_to_text(&SAMPLE), Ok(sample_lines()));
    assert_eq!(byte_to_text(&[]), Ok(vec![]));
    assert_eq!(byte_to_text(&[0x00, 0x70, 0x3B]), Ok(vec![]));
}

#[test]
fn lines_to_bytes() {
    assert_eq!(text_to_byte(&sample_lines()), Ok(SAMPLE.to_vec()));
    assert_eq!(text_to_byte(&vec![]), Ok(vec![]));
    assert_eq!(
        text_to_byte(&vec!["WaitFrame()".to_string(), "WaitInput( )".to_string()]),
        Ok(vec![0x70, 0x3B, 0x70, 0x3A])
    );
}

#[test]
fn lines_of_a_script_assemble_to_its_bytes() {
    let mut bytes = SAMPLE.to_vec();
    bytes.extend([0x70, 0x35, 1, 2, 3, 4, 0x70, 0x3C, 0x70, 0x1A]);
    let lines = byte_to_text(&bytes).unwrap();
    assert_eq!(lines.len(), 10);
    assert_eq!(lines[7], "CheckFlagA(1, 2, 3, 4)");
    assert_eq!(lines[8], "IfFlagCheck()");
    assert_eq!(lines[9], "StopScript()");
    assert_eq!(text_to_byte(&lines), Ok(bytes.clone()));
    bytes.extend([0xFF, 0x00]);
    let again = byte_to_text(&bytes).unwrap();
    assert_eq!(again, lines);
    assert_eq!(text_to_byte(&again), Ok(bytes[..bytes.len() - 2].to_vec()));
}

#[test]
fn line_of_a_text_shows_its_identifier() {
    let bytes = [0x70, 0x3B, 0x70, 0x02, 0x01, 0x04];
    let lines = byte_to_text(&bytes).unwrap();
    assert_eq!(lines, vec!["WaitFrame()".to_string(), "Text(260)".to_string()]);
    assert_eq!(
        text_to_byte(&lines),
        Err(LineError {
            line: 1,
            error: OpError::MissingArguments { expected: 2, found: 0 }
        })
    );
    assert_eq!(
        text_to_byte(&vec!["WaitFrame()".to_string(), "Text(1, 4)".to_string()]),
        Ok(bytes.to_vec())
    );
}

#[test]
fn first_line_that_is_no_instruction() {
    let mut lines = sample_lines();
    lines.insert(3, "}".to_string());
    lines.push("Nonsense()".to_string());
    assert_eq!(
        text_to_byte(&lines),
        Err(LineError { line: 3, error: OpError::MissingParenthesis })
    );
    lines.remove(3);
    assert_eq!(
        text_to_byte(&lines),
        Err(LineError { line: 7, error: OpError::InvalidOpcode })
    );
    lines[0] = "0x00(191)".to_string();
    assert_eq!(
        text_to_byte(&lines),
        Err(LineError {
            line: 0,
            error: OpError::MissingArguments { expected: 2, found: 1 }
        })
    );
}

#[test]
fn bytes_that_are_no_script() {
    let mut bytes = SAMPLE.to_vec();
    bytes.extend([0x70, 0x3D]);
    assert_eq!(
        byte_to_text(&bytes),
        Err(DecodeError { kind: DecodeErrorKind::UnknownCode(0x3D), index: 7, offset: 33 })
    );
    assert_eq!(
        byte_to_text(&[0x70, 0x35, 1, 2, 3, 4, 5]),
        Err(DecodeError { kind: DecodeErrorKind::FlagCheckLength(5), index: 0, offset: 0 })
    );
    assert_eq!(
        byte_to_text(&SAMPLE[..32]),
        Err(DecodeError { kind: DecodeErrorKind::Truncated(0x33), index: 6, offset: 27 })
    );
}
