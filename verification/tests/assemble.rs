use dgrlin::decode::{DecodeError, DecodeErrorKind};
use dgrlin::opcode::ParseError;
use dgrlin::script::{assemble, byte_to_text, disassemble, AssembleError, Assembled, Disassembled};

fn lines(text: &[&str]) -> Vec<String> {
    text.iter().map(|line| line.to_string()).collect()
}

#[test]
fn assemble_passes_over_block_markers_and_blank_lines() {
    assert_eq!(
        assemble(&lines(&["{", "", "  ", "WaitFrame()", "}", "x", "\tWaitInput()\r\n"]), 0),
        Ok(Assembled {
            bytes: vec![0x70, 0x3B, 0x70, 0x3A],
            texts: vec![],
            unrecognized: vec![],
        })
    );
    assert_eq!(
        assemble(&vec![], 9),
        Ok(Assembled { bytes: vec![], texts: vec![], unrecognized: vec![] })
    );
}

#[test]
fn assemble_hands_out_text_identifiers_in_order() {
    let script = lines(&[
        "{",
        "Speaker(3)",
        "  Text(\"George\")  ",
        "WaitInput()",
        "Text(\"Hello, (world\")",
        "Text(\"\")",
        "}",
    ]);
    assert_eq!(
        assemble(&script[..4].to_vec(), 260),
        Ok(Assembled {
            bytes: vec![0x70, 0x21, 3, 0x70, 0x02, 0x01, 0x04, 0x70, 0x3A],
            texts: vec!["George".to_string()],
            unrecognized: vec![],
        })
    );
    assert_eq!(
        assemble(&script, 260),
        Ok(Assembled {
            bytes: vec![
                0x70, 0x21, 3, 0x70, 0x02, 0x01, 0x04, 0x70, 0x3A, 0x70, 0x02, 0x01, 0x05, 0x70,
                0x02, 0x01, 0x06
            ],
            texts: vec!["George".to_string(), "Hello, (world".to_string(), String::new()],
            unrecognized: vec![],
        })
    );
    assert_eq!(
        assemble(&script, 0xFFFE),
        Ok(Assembled {
            bytes: vec![
                0x70, 0x21, 3, 0x70, 0x02, 0xFF, 0xFE, 0x70, 0x3A, 0x70, 0x02, 0xFF, 0xFF, 0x70,
                0x02, 0x00, 0x00
            ],
            texts: vec!["George".to_string(), "Hello, (world".to_string(), String::new()],
            unrecognized: vec![],
        })
    );
}

#[test]
fn assemble_reports_the_names_it_does_not_know() {
    assert_eq!(
        assemble(
            &lines(&[
                "WaitFrame()",
                "Jimmys_Opcode()",
                "{",
                "What the heck si going on(1,| 2,, 3)",
                "Sound(1, 2, 3)",
            ]),
            0
        ),
        Ok(Assembled {
            bytes: vec![0x70, 0x3B, 0x70, 0xFE, 0x70, 0xFE, 1, 3, 0x70, 0x0A, 1, 2, 3],
            texts: vec![],
            unrecognized: vec![1, 3],
        })
    );
}

#[test]
fn assemble_fails_at_the_first_line_that_cannot_be_parsed() {
    assert_eq!(
        assemble(&lines(&["WaitFrame()", "{", "WaitFrame", "Text(George)"]), 0),
        Err(AssembleError { line: 2, error: ParseError::MissingParenthesis })
    );
    assert_eq!(
        assemble(&lines(&["Text(\"a\")", "Text(George)", "WaitFrame"]), 0),
        Err(AssembleError { line: 1, error: ParseError::MalformedText })
    );
}

#[test]
fn disassemble_writes_a_line_for_each_instruction() {
    let bytes = [
        0x70, 0x00, 0xBF, 0x01, 0x70, 0x35, 1, 2, 3, 4, 5, 0x70, 0x02, 0x01, 0x04, 0x70, 0x3B,
        0x00, 0x01,
    ];
    assert_eq!(
        disassemble(&bytes),
        Ok(Disassembled {
            lines: lines(&[
                "0x00(191, 1)",
                "CheckFlagA(1, 2, 3, 4, 5)",
                "Text(260)",
                "WaitFrame()"
            ]),
            trailing: 2,
        })
    );
    assert_eq!(
        byte_to_text(&bytes),
        Err(DecodeError { kind: DecodeErrorKind::FlagCheckLength(5), index: 1, offset: 4 })
    );
    assert_eq!(
        disassemble(&bytes[..3]),
        Err(DecodeError { kind: DecodeErrorKind::Truncated(0), index: 0, offset: 0 })
    );
    assert_eq!(disassemble(&[]), Ok(Disassembled { lines: vec![], trailing: 0 }));
}

#[test]
fn disassembled_lines_assemble_to_the_same_bytes() {
    let bytes = [
        0x70, 0x00, 0xBF, 0x01, 0x70, 0x35, 1, 2, 3, 4, 5, 0x70, 0x06, 0x70, 0x70, 0, 255, 9, 10,
        99, 100, 0x70, 0x35, 0x70, 0x3B, 0x70, 0x1A, 0x6F,
    ];
    let listing = disassemble(&bytes).unwrap();
    assert_eq!(listing.lines.len(), 6);
    assert_eq!(listing.trailing, 1);
    assert_eq!(
        assemble(&listing.lines, 40),
        Ok(Assembled {
            bytes: bytes[..bytes.len() - 1].to_vec(),
            texts: vec![],
            unrecognized: vec![],
        })
    );
}

#[test]
fn line_of_a_decoded_text_is_no_text_line() {
    let listing = disassemble(&[0x70, 0x02, 0x01, 0x04]).unwrap();
    assert_eq!(listing.lines, lines(&["Text(260)"]));
    assert_eq!(
        assemble(&listing.lines, 0),
        Err(AssembleError { line: 0, error: ParseError::MalformedText })
    );
}
