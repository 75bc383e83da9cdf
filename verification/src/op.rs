//! The instruction as a typed variant: one variant for each code that the
//! decoder reads, with one field for each argument byte. The flag check, whose
//! argument count is not fixed on the wire, has a variant for each of the
//! three counts that the typed form admits.
use crate::chars::{bytes_of, chars_of, decimal, parse_bytes, push_decimal};
use crate::opcode::{
    call_inner, call_name, format_spec, instruction, is_name, lemma_bytes_of_list,
    lemma_format_splits, lemma_instruction, split_call, Instruction, Opcode,
};
use crate::table::{
    arity_of, code_of, code_of_chars, code_to_name, lemma_code_of_name, lemma_name_chars, name_for,
    name_of, Arity, MARKER, TEXT,
};
use vstd::prelude::*;
use vstd::slice::*;
use vstd::string::*;

verus! {

/// One instruction, with its arguments by position.
#[allow(non_camel_case_types)]
#[derive(Clone, Copy, PartialEq, Eq, Debug)]
pub enum Op {
    /// Code `0x00`, of unknown purpose.
    Zero {
        arg1: u8,
        arg2: u8,
    },
    ScreenFade {
        arg1: u8,
        arg2: u8,
        arg3: u8,
    },
    ChangeUi {
        arg1: u8,
        arg2: u8,
    },
    /// Code `0x33`, of unknown purpose.
    ThreeThree {
        arg1: u8,
        arg2: u8,
        arg3: u8,
        arg4: u8,
    },
    SetFlag {
        arg1: u8,
        arg2: u8,
        arg3: u8,
    },
    /// `arg1` is the map.
    LoadMap {
        arg1: u8,
        arg2: u8,
        arg3: u8,
    },
    Sprite {
        arg1: u8,
        arg2: u8,
        arg3: u8,
        arg4: u8,
        arg5: u8,
    },
    Music {
        arg1: u8,
        arg2: u8,
        arg3: u8,
    },
    ShowBackground {
        arg1: u8,
        arg2: u8,
        arg3: u8,
    },
    /// `arg1` is the speaker.
    Speaker {
        arg1: u8,
    },
    TextBoxFormat {
        arg1: u8,
    },
    /// The two bytes are the text-table identifier, the high byte first.
    Text {
        arg1: u8,
        arg2: u8,
    },
    WaitFrame,
    WaitInput,
    Sound {
        arg1: u8,
        arg2: u8,
        arg3: u8,
    },
    ScreenFlash {
        arg1: u8,
        arg2: u8,
        arg3: u8,
        arg4: u8,
        arg5: u8,
        arg6: u8,
        arg7: u8,
    },
    Animation {
        arg1: u8,
        arg2: u8,
        arg3: u8,
        arg4: u8,
        arg5: u8,
        arg6: u8,
        arg7: u8,
        arg8: u8,
    },
    Voice {
        arg1: u8,
        arg2: u8,
        arg3: u8,
        arg4: u8,
        arg5: u8,
    },
    SpriteFlash {
        arg1: u8,
        arg2: u8,
        arg3: u8,
        arg4: u8,
        arg5: u8,
    },
    GoToLabel {
        arg1: u8,
        arg2: u8,
    },
    CheckCharacter {
        arg1: u8,
    },
    CheckObject {
        arg1: u8,
    },
    /// A flag check with four argument bytes.
    CheckFlagA4 {
        arg1: u8,
        arg2: u8,
        arg3: u8,
        arg4: u8,
    },
    /// A flag check with twenty-four argument bytes.
    CheckFlagA24 {
        arg1: u8,
        arg2: u8,
        arg3: u8,
        arg4: u8,
        arg5: u8,
        arg6: u8,
        arg7: u8,
        arg8: u8,
        arg9: u8,
        arg10: u8,
        arg11: u8,
        arg12: u8,
        arg13: u8,
        arg14: u8,
        arg15: u8,
        arg16: u8,
        arg17: u8,
        arg18: u8,
        arg19: u8,
        arg20: u8,
        arg21: u8,
        arg22: u8,
        arg23: u8,
        arg24: u8,
    },
    /// A flag check with nineteen argument bytes.
    CheckFlagA19 {
        arg1: u8,
        arg2: u8,
        arg3: u8,
        arg4: u8,
        arg5: u8,
        arg6: u8,
        arg7: u8,
        arg8: u8,
        arg9: u8,
        arg10: u8,
        arg11: u8,
        arg12: u8,
        arg13: u8,
        arg14: u8,
        arg15: u8,
        arg16: u8,
        arg17: u8,
        arg18: u8,
        arg19: u8,
    },
    If_FlagCheck,
    SetLabel {
        arg1: u8,
        arg2: u8,
    },
    SetChoiceText {
        arg1: u8,
    },
    LoadScript {
        arg1: u8,
        arg2: u8,
        arg3: u8,
    },
    StopScript,
}

/// Why a code and its arguments, or a line of text, give no [`Op`].
#[derive(Clone, Copy, PartialEq, Eq, Debug)]
pub enum OpError {
    /// The line holds no `(`.
    MissingParenthesis,
    /// The name is not in the table, or its code has no typed form.
    InvalidOpcode,
    /// The instruction takes `expected` arguments, and only `found` are there.
    MissingArguments { expected: usize, found: usize },
    /// A flag check has this many arguments, and not 4, 19 or 24.
    FlagCheckLength(usize),
}

impl OpError {
    /// The message of the failure.
    pub open spec fn spec_message(self) -> Seq<char> {
        match self {
            OpError::MissingParenthesis => "Missing parenthesis"@,
            OpError::InvalidOpcode => "Invalid Opcode"@,
            OpError::MissingArguments { expected, found } => "Missing arguments: expected "@
                + decimal(expected as nat) + ", found "@ + decimal(found as nat),
            OpError::FlagCheckLength(count) => "Invalid CheckFlagA Length: "@ + decimal(
                count as nat,
            ),
        }
    }

    /// The message of the failure.
    pub fn message(&self) -> (message: String)
        ensures
            message@ == self.spec_message(),
    {
        match self {
            OpError::MissingParenthesis => String::from_str("Missing parenthesis"),
            OpError::InvalidOpcode => String::from_str("Invalid Opcode"),
            OpError::MissingArguments { expected, found } => {
                let mut message = String::from_str("Missing arguments: expected ");
                push_decimal(&mut message, *expected as u64);
                message.append(", found ");
                push_decimal(&mut message, *found as u64);
                message
            },
            OpError::FlagCheckLength(count) => {
                let mut message = String::from_str("Invalid CheckFlagA Length: ");
                push_decimal(&mut message, *count as u64);
                message
            },
        }
    }
}

/// The instruction with the first `expected` of `args`, if there are as many.
pub open spec fn with_arguments(op: Op, expected: nat, args: Seq<u8>) -> Result<Op, OpError> {
    if args.len() < expected {
        Err(OpError::MissingArguments { expected: expected as usize, found: args.len() as usize })
    } else {
        Ok(op)
    }
}

/// The typed form of a code and its arguments. An instruction of fixed
/// argument count takes the arguments it needs and leaves what follows them
/// aside; a flag check takes all of them, and has to have 4, 19 or 24.
pub open spec fn typed(code: u8, args: Seq<u8>) -> Result<Op, OpError> {
    match code {
        0x00 => with_arguments(Op::Zero { arg1: args[0], arg2: args[1] }, 2, args),
        0x02 => with_arguments(Op::Text { arg1: args[0], arg2: args[1] }, 2, args),
        0x03 => with_arguments(Op::TextBoxFormat { arg1: args[0] }, 1, args),
        0x06 => with_arguments(
            Op::Animation {
                arg1: args[0], arg2: args[1], arg3: args[2], arg4: args[3], arg5: args[4],
                arg6: args[5], arg7: args[6], arg8: args[7],
            },
            8,
            args,
        ),
        0x08 => with_arguments(
            Op::Voice { arg1: args[0], arg2: args[1], arg3: args[2], arg4: args[3], arg5: args[4] },
            5,
            args,
        ),
        0x09 => with_arguments(Op::Music { arg1: args[0], arg2: args[1], arg3: args[2] }, 3, args),
        0x0A => with_arguments(Op::Sound { arg1: args[0], arg2: args[1], arg3: args[2] }, 3, args),
        0x15 => with_arguments(
            Op::LoadMap { arg1: args[0], arg2: args[1], arg3: args[2] },
            3,
            args,
        ),
        0x19 => with_arguments(
            Op::LoadScript { arg1: args[0], arg2: args[1], arg3: args[2] },
            3,
            args,
        ),
        0x1A => with_arguments(Op::StopScript, 0, args),
        0x1E => with_arguments(
            Op::Sprite {
                arg1: args[0], arg2: args[1], arg3: args[2], arg4: args[3], arg5: args[4],
            },
            5,
            args,
        ),
        0x1F => with_arguments(
            Op::ScreenFlash {
                arg1: args[0], arg2: args[1], arg3: args[2], arg4: args[3], arg5: args[4],
                arg6: args[5], arg7: args[6],
            },
            7,
            args,
        ),
        0x20 => with_arguments(
            Op::SpriteFlash {
                arg1: args[0], arg2: args[1], arg3: args[2], arg4: args[3], arg5: args[4],
            },
            5,
            args,
        ),
        0x21 => with_arguments(Op::Speaker { arg1: args[0] }, 1, args),
        0x22 => with_arguments(
            Op::ScreenFade { arg1: args[0], arg2: args[1], arg3: args[2] },
            3,
            args,
        ),
        0x25 => with_arguments(Op::ChangeUi { arg1: args[0], arg2: args[1] }, 2, args),
        0x26 => with_arguments(
            Op::SetFlag { arg1: args[0], arg2: args[1], arg3: args[2] },
            3,
            args,
        ),
        0x27 => with_arguments(Op::CheckCharacter { arg1: args[0] }, 1, args),
        0x29 => with_arguments(Op::CheckObject { arg1: args[0] }, 1, args),
        0x2A => with_arguments(Op::SetLabel { arg1: args[0], arg2: args[1] }, 2, args),
        0x2B => with_arguments(Op::SetChoiceText { arg1: args[0] }, 1, args),
        0x30 => with_arguments(
            Op::ShowBackground { arg1: args[0], arg2: args[1], arg3: args[2] },
            3,
            args,
        ),
        0x33 => with_arguments(
            Op::ThreeThree { arg1: args[0], arg2: args[1], arg3: args[2], arg4: args[3] },
            4,
            args,
        ),
        0x34 => with_arguments(Op::GoToLabel { arg1: args[0], arg2: args[1] }, 2, args),
        0x35 => if args.len() == 4 {
            Ok(Op::CheckFlagA4 { arg1: args[0], arg2: args[1], arg3: args[2], arg4: args[3] })
        } else if args.len() == 19 {
            Ok(
                Op::CheckFlagA19 {
                    arg1: args[0], arg2: args[1], arg3: args[2], arg4: args[3], arg5: args[4],
                    arg6: args[5], arg7: args[6], arg8: args[7], arg9: args[8], arg10: args[9],
                    arg11: args[10], arg12: args[11], arg13: args[12], arg14: args[13],
                    arg15: args[14], arg16: args[15], arg17: args[16], arg18: args[17],
                    arg19: args[18],
                },
            )
        } else if args.len() == 24 {
            Ok(
                Op::CheckFlagA24 {
                    arg1: args[0], arg2: args[1], arg3: args[2], arg4: args[3], arg5: args[4],
                    arg6: args[5], arg7: args[6], arg8: args[7], arg9: args[8], arg10: args[9],
                    arg11: args[10], arg12: args[11], arg13: args[12], arg14: args[13],
                    arg15: args[14], arg16: args[15], arg17: args[16], arg18: args[17],
                    arg19: args[18], arg20: args[19], arg21: args[20], arg22: args[21],
                    arg23: args[22], arg24: args[23],
                },
            )
        } else {
            Err(OpError::FlagCheckLength(args.len() as usize))
        },
        0x3A => with_arguments(Op::WaitInput, 0, args),
        0x3B => with_arguments(Op::WaitFrame, 0, args),
        0x3C => with_arguments(Op::If_FlagCheck, 0, args),
        _ => Err(OpError::InvalidOpcode),
    }
}

/// What [`Op::try_from`] returns for a line: the typed form of the code that
/// the table gives the line's name, with the bytes that the list between the
/// parentheses writes.
pub open spec fn parse_op_spec(line: Seq<char>) -> Result<Op, OpError> {
    if !line.contains('(') {
        Err(OpError::MissingParenthesis)
    } else {
        match code_of(call_name(line)) {
            Some(code) => typed(code, bytes_of(call_inner(line))),
            None => Err(OpError::InvalidOpcode),
        }
    }
}

impl Op {
    /// The code byte.
    pub open spec fn code(self) -> u8 {
        match self {
            Op::Zero { .. } => 0x00,
            Op::ScreenFade { .. } => 0x22,
            Op::ChangeUi { .. } => 0x25,
            Op::ThreeThree { .. } => 0x33,
            Op::SetFlag { .. } => 0x26,
            Op::LoadMap { .. } => 0x15,
            Op::Sprite { .. } => 0x1E,
            Op::Music { .. } => 0x09,
            Op::ShowBackground { .. } => 0x30,
            Op::Speaker { .. } => 0x21,
            Op::TextBoxFormat { .. } => 0x03,
            Op::Text { .. } => 0x02,
            Op::WaitFrame => 0x3B,
            Op::WaitInput => 0x3A,
            Op::Sound { .. } => 0x0A,
            Op::ScreenFlash { .. } => 0x1F,
            Op::Animation { .. } => 0x06,
            Op::Voice { .. } => 0x08,
            Op::SpriteFlash { .. } => 0x20,
            Op::GoToLabel { .. } => 0x34,
            Op::CheckCharacter { .. } => 0x27,
            Op::CheckObject { .. } => 0x29,
            Op::CheckFlagA4 { .. } => 0x35,
            Op::CheckFlagA24 { .. } => 0x35,
            Op::CheckFlagA19 { .. } => 0x35,
            Op::If_FlagCheck => 0x3C,
            Op::SetLabel { .. } => 0x2A,
            Op::SetChoiceText { .. } => 0x2B,
            Op::LoadScript { .. } => 0x19,
            Op::StopScript => 0x1A,
        }
    }

    /// The argument bytes, in order.
    pub open spec fn args(self) -> Seq<u8> {
        match self {
            Op::Zero { arg1, arg2 } => seq![arg1, arg2],
            Op::ScreenFade { arg1, arg2, arg3 } => seq![arg1, arg2, arg3],
            Op::ChangeUi { arg1, arg2 } => seq![arg1, arg2],
            Op::ThreeThree { arg1, arg2, arg3, arg4 } => seq![arg1, arg2, arg3, arg4],
            Op::SetFlag { arg1, arg2, arg3 } => seq![arg1, arg2, arg3],
            Op::LoadMap { arg1, arg2, arg3 } => seq![arg1, arg2, arg3],
            Op::Sprite { arg1, arg2, arg3, arg4, arg5 } => seq![arg1, arg2, arg3, arg4, arg5],
            Op::Music { arg1, arg2, arg3 } => seq![arg1, arg2, arg3],
            Op::ShowBackground { arg1, arg2, arg3 } => seq![arg1, arg2, arg3],
            Op::Speaker { arg1 } => seq![arg1],
            Op::TextBoxFormat { arg1 } => seq![arg1],
            Op::Text { arg1, arg2 } => seq![arg1, arg2],
            Op::WaitFrame => seq![],
            Op::WaitInput => seq![],
            Op::Sound { arg1, arg2, arg3 } => seq![arg1, arg2, arg3],
            Op::ScreenFlash {
                arg1, arg2, arg3, arg4, arg5, arg6, arg7,
            } => seq![
                arg1, arg2, arg3, arg4, arg5, arg6, arg7,
            ],
            Op::Animation {
                arg1, arg2, arg3, arg4, arg5, arg6, arg7, arg8,
            } => seq![
                arg1, arg2, arg3, arg4, arg5, arg6, arg7, arg8,
            ],
            Op::Voice { arg1, arg2, arg3, arg4, arg5 } => seq![arg1, arg2, arg3, arg4, arg5],
            Op::SpriteFlash { arg1, arg2, arg3, arg4, arg5 } => seq![arg1, arg2, arg3, arg4, arg5],
            Op::GoToLabel { arg1, arg2 } => seq![arg1, arg2],
            Op::CheckCharacter { arg1 } => seq![arg1],
            Op::CheckObject { arg1 } => seq![arg1],
            Op::CheckFlagA4 { arg1, arg2, arg3, arg4 } => seq![arg1, arg2, arg3, arg4],
            Op::CheckFlagA24 {
                arg1, arg2, arg3, arg4, arg5, arg6, arg7, arg8, arg9, arg10, arg11, arg12, arg13,
                arg14, arg15, arg16, arg17, arg18, arg19, arg20, arg21, arg22, arg23, arg24,
            } => seq![
                arg1, arg2, arg3, arg4, arg5, arg6, arg7, arg8, arg9, arg10, arg11, arg12, arg13,
                arg14, arg15, arg16, arg17, arg18, arg19, arg20, arg21, arg22, arg23, arg24,
            ],
            Op::CheckFlagA19 {
                arg1, arg2, arg3, arg4, arg5, arg6, arg7, arg8, arg9, arg10, arg11, arg12, arg13,
                arg14, arg15, arg16, arg17, arg18, arg19,
            } => seq![
                arg1, arg2, arg3, arg4, arg5, arg6, arg7, arg8, arg9, arg10, arg11, arg12, arg13,
                arg14, arg15, arg16, arg17, arg18, arg19,
            ],
            Op::If_FlagCheck => seq![],
            Op::SetLabel { arg1, arg2 } => seq![arg1, arg2],
            Op::SetChoiceText { arg1 } => seq![arg1],
            Op::LoadScript { arg1, arg2, arg3 } => seq![arg1, arg2, arg3],
            Op::StopScript => seq![],
        }
    }

    /// The wire form: the marker byte, the code, then the argument bytes.
    pub open spec fn wire(self) -> Seq<u8> {
        seq![MARKER, self.code()] + self.args()
    }

    /// The same instruction as name and wire bytes.
    pub open spec fn instruction(self) -> Instruction {
        instruction(name_for(self.code()), self.code(), self.args())
    }

    /// The line of the instruction. A `Text` shows the text-table identifier
    /// that its two bytes write, the high byte first.
    pub open spec fn line(self) -> Seq<char> {
        format_spec(self.instruction())
    }

    /// The binary encoder: the bytes of the instruction on the wire.
    pub fn to_hex(&self) -> (bytes: Vec<u8>)
        ensures
            bytes@ == self.wire(),
    {
        let bytes = match self {
            Op::Zero { arg1, arg2 } => vec![112u8, 0u8, *arg1, *arg2],
            Op::Text { arg1, arg2 } => vec![112u8, 2u8, *arg1, *arg2],
            Op::TextBoxFormat { arg1 } => vec![112u8, 3u8, *arg1],
            Op::Animation {
                arg1, arg2, arg3, arg4, arg5, arg6, arg7, arg8,
            } => vec![
                112u8, 6u8, *arg1, *arg2, *arg3, *arg4, *arg5, *arg6, *arg7, *arg8,
            ],
            Op::Voice {
                arg1, arg2, arg3, arg4, arg5,
            } => vec![
                112u8, 8u8, *arg1, *arg2, *arg3, *arg4, *arg5,
            ],
            Op::Music { arg1, arg2, arg3 } => vec![112u8, 9u8, *arg1, *arg2, *arg3],
            Op::Sound { arg1, arg2, arg3 } => vec![112u8, 10u8, *arg1, *arg2, *arg3],
            Op::LoadMap { arg1, arg2, arg3 } => vec![112u8, 21u8, *arg1, *arg2, *arg3],
            Op::LoadScript { arg1, arg2, arg3 } => vec![112u8, 25u8, *arg1, *arg2, *arg3],
            Op::StopScript => vec![112u8, 26u8],
            Op::Sprite {
                arg1, arg2, arg3, arg4, arg5,
            } => vec![
                112u8, 30u8, *arg1, *arg2, *arg3, *arg4, *arg5,
            ],
            Op::ScreenFlash {
                arg1, arg2, arg3, arg4, arg5, arg6, arg7,
            } => vec![
                112u8, 31u8, *arg1, *arg2, *arg3, *arg4, *arg5, *arg6, *arg7,
            ],
            Op::SpriteFlash {
                arg1, arg2, arg3, arg4, arg5,
            } => vec![
                112u8, 32u8, *arg1, *arg2, *arg3, *arg4, *arg5,
            ],
            Op::Speaker { arg1 } => vec![112u8, 33u8, *arg1],
            Op::ScreenFade { arg1, arg2, arg3 } => vec![112u8, 34u8, *arg1, *arg2, *arg3],
            Op::ChangeUi { arg1, arg2 } => vec![112u8, 37u8, *arg1, *arg2],
            Op::SetFlag { arg1, arg2, arg3 } => vec![112u8, 38u8, *arg1, *arg2, *arg3],
            Op::CheckCharacter { arg1 } => vec![112u8, 39u8, *arg1],
            Op::CheckObject { arg1 } => vec![112u8, 41u8, *arg1],
            Op::SetLabel { arg1, arg2 } => vec![112u8, 42u8, *arg1, *arg2],
            Op::SetChoiceText { arg1 } => vec![112u8, 43u8, *arg1],
            Op::ShowBackground { arg1, arg2, arg3 } => vec![112u8, 48u8, *arg1, *arg2, *arg3],
            Op::ThreeThree {
                arg1, arg2, arg3, arg4,
            } => vec![
                112u8, 51u8, *arg1, *arg2, *arg3, *arg4,
            ],
            Op::GoToLabel { arg1, arg2 } => vec![112u8, 52u8, *arg1, *arg2],
            Op::CheckFlagA4 {
                arg1, arg2, arg3, arg4,
            } => vec![
                112u8, 53u8, *arg1, *arg2, *arg3, *arg4,
            ],
            Op::CheckFlagA24 {
                arg1, arg2, arg3, arg4, arg5, arg6, arg7, arg8, arg9, arg10, arg11, arg12, arg13,
                arg14, arg15, arg16, arg17, arg18, arg19, arg20, arg21, arg22, arg23, arg24,
            } => vec![
                112u8, 53u8, *arg1, *arg2, *arg3, *arg4, *arg5, *arg6, *arg7, *arg8, *arg9, *arg10,
                *arg11, *arg12, *arg13, *arg14, *arg15, *arg16, *arg17, *arg18, *arg19, *arg20,
                *arg21, *arg22, *arg23, *arg24,
            ],
            Op::CheckFlagA19 {
                arg1, arg2, arg3, arg4, arg5, arg6, arg7, arg8, arg9, arg10, arg11, arg12, arg13,
                arg14, arg15, arg16, arg17, arg18, arg19,
            } => vec![
                112u8, 53u8, *arg1, *arg2, *arg3, *arg4, *arg5, *arg6, *arg7, *arg8, *arg9, *arg10,
                *arg11, *arg12, *arg13, *arg14, *arg15, *arg16, *arg17, *arg18, *arg19,
            ],
            Op::WaitInput => vec![112u8, 58u8],
            Op::WaitFrame => vec![112u8, 59u8],
            Op::If_FlagCheck => vec![112u8, 60u8],
        };
        assert(bytes@ =~= self.wire());
        bytes
    }

    /// The typed form of a code and its arguments.
    pub fn from_code(code: u8, args: &[u8]) -> (op: Result<Op, OpError>)
        ensures
            op == typed(code, args@),
    {
        let found = args.len();
        match code {
            0x00 => if found < 2 {
                Err(OpError::MissingArguments { expected: 2, found })
            } else {
                Ok(Op::Zero { arg1: args[0], arg2: args[1] })
            },
            0x02 => if found < 2 {
                Err(OpError::MissingArguments { expected: 2, found })
            } else {
                Ok(Op::Text { arg1: args[0], arg2: args[1] })
            },
            0x03 => if found < 1 {
                Err(OpError::MissingArguments { expected: 1, found })
            } else {
                Ok(Op::TextBoxFormat { arg1: args[0] })
            },
            0x06 => if found < 8 {
                Err(OpError::MissingArguments { expected: 8, found })
            } else {
                Ok(
                    Op::Animation {
                        arg1: args[0], arg2: args[1], arg3: args[2], arg4: args[3], arg5: args[4],
                        arg6: args[5], arg7: args[6], arg8: args[7],
                    },
                )
            },
            0x08 => if found < 5 {
                Err(OpError::MissingArguments { expected: 5, found })
            } else {
                Ok(
                    Op::Voice {
                        arg1: args[0], arg2: args[1], arg3: args[2], arg4: args[3], arg5: args[4],
                    },
                )
            },
            0x09 => if found < 3 {
                Err(OpError::MissingArguments { expected: 3, found })
            } else {
                Ok(Op::Music { arg1: args[0], arg2: args[1], arg3: args[2] })
            },
            0x0A => if found < 3 {
                Err(OpError::MissingArguments { expected: 3, found })
            } else {
                Ok(Op::Sound { arg1: args[0], arg2: args[1], arg3: args[2] })
            },
            0x15 => if found < 3 {
                Err(OpError::MissingArguments { expected: 3, found })
            } else {
                Ok(Op::LoadMap { arg1: args[0], arg2: args[1], arg3: args[2] })
            },
            0x19 => if found < 3 {
                Err(OpError::MissingArguments { expected: 3, found })
            } else {
                Ok(Op::LoadScript { arg1: args[0], arg2: args[1], arg3: args[2] })
            },
            0x1A => Ok(Op::StopScript),
            0x1E => if found < 5 {
                Err(OpError::MissingArguments { expected: 5, found })
            } else {
                Ok(
                    Op::Sprite {
                        arg1: args[0], arg2: args[1], arg3: args[2], arg4: args[3], arg5: args[4],
                    },
                )
            },
            0x1F => if found < 7 {
                Err(OpError::MissingArguments { expected: 7, found })
            } else {
                Ok(
                    Op::ScreenFlash {
                        arg1: args[0], arg2: args[1], arg3: args[2], arg4: args[3], arg5: args[4],
                        arg6: args[5], arg7: args[6],
                    },
                )
            },
            0x20 => if found < 5 {
                Err(OpError::MissingArguments { expected: 5, found })
            } else {
                Ok(
                    Op::SpriteFlash {
                        arg1: args[0], arg2: args[1], arg3: args[2], arg4: args[3], arg5: args[4],
                    },
                )
            },
            0x21 => if found < 1 {
                Err(OpError::MissingArguments { expected: 1, found })
            } else {
                Ok(Op::Speaker { arg1: args[0] })
            },
            0x22 => if found < 3 {
                Err(OpError::MissingArguments { expected: 3, found })
            } else {
                Ok(Op::ScreenFade { arg1: args[0], arg2: args[1], arg3: args[2] })
            },
            0x25 => if found < 2 {
                Err(OpError::MissingArguments { expected: 2, found })
            } else {
                Ok(Op::ChangeUi { arg1: args[0], arg2: args[1] })
            },
            0x26 => if found < 3 {
                Err(OpError::MissingArguments { expected: 3, found })
            } else {
                Ok(Op::SetFlag { arg1: args[0], arg2: args[1], arg3: args[2] })
            },
            0x27 => if found < 1 {
                Err(OpError::MissingArguments { expected: 1, found })
            } else {
                Ok(Op::CheckCharacter { arg1: args[0] })
            },
            0x29 => if found < 1 {
                Err(OpError::MissingArguments { expected: 1, found })
            } else {
                Ok(Op::CheckObject { arg1: args[0] })
            },
            0x2A => if found < 2 {
                Err(OpError::MissingArguments { expected: 2, found })
            } else {
                Ok(Op::SetLabel { arg1: args[0], arg2: args[1] })
            },
            0x2B => if found < 1 {
                Err(OpError::MissingArguments { expected: 1, found })
            } else {
                Ok(Op::SetChoiceText { arg1: args[0] })
            },
            0x30 => if found < 3 {
                Err(OpError::MissingArguments { expected: 3, found })
            } else {
                Ok(Op::ShowBackground { arg1: args[0], arg2: args[1], arg3: args[2] })
            },
            0x33 => if found < 4 {
                Err(OpError::MissingArguments { expected: 4, found })
            } else {
                Ok(Op::ThreeThree { arg1: args[0], arg2: args[1], arg3: args[2], arg4: args[3] })
            },
            0x34 => if found < 2 {
                Err(OpError::MissingArguments { expected: 2, found })
            } else {
                Ok(Op::GoToLabel { arg1: args[0], arg2: args[1] })
            },
            0x35 => if found == 4 {
                Ok(Op::CheckFlagA4 { arg1: args[0], arg2: args[1], arg3: args[2], arg4: args[3] })
            } else if found == 19 {
                Ok(
                    Op::CheckFlagA19 {
                        arg1: args[0], arg2: args[1], arg3: args[2], arg4: args[3], arg5: args[4],
                        arg6: args[5], arg7: args[6], arg8: args[7], arg9: args[8], arg10: args[9],
                        arg11: args[10], arg12: args[11], arg13: args[12], arg14: args[13],
                        arg15: args[14], arg16: args[15], arg17: args[16], arg18: args[17],
                        arg19: args[18],
                    },
                )
            } else if found == 24 {
                Ok(
                    Op::CheckFlagA24 {
                        arg1: args[0], arg2: args[1], arg3: args[2], arg4: args[3], arg5: args[4],
                        arg6: args[5], arg7: args[6], arg8: args[7], arg9: args[8], arg10: args[9],
                        arg11: args[10], arg12: args[11], arg13: args[12], arg14: args[13],
                        arg15: args[14], arg16: args[15], arg17: args[16], arg18: args[17],
                        arg19: args[18], arg20: args[19], arg21: args[20], arg22: args[21],
                        arg23: args[22], arg24: args[23],
                    },
                )
            } else {
                Err(OpError::FlagCheckLength(found))
            },
            0x3A => Ok(Op::WaitInput),
            0x3B => Ok(Op::WaitFrame),
            0x3C => Ok(Op::If_FlagCheck),
            _ => Err(OpError::InvalidOpcode),
        }
    }

    /// The typed form of an instruction. Its name plays no part: the code
    /// decides.
    pub fn from_opcode(op: &Opcode) -> (typed_op: Result<Op, OpError>)
        requires
            op.wf(),
        ensures
            typed_op == typed(op@.code(), op@.args()),
    {
        Op::from_code(op.code(), op.args())
    }

    /// The same instruction as name and wire bytes, under the name that the
    /// table gives its code.
    pub fn to_opcode(&self) -> (op: Opcode)
        ensures
            op@ == self.instruction(),
            op.wf(),
    {
        let bytes = self.to_hex();
        let op = Opcode { name: code_to_name(bytes[1]), hexcode: bytes, text_id: None };
        assert(op@.hexcode =~= self.instruction().hexcode);
        op
    }

    /// The text formatter: the line of the instruction, `Name(arg, arg)`. A
    /// `Text` is written with its text-table identifier, which is no list of
    /// bytes: [`Op::try_from`] does not read that line back.
    pub fn to_string(&self) -> (line: String)
        ensures
            line@ == self.line(),
    {
        self.to_opcode().to_string()
    }

    /// The text parser: the instruction that a line writes.
    ///
    /// The name is what stands before the first `(`, as it is: the line is
    /// not trimmed. An argument that is no byte is dropped.
    pub fn try_from(value: String) -> (op: Result<Op, OpError>)
        ensures
            op == parse_op_spec(value@),
    {
        let chars = chars_of(value.as_str());
        let text = chars.as_slice();
        match split_call(text) {
            None => Err(OpError::MissingParenthesis),
            Some((open, end)) => {
                match code_of_chars(slice_subrange(text, 0, open)) {
                    None => Err(OpError::InvalidOpcode),
                    Some(code) => {
                        let args = parse_bytes(slice_subrange(text, open + 1, end));
                        Op::from_code(code, args.as_slice())
                    },
                }
            },
        }
    }
}

/// The typed form of an instruction's own code and arguments is the
/// instruction.
pub proof fn lemma_typed_of_op(op: Op)
    ensures
        typed(op.code(), op.args()) == Ok::<Op, OpError>(op),
{
}

/// With as many arguments as the table gives the code, the typed form holds
/// all of them: its wire form is the marker byte, the code and the arguments.
pub proof fn lemma_typed_exact(code: u8, args: Seq<u8>)
    requires
        typed(code, args) is Ok,
        arity_of(code) matches Some(Arity::Fixed(count)) ==> args.len() == count,
    ensures
        typed(code, args).unwrap().code() == code,
        typed(code, args).unwrap().args() == args,
        typed(code, args).unwrap().wire() == seq![MARKER, code] + args,
        typed(code, args).unwrap().instruction() == instruction(name_for(code), code, args),
{
    let op = typed(code, args).unwrap();
    assert(op.args() =~= args);
}

/// An instruction of fixed argument count has a typed form wherever it has
/// its arguments: of the instructions that the decoder reads, only a flag
/// check can be without one.
pub proof fn lemma_typed_is_ok(code: u8, args: Seq<u8>)
    requires
        arity_of(code) matches Some(Arity::Fixed(count)) && args.len() >= count,
    ensures
        typed(code, args) is Ok,
{
}

/// Every typed instruction has a code that the decoder reads, with the
/// argument count that the table gives the code; a flag check has 4, 19 or
/// 24 arguments.
pub proof fn lemma_op_arity(op: Op)
    ensures
        name_of(op.code()) is Some,
        match arity_of(op.code()) {
            Some(Arity::Fixed(count)) => op.args().len() == count,
            Some(Arity::Variable) => op.args().len() == 4 || op.args().len() == 19
                || op.args().len() == 24,
            None => false,
        },
{
}

/// The text round trip, in typed form: the line of an instruction other
/// than `Text` parses to that instruction. (The line of a `Text` shows one
/// number, the text-table identifier, where the parser asks for two bytes.)
pub proof fn lemma_parse_op_line(op: Op)
    requires
        !(op is Text),
    ensures
        parse_op_spec(op.line()) == Ok::<Op, OpError>(op),
{
    let i = op.instruction();
    lemma_op_arity(op);
    lemma_name_chars(op.code());
    lemma_code_of_name(op.code());
    lemma_code_of_name(TEXT);
    lemma_instruction(name_for(op.code()), op.code(), op.args());
    assert(is_name(i.name));
    assert(i.name != "Text"@);
    lemma_format_splits(i);
    lemma_bytes_of_list(op.args());
    lemma_typed_of_op(op);
}

} // verus!
