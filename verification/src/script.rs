//! Whole scripts: from the lines of a text file to the bytes of a binary one,
//! and back. Reading and writing the files is left to the caller.
//!
//! There are two pairs. [`text_to_byte`] and [`byte_to_text`] go through the
//! typed form: every line has to be an instruction with a typed form, and a
//! flag check has 4, 19 or 24 arguments. [`assemble`] and [`disassemble`] go
//! through the text parser and the decoder: block markers and blank lines
//! are passed over, a `Text` line hands its dialogue out, a name that the
//! table does not hold is encoded under the sentinel and reported, and a
//! flag check has any number of arguments.
use crate::chars::{trim, trimmed};
use crate::decode::{
    decode, decode_ops, decode_ops_spec, decode_spec, is_decodable, lemma_decode_ops_agrees,
    lemma_encode_decode, wire_of, wire_of_ops, DecodeError,
};
use crate::op::{lemma_parse_op_line, parse_op_spec, Op, OpError};
use crate::opcode::{
    format_spec, is_name, lemma_parse_format, lemma_trim_formatted, parse_spec, Instruction,
    Opcode, ParseError, Parsed, ParsedModel,
};
use crate::table::{lemma_code_of_name, lemma_name_chars, lemma_reserved_codes, SENTINEL, TEXT};
use vstd::prelude::*;

verus! {

/// A line of a script that is no instruction.
#[derive(Clone, Copy, PartialEq, Eq, Debug)]
pub struct LineError {
    /// How many lines come before the offending one.
    pub line: usize,
    /// What is wrong with it.
    pub error: OpError,
}

/// The characters of each line.
pub open spec fn texts(lines: Seq<String>) -> Seq<Seq<char>> {
    lines.map_values(|line: String| line@)
}

/// Puts `before` in front of the bytes of a result.
pub open spec fn after_bytes(before: Seq<u8>, rest: Result<Seq<u8>, LineError>) -> Result<
    Seq<u8>,
    LineError,
> {
    match rest {
        Ok(bytes) => Ok(before + bytes),
        Err(e) => Err(e),
    }
}

/// The bytes of the lines from `from` on.
pub open spec fn text_to_byte_from(lines: Seq<Seq<char>>, from: nat) -> Result<Seq<u8>, LineError>
    decreases lines.len() - from,
{
    if from >= lines.len() {
        Ok(seq![])
    } else {
        match parse_op_spec(lines[from as int]) {
            Ok(op) => after_bytes(op.wire(), text_to_byte_from(lines, from + 1)),
            Err(error) => Err(LineError { line: from as usize, error }),
        }
    }
}

/// What [`text_to_byte`] returns: the wire forms of the instructions that
/// the lines write, one after the other, or the first line that writes none.
pub open spec fn text_to_byte_spec(lines: Seq<Seq<char>>) -> Result<Seq<u8>, LineError> {
    text_to_byte_from(lines, 0)
}

/// What [`byte_to_text`] returns: the line of each instruction that the
/// strict decoder reads.
pub open spec fn byte_to_text_spec(bytes: Seq<u8>) -> Result<Seq<Seq<char>>, DecodeError> {
    match decode_ops_spec(bytes) {
        Ok(script) => Ok(script.ops.map_values(|op: Op| op.line())),
        Err(e) => Err(e),
    }
}

/// Assembles a script through the typed form: every line is parsed as a
/// typed instruction, and the wire forms are put one after the other.
pub fn text_to_byte(lines: &Vec<String>) -> (bytes: Result<Vec<u8>, LineError>)
    ensures
        match bytes {
            Ok(b) => text_to_byte_spec(texts(lines@)) == Ok::<Seq<u8>, LineError>(b@),
            Err(e) => text_to_byte_spec(texts(lines@)) == Err::<Seq<u8>, LineError>(e),
        },
{
    let mut bytes: Vec<u8> = Vec::new();
    let mut i: usize = 0;
    while i < lines.len()
        invariant
            i <= lines.len(),
            text_to_byte_spec(texts(lines@)) == after_bytes(
                bytes@,
                text_to_byte_from(texts(lines@), i as nat),
            ),
        decreases lines.len() - i,
    {
        let ghost before = bytes@;
        assert(texts(lines@)[i as int] == lines@[i as int]@);
        match Op::try_from(lines[i].clone()) {
            Ok(op) => {
                let mut wire = op.to_hex();
                bytes.append(&mut wire);
                proof {
                    match text_to_byte_from(texts(lines@), (i + 1) as nat) {
                        Ok(rest) => {
                            assert((before + op.wire()) + rest =~= before + (op.wire() + rest));
                        },
                        Err(_) => {},
                    }
                }
            },
            Err(error) => {
                return Err(LineError { line: i, error });
            },
        }
        i += 1;
    }
    assert(bytes@ + Seq::<u8>::empty() =~= bytes@);
    Ok(bytes)
}

/// Disassembles a script through the typed form: the bytes are decoded by
/// the strict decoder, and each instruction is written as its line. The
/// bytes that are left after the last instruction are not shown.
pub fn byte_to_text(bytes: &[u8]) -> (lines: Result<Vec<String>, DecodeError>)
    ensures
        match lines {
            Ok(l) => byte_to_text_spec(bytes@) == Ok::<Seq<Seq<char>>, DecodeError>(texts(l@)),
            Err(e) => byte_to_text_spec(bytes@) == Err::<Seq<Seq<char>>, DecodeError>(e),
        },
{
    let decoded = match decode_ops(bytes) {
        Ok(decoded) => decoded,
        Err(e) => {
            return Err(e);
        },
    };
    let ops = decoded.ops;
    let mut lines: Vec<String> = Vec::new();
    let mut i: usize = 0;
    while i < ops.len()
        invariant
            i <= ops.len(),
            lines.len() == i,
            forall|k: int| 0 <= k < i ==> (#[trigger] lines@[k])@ == ops@[k].line(),
        decreases ops.len() - i,
    {
        lines.push(ops[i].to_string());
        i += 1;
    }
    assert(texts(lines@) =~= ops@.map_values(|op: Op| op.line()));
    Ok(lines)
}

/// The lines of some instructions other than `Text`, from `from` on,
/// assemble to the wire forms of those instructions.
proof fn lemma_text_to_byte_from_lines(ops: Seq<Op>, from: nat)
    requires
        from <= ops.len(),
        forall|k: int| 0 <= k < ops.len() ==> !(#[trigger] ops[k] is Text),
    ensures
        text_to_byte_from(ops.map_values(|op: Op| op.line()), from) == Ok::<Seq<u8>, LineError>(
            wire_of_ops(ops.skip(from as int)),
        ),
    decreases ops.len() - from,
{
    let lines = ops.map_values(|op: Op| op.line());
    let rest = ops.skip(from as int);
    if from < ops.len() {
        lemma_parse_op_line(ops[from as int]);
        lemma_text_to_byte_from_lines(ops, from + 1);
        assert(rest.drop_first() =~= ops.skip(from as int + 1));
        assert(rest[0] == ops[from as int]);
    }
}

/// The lines of some instructions other than `Text` assemble to the wire
/// forms of those instructions, one after the other.
pub proof fn lemma_text_to_byte_lines(ops: Seq<Op>)
    requires
        forall|k: int| 0 <= k < ops.len() ==> !(#[trigger] ops[k] is Text),
    ensures
        text_to_byte_spec(ops.map_values(|op: Op| op.line())) == Ok::<Seq<u8>, LineError>(
            wire_of_ops(ops),
        ),
{
    lemma_text_to_byte_from_lines(ops, 0);
    assert(ops.skip(0) =~= ops);
}

/// What [`byte_to_text`] writes, [`text_to_byte`] reads back, for a script
/// without `Text` instructions: the lines assemble to the bytes that they
/// were decoded from, which are the input without what is left after its
/// last instruction. (The line of a `Text` instruction shows its text-table
/// identifier, which is no list of bytes.)
pub proof fn lemma_text_to_byte_of_byte_to_text(bytes: Seq<u8>)
    requires
        byte_to_text_spec(bytes) is Ok,
        forall|k: int|
            0 <= k < decode_ops_spec(bytes).unwrap().ops.len() ==> !(
            #[trigger] decode_ops_spec(bytes).unwrap().ops[k] is Text),
    ensures
        decode_ops_spec(bytes) is Ok,
        decode_ops_spec(bytes).unwrap().trailing <= bytes.len(),
        text_to_byte_spec(byte_to_text_spec(bytes).unwrap()) == Ok::<Seq<u8>, LineError>(
            bytes.take(bytes.len() - decode_ops_spec(bytes).unwrap().trailing),
        ),
{
    lemma_decode_ops_agrees(bytes);
    lemma_text_to_byte_lines(decode_ops_spec(bytes).unwrap().ops);
}

/// A line of a script that cannot be parsed.
#[derive(Clone, Copy, PartialEq, Eq, Debug)]
pub struct AssembleError {
    /// How many lines come before the offending one.
    pub line: usize,
    /// What is wrong with it.
    pub error: ParseError,
}

/// What the lines of a script assemble to.
#[derive(PartialEq, Eq, Debug)]
pub struct Assembled {
    /// The wire forms of the instructions, one after the other.
    pub bytes: Vec<u8>,
    /// The dialogues of the `Text` lines, in the order of the lines, for the
    /// text table: each stands under the identifier that its line took.
    pub texts: Vec<String>,
    /// The lines, by how many come before each, whose name the table does
    /// not hold: they are encoded under the sentinel, and need a second
    /// look.
    pub unrecognized: Vec<usize>,
}

/// What an [`Assembled`] holds, as mathematical values.
pub struct Assembly {
    pub bytes: Seq<u8>,
    pub texts: Seq<Seq<char>>,
    pub unrecognized: Seq<usize>,
}

impl View for Assembled {
    type V = Assembly;

    open spec fn view(&self) -> Assembly {
        Assembly {
            bytes: self.bytes@,
            texts: texts(self.texts@),
            unrecognized: self.unrecognized@,
        }
    }
}

/// The identifier of the `Text` line that `count` others come before: the
/// identifiers start at `first_id`, go up by one, and start again at zero
/// after 65535.
pub open spec fn text_id_at(first_id: u16, count: nat) -> u16 {
    ((first_id + count) % 0x1_0000) as u16
}

/// One assembly after the other.
pub open spec fn joined_assembly(a: Assembly, b: Assembly) -> Assembly {
    Assembly {
        bytes: a.bytes + b.bytes,
        texts: a.texts + b.texts,
        unrecognized: a.unrecognized + b.unrecognized,
    }
}

/// Puts `before` in front of what a result holds.
pub open spec fn after_assembly(before: Assembly, rest: Result<Assembly, AssembleError>) -> Result<
    Assembly,
    AssembleError,
> {
    match rest {
        Ok(a) => Ok(joined_assembly(before, a)),
        Err(e) => Err(e),
    }
}

/// What one parsed line adds to the assembly.
pub open spec fn assembly_of(parsed: ParsedModel, line: nat) -> Assembly {
    match parsed {
        ParsedModel::Skip => Assembly { bytes: seq![], texts: seq![], unrecognized: seq![] },
        ParsedModel::Instruction(i) => Assembly {
            bytes: i.hexcode,
            texts: seq![],
            unrecognized: if i.code() == SENTINEL {
                seq![line as usize]
            } else {
                seq![]
            },
        },
        ParsedModel::Text(i, text) => Assembly {
            bytes: i.hexcode,
            texts: seq![text],
            unrecognized: seq![],
        },
    }
}

/// Assembles the lines from `from` on, where `count` `Text` lines come
/// before.
pub open spec fn assemble_from(
    lines: Seq<Seq<char>>,
    from: nat,
    count: nat,
    first_id: u16,
) -> Result<Assembly, AssembleError>
    decreases lines.len() - from,
{
    if from >= lines.len() {
        Ok(Assembly { bytes: seq![], texts: seq![], unrecognized: seq![] })
    } else {
        match parse_spec(trim(lines[from as int]), text_id_at(first_id, count)) {
            Ok(parsed) => after_assembly(
                assembly_of(parsed, from),
                assemble_from(
                    lines,
                    from + 1,
                    if parsed is Text {
                        count + 1
                    } else {
                        count
                    },
                    first_id,
                ),
            ),
            Err(error) => Err(AssembleError { line: from as usize, error }),
        }
    }
}

/// What [`assemble`] returns: every line is trimmed and parsed; a line that
/// is passed over adds nothing, an instruction adds its wire form, and a
/// `Text` line takes the next identifier and adds its dialogue too. The
/// first line that cannot be parsed is the failure.
pub open spec fn assemble_spec(lines: Seq<Seq<char>>, first_id: u16) -> Result<
    Assembly,
    AssembleError,
> {
    assemble_from(lines, 0, 0, first_id)
}

/// The identifier after the one of the `Text` line that `count` others
/// come before.
proof fn lemma_next_text_id(first_id: u16, count: nat)
    ensures
        text_id_at(first_id, count + 1) == (if text_id_at(first_id, count) == 0xFFFF {
            0u16
        } else {
            (text_id_at(first_id, count) + 1) as u16
        }),
{
}

/// Assembling from a line that parses is assembling from the next line,
/// after what the line adds.
proof fn lemma_assemble_step(
    lines: Seq<Seq<char>>,
    from: nat,
    count: nat,
    first_id: u16,
    before: Assembly,
    parsed: ParsedModel,
)
    requires
        from < lines.len(),
        parse_spec(trim(lines[from as int]), text_id_at(first_id, count)) == Ok::<
            ParsedModel,
            ParseError,
        >(parsed),
    ensures
        after_assembly(before, assemble_from(lines, from, count, first_id)) == after_assembly(
            joined_assembly(before, assembly_of(parsed, from)),
            assemble_from(
                lines,
                from + 1,
                if parsed is Text {
                    count + 1
                } else {
                    count
                },
                first_id,
            ),
        ),
{
    let added = assembly_of(parsed, from);
    let next = assemble_from(
        lines,
        from + 1,
        if parsed is Text {
            count + 1
        } else {
            count
        },
        first_id,
    );
    match next {
        Ok(rest) => {
            assert((before.bytes + added.bytes) + rest.bytes =~= before.bytes + (added.bytes
                + rest.bytes));
            assert((before.texts + added.texts) + rest.texts =~= before.texts + (added.texts
                + rest.texts));
            assert((before.unrecognized + added.unrecognized) + rest.unrecognized
                =~= before.unrecognized + (added.unrecognized + rest.unrecognized));
        },
        Err(_) => {},
    }
}

/// Assembles a script with the text parser. `first_id` is the next free
/// identifier of the text table.
pub fn assemble(lines: &Vec<String>, first_id: u16) -> (assembled: Result<Assembled, AssembleError>)
    ensures
        match assembled {
            Ok(a) => assemble_spec(texts(lines@), first_id) == Ok::<Assembly, AssembleError>(a@),
            Err(e) => assemble_spec(texts(lines@), first_id) == Err::<Assembly, AssembleError>(e),
        },
{
    let mut bytes: Vec<u8> = Vec::new();
    let mut dialogues: Vec<String> = Vec::new();
    let mut unrecognized: Vec<usize> = Vec::new();
    let mut next_id: u16 = first_id;
    let mut i: usize = 0;
    assert(texts(dialogues@) =~= Seq::<Seq<char>>::empty());
    while i < lines.len()
        invariant
            i <= lines.len(),
            next_id == text_id_at(first_id, dialogues.len() as nat),
            assemble_spec(texts(lines@), first_id) == after_assembly(
                Assembly { bytes: bytes@, texts: texts(dialogues@), unrecognized: unrecognized@ },
                assemble_from(texts(lines@), i as nat, dialogues.len() as nat, first_id),
            ),
        decreases lines.len() - i,
    {
        let ghost before = Assembly {
            bytes: bytes@,
            texts: texts(dialogues@),
            unrecognized: unrecognized@,
        };
        let ghost count = dialogues.len() as nat;
        assert(texts(lines@)[i as int] == lines@[i as int]@);
        let parsed = match Opcode::parse_line(trimmed(lines[i].as_str()), next_id) {
            Ok(parsed) => parsed,
            Err(error) => {
                return Err(AssembleError { line: i, error });
            },
        };
        proof {
            lemma_assemble_step(texts(lines@), i as nat, count, first_id, before, parsed@);
            lemma_next_text_id(first_id, count);
        }
        let ghost added = assembly_of(parsed@, i as nat);
        match parsed {
            Parsed::Skip => {
                assert(before.bytes + added.bytes =~= bytes@);
                assert(before.unrecognized + added.unrecognized =~= unrecognized@);
                assert(before.texts + added.texts =~= texts(dialogues@));
            },
            Parsed::Instruction(op) => {
                if op.is_unrecognized() {
                    unrecognized.push(i);
                }
                let mut wire = op.to_hex();
                bytes.append(&mut wire);
                assert(before.bytes + added.bytes =~= bytes@);
                assert(before.unrecognized + added.unrecognized =~= unrecognized@);
                assert(before.texts + added.texts =~= texts(dialogues@));
            },
            Parsed::Text(op, dialogue) => {
                let mut wire = op.to_hex();
                bytes.append(&mut wire);
                dialogues.push(dialogue);
                next_id = if next_id == 0xFFFF {
                    0
                } else {
                    next_id + 1
                };
                assert(before.bytes + added.bytes =~= bytes@);
                assert(before.unrecognized + added.unrecognized =~= unrecognized@);
                assert(before.texts + added.texts =~= texts(dialogues@));
            },
        }
        i += 1;
    }
    proof {
        assert(bytes@ + Seq::<u8>::empty() =~= bytes@);
        assert(texts(dialogues@) + Seq::<Seq<char>>::empty() =~= texts(dialogues@));
        assert(unrecognized@ + Seq::<usize>::empty() =~= unrecognized@);
    }
    Ok(Assembled { bytes, texts: dialogues, unrecognized })
}

/// What a script disassembles to.
#[derive(PartialEq, Eq, Debug)]
pub struct Disassembled {
    /// The line of each instruction, in the order of the input.
    pub lines: Vec<String>,
    /// How many bytes are left after the last instruction.
    pub trailing: usize,
}

/// What a [`Disassembled`] holds, as mathematical values.
pub struct Listing {
    pub lines: Seq<Seq<char>>,
    pub trailing: nat,
}

impl View for Disassembled {
    type V = Listing;

    open spec fn view(&self) -> Listing {
        Listing { lines: texts(self.lines@), trailing: self.trailing as nat }
    }
}

/// What [`disassemble`] returns: the line of each instruction that the
/// decoder reads.
pub open spec fn disassemble_spec(bytes: Seq<u8>) -> Result<Listing, DecodeError> {
    match decode_spec(bytes) {
        Ok(script) => Ok(
            Listing {
                lines: script.instructions.map_values(|i: Instruction| format_spec(i)),
                trailing: script.trailing,
            },
        ),
        Err(e) => Err(e),
    }
}

/// Disassembles a script with the decoder and the text formatter. A flag
/// check is taken with any number of arguments. A `Text` instruction is
/// shown with the text-table identifier that its two argument bytes write.
pub fn disassemble(bytes: &[u8]) -> (listing: Result<Disassembled, DecodeError>)
    ensures
        match listing {
            Ok(l) => disassemble_spec(bytes@) == Ok::<Listing, DecodeError>(l@),
            Err(e) => disassemble_spec(bytes@) == Err::<Listing, DecodeError>(e),
        },
{
    let decoded = match decode(bytes) {
        Ok(decoded) => decoded,
        Err(e) => {
            return Err(e);
        },
    };
    let instructions = decoded.instructions;
    let mut lines: Vec<String> = Vec::new();
    let mut i: usize = 0;
    while i < instructions.len()
        invariant
            i <= instructions.len(),
            lines.len() == i,
            forall|k: int| 0 <= k < instructions.len() ==> (#[trigger] instructions[k]).wf(),
            forall|k: int| 0 <= k < i ==> (#[trigger] lines@[k])@ == format_spec(instructions@[k]@),
        decreases instructions.len() - i,
    {
        lines.push(instructions[i].to_string());
        i += 1;
    }
    assert(texts(lines@) =~= decoded@.instructions.map_values(|i: Instruction| format_spec(i)));
    Ok(Disassembled { lines, trailing: decoded.trailing })
}

/// The line of a decodable instruction other than `Text` parses, trimmed or
/// not, to that instruction, whose code is not the sentinel.
proof fn lemma_decodable_line(i: Instruction, text_id: u16)
    requires
        is_decodable(i),
        i.code() != TEXT,
    ensures
        parse_spec(trim(format_spec(i)), text_id) == Ok::<ParsedModel, ParseError>(
            ParsedModel::Instruction(i),
        ),
        i.code() != SENTINEL,
{
    lemma_reserved_codes(i.code());
    lemma_name_chars(i.code());
    lemma_code_of_name(i.code());
    lemma_code_of_name(TEXT);
    assert(is_name(i.name));
    lemma_trim_formatted(i);
    lemma_parse_format(i, text_id);
}

/// The lines of decodable instructions other than `Text`, from `from` on,
/// assemble to the wire forms of those instructions.
proof fn lemma_assemble_from_lines(
    instructions: Seq<Instruction>,
    from: nat,
    count: nat,
    first_id: u16,
)
    requires
        from <= instructions.len(),
        forall|k: int|
            0 <= k < instructions.len() ==> is_decodable(#[trigger] instructions[k])
                && instructions[k].code() != TEXT,
    ensures
        assemble_from(
            instructions.map_values(|i: Instruction| format_spec(i)),
            from,
            count,
            first_id,
        ) == Ok::<Assembly, AssembleError>(
            Assembly {
                bytes: wire_of(instructions.skip(from as int)),
                texts: seq![],
                unrecognized: seq![],
            },
        ),
    decreases instructions.len() - from,
{
    let lines = instructions.map_values(|i: Instruction| format_spec(i));
    let rest = instructions.skip(from as int);
    if from < instructions.len() {
        let i = instructions[from as int];
        lemma_decodable_line(i, text_id_at(first_id, count));
        lemma_assemble_from_lines(instructions, from + 1, count, first_id);
        assert(rest.drop_first() =~= instructions.skip(from as int + 1));
        assert(rest[0] == i);
        let tail = assemble_from(lines, from + 1, count, first_id).unwrap();
        assert(Seq::<Seq<char>>::empty() + tail.texts =~= tail.texts);
        assert(Seq::<usize>::empty() + tail.unrecognized =~= tail.unrecognized);
    }
}

/// What [`disassemble`] writes, [`assemble`] reads back, for a script
/// without `Text` instructions: the lines assemble to the bytes that they
/// were decoded from, with no dialogue and no name that the table does not
/// hold. (The line of a `Text` instruction shows its text-table identifier
/// where the parser asks for the dialogue in quotes.)
pub proof fn lemma_assemble_of_disassemble(bytes: Seq<u8>, first_id: u16)
    requires
        disassemble_spec(bytes) is Ok,
        forall|k: int|
            0 <= k < decode_spec(bytes).unwrap().instructions.len() ==> (
            #[trigger] decode_spec(bytes).unwrap().instructions[k]).code() != TEXT,
    ensures
        disassemble_spec(bytes).unwrap().trailing <= bytes.len(),
        assemble_spec(disassemble_spec(bytes).unwrap().lines, first_id) == Ok::<
            Assembly,
            AssembleError,
        >(
            Assembly {
                bytes: bytes.take(bytes.len() - disassemble_spec(bytes).unwrap().trailing),
                texts: seq![],
                unrecognized: seq![],
            },
        ),
{
    let instructions = decode_spec(bytes).unwrap().instructions;
    lemma_encode_decode(bytes);
    lemma_assemble_from_lines(instructions, 0, 0, first_id);
    assert(instructions.skip(0) =~= instructions);
}

} // verus!
