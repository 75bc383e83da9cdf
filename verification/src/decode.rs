//! The binary decoder: from the bytes of a script to its instructions.
use crate::chars::{decimal, push_decimal};
use crate::find::{find_byte, first_index, lemma_first_index, lemma_first_index_after};
use crate::op::{lemma_op_arity, lemma_typed_exact, lemma_typed_of_op, typed, Op};
use crate::opcode::{lemma_instruction, models, Instruction, Opcode};
use crate::table::{arity, arity_of, code_to_name, name_for, Arity, FLAG_CHECK, MARKER};
use crate::trusted::{hex_of, hex_string};
use vstd::prelude::*;
use vstd::slice::*;
use vstd::string::*;

verus! {

/// Why a script could not be decoded.
#[derive(Clone, Copy, PartialEq, Eq, Debug)]
pub enum DecodeErrorKind {
    /// The input ends after a marker byte, before the code.
    MissingCode,
    /// The code is none that the decoder reads.
    UnknownCode(u8),
    /// The input ends before the arguments of this code are complete.
    Truncated(u8),
    /// A flag check has this many arguments, which the typed form does not
    /// admit.
    FlagCheckLength(usize),
}

/// A failure of the decoder, with the place of the instruction that it
/// failed on.
#[derive(Clone, Copy, PartialEq, Eq, Debug)]
pub struct DecodeError {
    pub kind: DecodeErrorKind,
    /// How many instructions come before the offending one.
    pub index: usize,
    /// The offset of the offending instruction's marker byte.
    pub offset: usize,
}

impl DecodeError {
    /// What is wrong, in words: a code is shown as two hexadecimal digits, a
    /// count in decimal.
    pub open spec fn spec_reason(self) -> Seq<char> {
        match self.kind {
            DecodeErrorKind::MissingCode => "Missing opcode"@,
            DecodeErrorKind::UnknownCode(code) => "Invalid opcode: "@ + hex_of(code),
            DecodeErrorKind::Truncated(code) => "Truncated opcode: "@ + hex_of(code),
            DecodeErrorKind::FlagCheckLength(count) => "Invalid CheckFlagA Length: "@ + decimal(
                count as nat,
            ),
        }
    }

    /// The message of the failure: what is wrong and where.
    pub open spec fn spec_message(self) -> Seq<char> {
        self.spec_reason() + " (instruction "@ + decimal(self.index as nat) + ", offset "@
            + decimal(self.offset as nat) + ")"@
    }

    /// What is wrong, in words.
    pub fn reason(&self) -> (reason: String)
        ensures
            reason@ == self.spec_reason(),
    {
        match self.kind {
            DecodeErrorKind::MissingCode => String::from_str("Missing opcode"),
            DecodeErrorKind::UnknownCode(code) => {
                let mut reason = String::from_str("Invalid opcode: ");
                reason.append(hex_string(code).as_str());
                reason
            },
            DecodeErrorKind::Truncated(code) => {
                let mut reason = String::from_str("Truncated opcode: ");
                reason.append(hex_string(code).as_str());
                reason
            },
            DecodeErrorKind::FlagCheckLength(count) => {
                let mut reason = String::from_str("Invalid CheckFlagA Length: ");
                push_decimal(&mut reason, count as u64);
                reason
            },
        }
    }

    /// The message of the failure: what is wrong and where.
    pub fn message(&self) -> (message: String)
        ensures
            message@ == self.spec_message(),
    {
        let mut message = self.reason();
        message.append(" (instruction ");
        push_decimal(&mut message, self.index as u64);
        message.append(", offset ");
        push_decimal(&mut message, self.offset as u64);
        message.append(")");
        message
    }
}

/// What a script decodes to.
#[derive(PartialEq, Eq, Debug)]
pub struct Decoded {
    /// The instructions, in the order of the input.
    pub instructions: Vec<Opcode>,
    /// How many bytes are left after the last instruction. They start with a
    /// byte that is no marker, and are not decoded.
    pub trailing: usize,
}

/// What a [`Decoded`] holds, as mathematical values.
pub struct Script {
    pub instructions: Seq<Instruction>,
    pub trailing: nat,
}

impl View for Decoded {
    type V = Script;

    open spec fn view(&self) -> Script {
        Script { instructions: models(self.instructions@), trailing: self.trailing as nat }
    }
}

/// What stands at the front of the input that is left.
pub enum Front {
    /// Nothing to decode: the input is at its end, or goes on with a byte
    /// that is no marker.
    End,
    /// An instruction with this code and this many argument bytes.
    Instruction { code: u8, count: nat },
    /// An instruction that cannot be read.
    Broken(DecodeErrorKind),
}

/// Reads the front of `rest`: the marker, the code, and as many arguments as
/// the table gives the code. The arguments of a flag check run up to the
/// next marker byte or the end of the input, so none of them can be the
/// marker byte itself.
pub open spec fn front(rest: Seq<u8>) -> Front {
    if rest.len() == 0 || rest[0] != MARKER {
        Front::End
    } else if rest.len() < 2 {
        Front::Broken(DecodeErrorKind::MissingCode)
    } else {
        let code = rest[1];
        match arity_of(code) {
            None => Front::Broken(DecodeErrorKind::UnknownCode(code)),
            Some(Arity::Fixed(count)) => if rest.len() - 2 < count {
                Front::Broken(DecodeErrorKind::Truncated(code))
            } else {
                Front::Instruction { code, count: count as nat }
            },
            Some(Arity::Variable) => Front::Instruction {
                code,
                count: first_index(rest.skip(2), MARKER),
            },
        }
    }
}

/// The decoded instruction whose bytes are the first `2 + count` of `rest`.
pub open spec fn decoded_instruction(rest: Seq<u8>, count: nat) -> Instruction {
    Instruction { name: name_for(rest[1]), hexcode: rest.take(2 + count as int), text_id: None }
}

/// Puts `before` in front of the instructions of a result.
pub open spec fn after(before: Seq<Instruction>, rest: Result<Script, DecodeError>) -> Result<
    Script,
    DecodeError,
> {
    match rest {
        Ok(script) => Ok(
            Script { instructions: before + script.instructions, trailing: script.trailing },
        ),
        Err(e) => Err(e),
    }
}

/// Decodes `bytes` from `offset` on, where `index` instructions come before.
pub open spec fn decode_from(bytes: Seq<u8>, offset: nat, index: nat) -> Result<Script, DecodeError>
    decreases bytes.len() - offset,
{
    let rest = bytes.skip(offset as int);
    if offset > bytes.len() {
        Ok(Script { instructions: seq![], trailing: 0 })
    } else {
        match front(rest) {
            Front::End => Ok(Script { instructions: seq![], trailing: rest.len() }),
            Front::Broken(kind) => Err(
                DecodeError { kind, index: index as usize, offset: offset as usize },
            ),
            Front::Instruction { code, count } => {
                proof {
                    lemma_front_fits(rest);
                }
                after(
                    seq![decoded_instruction(rest, count)],
                    decode_from(bytes, offset + 2 + count, index + 1),
                )
            },
        }
    }
}

/// What [`decode`] returns for `bytes`: the instructions up to the end of the
/// input or the first byte that is no marker where one is due, or the first
/// failure.
pub open spec fn decode_spec(bytes: Seq<u8>) -> Result<Script, DecodeError> {
    decode_from(bytes, 0, 0)
}

/// An instruction at the front does not reach past the end of the input.
pub proof fn lemma_front_fits(rest: Seq<u8>)
    ensures
        front(rest) matches Front::Instruction { code, count } ==> 2 + count <= rest.len() && code
            == rest[1],
{
    if rest.len() >= 2 {
        lemma_first_index(rest.skip(2), MARKER);
    }
}

/// What [`front`] finds, in machine integers.
enum Found {
    End,
    Instruction { code: u8, count: usize },
    Broken(DecodeErrorKind),
}

impl Found {
    spec fn model(self) -> Front {
        match self {
            Found::End => Front::End,
            Found::Instruction { code, count } => Front::Instruction { code, count: count as nat },
            Found::Broken(kind) => Front::Broken(kind),
        }
    }
}

/// Reads the front of what is left of `bytes` at `offset`.
fn front_at(bytes: &[u8], offset: usize) -> (found: Found)
    requires
        offset <= bytes.len(),
    ensures
        found.model() == front(bytes@.skip(offset as int)),
        found matches Found::Instruction { code, count } ==> offset + 2 + count <= bytes.len(),
{
    let ghost rest = bytes@.skip(offset as int);
    if offset == bytes.len() || bytes[offset] != MARKER {
        return Found::End;
    }
    if bytes.len() - offset < 2 {
        return Found::Broken(DecodeErrorKind::MissingCode);
    }
    let code = bytes[offset + 1];
    assert(code == rest[1]);
    match arity(code) {
        None => Found::Broken(DecodeErrorKind::UnknownCode(code)),
        Some(Arity::Fixed(count)) => {
            if bytes.len() - offset - 2 < count {
                Found::Broken(DecodeErrorKind::Truncated(code))
            } else {
                Found::Instruction { code, count }
            }
        },
        Some(Arity::Variable) => {
            let end = find_byte(bytes, offset + 2, MARKER);
            assert(rest.skip(2) =~= bytes@.skip(offset + 2));
            Found::Instruction { code, count: end - (offset + 2) }
        },
    }
}

/// The binary decoder. It reads instruction after instruction and stops, with
/// success, at the end of the input or at a byte that is no marker where one
/// is due; the bytes from there on are counted in `trailing`. It fails where a
/// code is none that the table gives an argument count, or where the input
/// ends inside an instruction.
pub fn decode(bytes: &[u8]) -> (decoded: Result<Decoded, DecodeError>)
    ensures
        match decoded {
            Ok(d) => decode_spec(bytes@) == Ok::<Script, DecodeError>(d@),
            Err(e) => decode_spec(bytes@) == Err::<Script, DecodeError>(e),
        },
        decoded matches Ok(d) ==> forall|k: int|
            0 <= k < d.instructions.len() ==> (#[trigger] d.instructions[k]).wf(),
{
    let mut instructions: Vec<Opcode> = Vec::new();
    let mut offset: usize = 0;
    assert(models(instructions@) =~= seq![]);
    loop
        invariant
            offset <= bytes.len(),
            instructions.len() <= offset,
            forall|k: int| 0 <= k < instructions.len() ==> (#[trigger] instructions[k]).wf(),
            decode_spec(bytes@) == after(
                models(instructions@),
                decode_from(bytes@, offset as nat, instructions.len() as nat),
            ),
        decreases bytes.len() - offset,
    {
        let ghost rest = bytes@.skip(offset as int);
        let ghost before = models(instructions@);
        match front_at(bytes, offset) {
            Found::End => {
                assert(before + Seq::<Instruction>::empty() =~= before);
                return Ok(Decoded { instructions, trailing: bytes.len() - offset });
            },
            Found::Broken(kind) => {
                return Err(DecodeError { kind, index: instructions.len(), offset });
            },
            Found::Instruction { code, count } => {
                let end = offset + 2 + count;
                let op = Opcode {
                    name: code_to_name(code),
                    hexcode: slice_to_vec(slice_subrange(bytes, offset, end)),
                    text_id: None,
                };
                proof {
                    assert(rest.take(2 + count as int) =~= bytes@.subrange(
                        offset as int,
                        end as int,
                    ));
                    assert(op@ == decoded_instruction(rest, count as nat));
                    let next = decode_from(bytes@, end as nat, (instructions.len() + 1) as nat);
                    assert(models(instructions@.push(op)) =~= before.push(op@));
                    assert(before.push(op@) =~= before + seq![op@]);
                    match next {
                        Ok(script) => {
                            assert((before + seq![op@]) + script.instructions =~= before + (
                            seq![op@] + script.instructions));
                        },
                        Err(_) => {},
                    }
                }
                instructions.push(op);
                offset = end;
            },
        }
    }
}

/// What a script decodes to, in typed form.
#[derive(PartialEq, Eq, Debug)]
pub struct DecodedOps {
    /// The instructions, in the order of the input.
    pub ops: Vec<Op>,
    /// How many bytes are left after the last instruction.
    pub trailing: usize,
}

/// What a [`DecodedOps`] holds, as mathematical values.
pub struct TypedScript {
    pub ops: Seq<Op>,
    pub trailing: nat,
}

impl View for DecodedOps {
    type V = TypedScript;

    open spec fn view(&self) -> TypedScript {
        TypedScript { ops: self.ops@, trailing: self.trailing as nat }
    }
}

/// Puts `before` in front of the instructions of a result.
pub open spec fn after_ops(before: Seq<Op>, rest: Result<TypedScript, DecodeError>) -> Result<
    TypedScript,
    DecodeError,
> {
    match rest {
        Ok(script) => Ok(TypedScript { ops: before + script.ops, trailing: script.trailing }),
        Err(e) => Err(e),
    }
}

/// Decodes `bytes` from `offset` on into typed form, where `index`
/// instructions come before.
pub open spec fn decode_ops_from(bytes: Seq<u8>, offset: nat, index: nat) -> Result<
    TypedScript,
    DecodeError,
>
    decreases bytes.len() - offset,
{
    let rest = bytes.skip(offset as int);
    if offset > bytes.len() {
        Ok(TypedScript { ops: seq![], trailing: 0 })
    } else {
        match front(rest) {
            Front::End => Ok(TypedScript { ops: seq![], trailing: rest.len() }),
            Front::Broken(kind) => Err(
                DecodeError { kind, index: index as usize, offset: offset as usize },
            ),
            Front::Instruction { code, count } => {
                proof {
                    lemma_front_fits(rest);
                }
                match typed(code, rest.subrange(2, 2 + count as int)) {
                    Ok(op) => after_ops(
                        seq![op],
                        decode_ops_from(bytes, offset + 2 + count, index + 1),
                    ),
                    Err(_) => Err(
                        DecodeError {
                            kind: DecodeErrorKind::FlagCheckLength(count as usize),
                            index: index as usize,
                            offset: offset as usize,
                        },
                    ),
                }
            },
        }
    }
}

/// What [`decode_ops`] returns for `bytes`. It reads the input as
/// [`decode_spec`] does, and fails in addition at the first instruction
/// without a typed form: that is a flag check whose argument count is not 4,
/// 19 or 24, since an instruction of fixed argument count that is read whole
/// has one.
pub open spec fn decode_ops_spec(bytes: Seq<u8>) -> Result<TypedScript, DecodeError> {
    decode_ops_from(bytes, 0, 0)
}

/// The strict binary decoder: as [`decode`], into typed form. A flag check
/// is admitted with 4, 19 or 24 argument bytes only.
pub fn decode_ops(bytes: &[u8]) -> (decoded: Result<DecodedOps, DecodeError>)
    ensures
        match decoded {
            Ok(d) => decode_ops_spec(bytes@) == Ok::<TypedScript, DecodeError>(d@),
            Err(e) => decode_ops_spec(bytes@) == Err::<TypedScript, DecodeError>(e),
        },
{
    let mut ops: Vec<Op> = Vec::new();
    let mut offset: usize = 0;
    loop
        invariant
            offset <= bytes.len(),
            ops.len() <= offset,
            decode_ops_spec(bytes@) == after_ops(
                ops@,
                decode_ops_from(bytes@, offset as nat, ops.len() as nat),
            ),
        decreases bytes.len() - offset,
    {
        let ghost rest = bytes@.skip(offset as int);
        let ghost before = ops@;
        match front_at(bytes, offset) {
            Found::End => {
                assert(before + Seq::<Op>::empty() =~= before);
                return Ok(DecodedOps { ops, trailing: bytes.len() - offset });
            },
            Found::Broken(kind) => {
                return Err(DecodeError { kind, index: ops.len(), offset });
            },
            Found::Instruction { code, count } => {
                let end = offset + 2 + count;
                assert(rest.subrange(2, 2 + count) =~= bytes@.subrange(offset + 2, end as int));
                match Op::from_code(code, slice_subrange(bytes, offset + 2, end)) {
                    Ok(op) => {
                        proof {
                            let next = decode_ops_from(bytes@, end as nat, (ops.len() + 1) as nat);
                            assert(before.push(op) =~= before + seq![op]);
                            match next {
                                Ok(script) => {
                                    assert((before + seq![op]) + script.ops =~= before + (seq![op]
                                        + script.ops));
                                },
                                Err(_) => {},
                            }
                        }
                        ops.push(op);
                        offset = end;
                    },
                    Err(_) => {
                        return Err(
                            DecodeError {
                                kind: DecodeErrorKind::FlagCheckLength(count),
                                index: ops.len(),
                                offset,
                            },
                        );
                    },
                }
            },
        }
    }
}

/// The instructions that the decoder can give: the name is the one that the
/// table gives the code, there is no text-table identifier, and the
/// arguments are as many as the table gives the code; those of a flag check
/// are any number of bytes other than the marker byte.
pub open spec fn is_decodable(i: Instruction) -> bool {
    &&& i.wf()
    &&& i.name == name_for(i.code())
    &&& i.text_id is None
    &&& match arity_of(i.code()) {
        Some(Arity::Fixed(count)) => i.args().len() == count,
        Some(Arity::Variable) => forall|k: int| 0 <= k < i.args().len() ==> i.args()[k] != MARKER,
        None => false,
    }
}

/// The wire forms of some instructions, one after the other.
pub open spec fn wire_of(instructions: Seq<Instruction>) -> Seq<u8>
    decreases instructions.len(),
{
    if instructions.len() == 0 {
        seq![]
    } else {
        instructions[0].hexcode + wire_of(instructions.drop_first())
    }
}

/// The wire forms of well-formed instructions start with a marker byte.
proof fn lemma_wire_starts_with_marker(instructions: Seq<Instruction>)
    requires
        instructions.len() > 0,
        instructions[0].wf(),
    ensures
        wire_of(instructions).len() >= 2,
        wire_of(instructions)[0] == MARKER,
{
}

/// The wire form of a decodable instruction, at the end of the input or
/// before a marker byte, is read as that instruction.
proof fn lemma_front_of_instruction(i: Instruction, more: Seq<u8>)
    requires
        is_decodable(i),
        more.len() == 0 || more[0] == MARKER,
    ensures
        front(i.hexcode + more) == (Front::Instruction { code: i.code(), count: i.args().len() }),
        decoded_instruction(i.hexcode + more, i.args().len()) == i,
{
    let rest = i.hexcode + more;
    assert(rest[0] == i.hexcode[0]);
    assert(rest[1] == i.hexcode[1]);
    if i.code() == FLAG_CHECK {
        assert(rest.skip(2) =~= i.args() + more);
        lemma_first_index_after(i.args(), more, MARKER);
    }
    assert(rest.take(2 + i.args().len() as int) =~= i.hexcode);
}

/// Decoding the wire forms of decodable instructions that stand at the end
/// of `bytes` gives those instructions, and nothing is left.
proof fn lemma_decode_from_wire(
    bytes: Seq<u8>,
    offset: nat,
    index: nat,
    instructions: Seq<Instruction>,
)
    requires
        offset <= bytes.len(),
        bytes.skip(offset as int) == wire_of(instructions),
        forall|k: int| 0 <= k < instructions.len() ==> is_decodable(#[trigger] instructions[k]),
    ensures
        decode_from(bytes, offset, index) == Ok::<Script, DecodeError>(
            Script { instructions, trailing: 0 },
        ),
    decreases instructions.len(),
{
    let rest = bytes.skip(offset as int);
    if instructions.len() == 0 {
        assert(instructions =~= seq![]);
    } else {
        let i = instructions[0];
        let tail = instructions.drop_first();
        let more = wire_of(tail);
        if tail.len() > 0 {
            assert(tail[0] == instructions[1]);
            lemma_wire_starts_with_marker(tail);
        }
        lemma_front_of_instruction(i, more);
        assert forall|k: int| 0 <= k < tail.len() implies is_decodable(#[trigger] tail[k]) by {
            assert(tail[k] == instructions[k + 1]);
        }
        let next = offset + 2 + i.args().len();
        assert(rest == i.hexcode + more);
        assert(i.hexcode.len() == 2 + i.args().len());
        assert(rest.skip(i.hexcode.len() as int) =~= more);
        assert(bytes.skip(next as int) =~= rest.skip(i.hexcode.len() as int));
        lemma_decode_from_wire(bytes, next, index + 1, tail);
        assert(seq![i] + tail =~= instructions);
    }
}

/// The byte round trip, for whole scripts: the wire forms of decodable
/// instructions, one after the other, decode to those instructions.
pub proof fn lemma_decode_encode_all(instructions: Seq<Instruction>)
    requires
        forall|k: int| 0 <= k < instructions.len() ==> is_decodable(#[trigger] instructions[k]),
    ensures
        decode_spec(wire_of(instructions)) == Ok::<Script, DecodeError>(
            Script { instructions, trailing: 0 },
        ),
{
    assert(wire_of(instructions).skip(0) =~= wire_of(instructions));
    lemma_decode_from_wire(wire_of(instructions), 0, 0, instructions);
}

/// The byte round trip: the wire form of an instruction of fixed argument
/// count, which has as many arguments as the table says, carries the name
/// that the table gives its code and no text-table identifier, decodes to
/// that instruction. The same holds of a flag check none of whose arguments
/// is the marker byte.
pub proof fn lemma_decode_encode(i: Instruction)
    requires
        is_decodable(i),
    ensures
        decode_spec(i.hexcode) == Ok::<Script, DecodeError>(
            Script { instructions: seq![i], trailing: 0 },
        ),
{
    let one = seq![i];
    assert(one.drop_first() =~= Seq::<Instruction>::empty());
    assert(wire_of(one) =~= i.hexcode) by {
        assert(wire_of(one.drop_first()) =~= Seq::<u8>::empty());
    }
    lemma_decode_encode_all(one);
}

/// What the decoder gives is decodable, and nothing of the input is lost:
/// the wire forms of the instructions, one after the other, are the input
/// without its last `trailing` bytes.
pub proof fn lemma_encode_decode(bytes: Seq<u8>)
    requires
        decode_spec(bytes) is Ok,
    ensures
        ({
            let script = decode_spec(bytes).unwrap();
            &&& script.trailing <= bytes.len()
            &&& wire_of(script.instructions) == bytes.take(bytes.len() - script.trailing)
            &&& forall|k: int|
                0 <= k < script.instructions.len() ==> is_decodable(
                    #[trigger] script.instructions[k],
                )
            &&& script.trailing > 0 ==> bytes[bytes.len() - script.trailing] != MARKER
        }),
{
    lemma_encode_decode_from(bytes, 0, 0);
    let script = decode_spec(bytes).unwrap();
    assert(bytes.subrange(0, bytes.len() - script.trailing) =~= bytes.take(
        bytes.len() - script.trailing,
    ));
}

/// [`lemma_encode_decode`], from an offset on.
proof fn lemma_encode_decode_from(bytes: Seq<u8>, offset: nat, index: nat)
    requires
        offset <= bytes.len(),
        decode_from(bytes, offset, index) is Ok,
    ensures
        ({
            let script = decode_from(bytes, offset, index).unwrap();
            &&& offset + script.trailing <= bytes.len()
            &&& wire_of(script.instructions) == bytes.subrange(
                offset as int,
                bytes.len() - script.trailing,
            )
            &&& forall|k: int|
                0 <= k < script.instructions.len() ==> is_decodable(
                    #[trigger] script.instructions[k],
                )
            &&& script.trailing > 0 ==> bytes[bytes.len() - script.trailing] != MARKER
        }),
    decreases bytes.len() - offset,
{
    let rest = bytes.skip(offset as int);
    let script = decode_from(bytes, offset, index).unwrap();
    match front(rest) {
        Front::End => {
            assert(bytes.subrange(offset as int, offset as int) =~= Seq::<u8>::empty());
            if rest.len() > 0 {
                assert(rest[0] == bytes[offset as int]);
            }
        },
        Front::Broken(_) => {},
        Front::Instruction { code, count } => {
            lemma_front_fits(rest);
            let i = decoded_instruction(rest, count);
            let next = offset + 2 + count;
            lemma_encode_decode_from(bytes, next, index + 1);
            let tail = decode_from(bytes, next, index + 1).unwrap();
            assert(script.instructions =~= seq![i] + tail.instructions);
            assert(script.instructions.drop_first() =~= tail.instructions);
            assert(i.hexcode =~= bytes.subrange(offset as int, next as int));
            assert(wire_of(script.instructions) =~= bytes.subrange(
                offset as int,
                bytes.len() - script.trailing,
            ));
            assert(is_decodable(i)) by {
                assert(i.args() =~= rest.subrange(2, 2 + count as int));
                if code == FLAG_CHECK {
                    lemma_first_index(rest.skip(2), MARKER);
                    assert forall|k: int| 0 <= k < i.args().len() implies i.args()[k]
                        != MARKER by {
                        assert(i.args()[k] == rest.skip(2)[k]);
                    }
                }
            }
            assert forall|k: int| 0 <= k < script.instructions.len() implies is_decodable(
                #[trigger] script.instructions[k],
            ) by {
                if k > 0 {
                    assert(script.instructions[k] == tail.instructions[k - 1]);
                }
            }
        },
    }
}

/// The typed instructions that the strict decoder can give: all but the flag
/// checks with a marker byte among their arguments.
pub open spec fn is_decodable_op(op: Op) -> bool {
    op.code() == FLAG_CHECK ==> forall|k: int| 0 <= k < op.args().len() ==> op.args()[k] != MARKER
}

/// The wire forms of some typed instructions, one after the other.
pub open spec fn wire_of_ops(ops: Seq<Op>) -> Seq<u8>
    decreases ops.len(),
{
    if ops.len() == 0 {
        seq![]
    } else {
        ops[0].wire() + wire_of_ops(ops.drop_first())
    }
}

/// The instruction of a decodable typed instruction is decodable.
proof fn lemma_decodable_op(op: Op)
    requires
        is_decodable_op(op),
    ensures
        is_decodable(op.instruction()),
        op.instruction().hexcode == op.wire(),
        op.instruction().code() == op.code(),
        op.instruction().args() == op.args(),
{
    lemma_op_arity(op);
    lemma_instruction(name_for(op.code()), op.code(), op.args());
}

/// Decoding the wire forms of decodable typed instructions that stand at the
/// end of `bytes` gives those instructions, and nothing is left.
proof fn lemma_decode_ops_from_wire(bytes: Seq<u8>, offset: nat, index: nat, ops: Seq<Op>)
    requires
        offset <= bytes.len(),
        bytes.skip(offset as int) == wire_of_ops(ops),
        forall|k: int| 0 <= k < ops.len() ==> is_decodable_op(#[trigger] ops[k]),
    ensures
        decode_ops_from(bytes, offset, index) == Ok::<TypedScript, DecodeError>(
            TypedScript { ops, trailing: 0 },
        ),
    decreases ops.len(),
{
    let rest = bytes.skip(offset as int);
    if ops.len() == 0 {
        assert(ops =~= seq![]);
    } else {
        let op = ops[0];
        let i = op.instruction();
        let tail = ops.drop_first();
        let more = wire_of_ops(tail);
        lemma_decodable_op(op);
        if tail.len() > 0 {
            assert(tail[0].wire()[0] == MARKER);
        }
        lemma_front_of_instruction(i, more);
        assert forall|k: int| 0 <= k < tail.len() implies is_decodable_op(#[trigger] tail[k]) by {
            assert(tail[k] == ops[k + 1]);
        }
        let count = op.args().len();
        let next = offset + 2 + count;
        assert(rest == op.wire() + more);
        assert(rest.subrange(2, 2 + count as int) =~= op.args());
        lemma_typed_of_op(op);
        assert(rest.skip(op.wire().len() as int) =~= more);
        assert(bytes.skip(next as int) =~= rest.skip(op.wire().len() as int));
        lemma_decode_ops_from_wire(bytes, next, index + 1, tail);
        assert(seq![op] + tail =~= ops);
    }
}

/// The byte round trip in typed form, for whole scripts: the wire forms of
/// typed instructions, one after the other, decode to those instructions.
/// It holds of all but the flag checks with a marker byte among their
/// arguments.
pub proof fn lemma_decode_ops_encode_all(ops: Seq<Op>)
    requires
        forall|k: int| 0 <= k < ops.len() ==> is_decodable_op(#[trigger] ops[k]),
    ensures
        decode_ops_spec(wire_of_ops(ops)) == Ok::<TypedScript, DecodeError>(
            TypedScript { ops, trailing: 0 },
        ),
{
    assert(wire_of_ops(ops).skip(0) =~= wire_of_ops(ops));
    lemma_decode_ops_from_wire(wire_of_ops(ops), 0, 0, ops);
}

/// The byte round trip in typed form: the wire form of a typed instruction
/// decodes to that instruction.
pub proof fn lemma_decode_ops_encode(op: Op)
    requires
        is_decodable_op(op),
    ensures
        decode_ops_spec(op.wire()) == Ok::<TypedScript, DecodeError>(
            TypedScript { ops: seq![op], trailing: 0 },
        ),
{
    let one = seq![op];
    assert(one.drop_first() =~= Seq::<Op>::empty());
    assert(wire_of_ops(one) =~= op.wire()) by {
        assert(wire_of_ops(one.drop_first()) =~= Seq::<u8>::empty());
    }
    lemma_decode_ops_encode_all(one);
}

/// Where the strict decoder succeeds, the decoder gives the same
/// instructions, and nothing of the input is lost: the wire forms of the
/// instructions, one after the other, are the input without its last
/// `trailing` bytes.
pub proof fn lemma_decode_ops_agrees(bytes: Seq<u8>)
    requires
        decode_ops_spec(bytes) is Ok,
    ensures
        ({
            let script = decode_ops_spec(bytes).unwrap();
            &&& decode_spec(bytes) == Ok::<Script, DecodeError>(
                Script {
                    instructions: script.ops.map_values(|op: Op| op.instruction()),
                    trailing: script.trailing,
                },
            )
            &&& script.trailing <= bytes.len()
            &&& wire_of_ops(script.ops) == bytes.take(bytes.len() - script.trailing)
        }),
{
    lemma_decode_ops_agrees_from(bytes, 0, 0);
    let script = decode_ops_spec(bytes).unwrap();
    assert(bytes.subrange(0, bytes.len() - script.trailing) =~= bytes.take(
        bytes.len() - script.trailing,
    ));
}

/// [`lemma_decode_ops_agrees`], from an offset on.
proof fn lemma_decode_ops_agrees_from(bytes: Seq<u8>, offset: nat, index: nat)
    requires
        offset <= bytes.len(),
        decode_ops_from(bytes, offset, index) is Ok,
    ensures
        ({
            let script = decode_ops_from(bytes, offset, index).unwrap();
            &&& decode_from(bytes, offset, index) == Ok::<Script, DecodeError>(
                Script {
                    instructions: script.ops.map_values(|op: Op| op.instruction()),
                    trailing: script.trailing,
                },
            )
            &&& offset + script.trailing <= bytes.len()
            &&& wire_of_ops(script.ops) == bytes.subrange(
                offset as int,
                bytes.len() - script.trailing,
            )
        }),
    decreases bytes.len() - offset,
{
    let rest = bytes.skip(offset as int);
    let script = decode_ops_from(bytes, offset, index).unwrap();
    let instructions = script.ops.map_values(|op: Op| op.instruction());
    match front(rest) {
        Front::End => {
            assert(bytes.subrange(offset as int, offset as int) =~= Seq::<u8>::empty());
            assert(instructions =~= seq![]);
        },
        Front::Broken(_) => {},
        Front::Instruction { code, count } => {
            lemma_front_fits(rest);
            let args = rest.subrange(2, 2 + count as int);
            let op = typed(code, args).unwrap();
            let next = offset + 2 + count;
            lemma_typed_exact(code, args);
            lemma_decode_ops_agrees_from(bytes, next, index + 1);
            let tail = decode_ops_from(bytes, next, index + 1).unwrap();
            let tail_instructions = tail.ops.map_values(|op: Op| op.instruction());
            assert(script.ops =~= seq![op] + tail.ops);
            assert(script.ops.drop_first() =~= tail.ops);
            assert(op.wire() =~= bytes.subrange(offset as int, next as int));
            assert(wire_of_ops(script.ops) =~= bytes.subrange(
                offset as int,
                bytes.len() - script.trailing,
            ));
            assert(decoded_instruction(rest, count).hexcode =~= op.instruction().hexcode);
            assert(instructions =~= seq![op.instruction()] + tail_instructions);
        },
    }
}

} // verus!
