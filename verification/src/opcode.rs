//! One instruction: its name, its bytes on the wire, and the text-table
//! identifier that a dialogue line may carry.
use crate::chars::{
    bytes_of, chars_of, decimal, is_digit, is_whitespace, is_word, lemma_byte_of_decimal,
    lemma_decimal, lemma_trim_numeral, lemma_trim_start_padded, parse_bytes, push_decimal, trim,
    trimmed,
};
use crate::find::{
    find_char, first_index, lemma_first_index_after, lemma_first_index_contains,
    lemma_first_index_is,
};
use crate::table::{code_for, code_of_chars, MARKER, SENTINEL, TEXT};
use crate::trusted::{big_endian, big_endian_bytes};
use vstd::prelude::*;
use vstd::slice::*;
use vstd::string::*;

verus! {

/// One instruction of a script.
#[derive(PartialEq, Eq, Debug)]
pub struct Opcode {
    /// The name, as the text form spells it.
    pub name: String,
    /// The wire form: the marker byte, the code, then the argument bytes.
    pub hexcode: Vec<u8>,
    /// Where the dialogue of a `Text` instruction stands in the text table.
    /// The parser and the decoder leave it empty; whoever keeps the text
    /// table fills it in.
    pub text_id: Option<u16>,
}

/// What an [`Opcode`] holds, as mathematical values.
pub struct Instruction {
    pub name: Seq<char>,
    pub hexcode: Seq<u8>,
    pub text_id: Option<u16>,
}

impl View for Opcode {
    type V = Instruction;

    open spec fn view(&self) -> Instruction {
        Instruction { name: self.name@, hexcode: self.hexcode@, text_id: self.text_id }
    }
}

impl Clone for Opcode {
    fn clone(&self) -> (copy: Self)
        ensures
            copy@ == self@,
    {
        let hexcode = self.hexcode.clone();
        assert(hexcode@ =~= self.hexcode@);
        Opcode { name: self.name.clone(), hexcode, text_id: self.text_id }
    }
}

impl Instruction {
    /// The wire form starts with the marker byte and holds a code.
    pub open spec fn wf(self) -> bool {
        self.hexcode.len() >= 2 && self.hexcode[0] == MARKER
    }

    /// The code byte.
    pub open spec fn code(self) -> u8
        recommends
            self.wf(),
    {
        self.hexcode[1]
    }

    /// The argument bytes.
    pub open spec fn args(self) -> Seq<u8>
        recommends
            self.wf(),
    {
        self.hexcode.skip(2)
    }

    /// The code is the one that the table gives the name, or the sentinel
    /// for a name that the table does not hold.
    pub open spec fn named_by_table(self) -> bool {
        self.wf() && self.code() == code_for(self.name)
    }
}

/// The instruction with this name, code and arguments, and no text-table
/// identifier.
pub open spec fn instruction(name: Seq<char>, code: u8, args: Seq<u8>) -> Instruction {
    Instruction { name, hexcode: seq![MARKER, code] + args, text_id: None }
}

/// The models of a sequence of instructions.
pub open spec fn models(ops: Seq<Opcode>) -> Seq<Instruction> {
    ops.map_values(|op: Opcode| op@)
}

/// [`instruction`] is well formed and gives back its code and arguments.
pub proof fn lemma_instruction(name: Seq<char>, code: u8, args: Seq<u8>)
    ensures
        instruction(name, code, args).wf(),
        instruction(name, code, args).code() == code,
        instruction(name, code, args).args() == args,
{
    assert(instruction(name, code, args).args() =~= args);
}

/// Why a line of text is no instruction.
#[derive(Clone, Copy, PartialEq, Eq, Debug)]
pub enum ParseError {
    /// The line holds no `(`.
    MissingParenthesis,
    /// The dialogue of a `Text` line does not stand between two double
    /// quotes.
    MalformedText,
}

impl ParseError {
    /// The message of the failure.
    pub open spec fn spec_message(self) -> Seq<char> {
        match self {
            ParseError::MissingParenthesis => "Missing parenthesis"@,
            ParseError::MalformedText => "Malformed text literal"@,
        }
    }

    /// The message of the failure.
    pub fn message(&self) -> (message: String)
        ensures
            message@ == self.spec_message(),
    {
        match self {
            ParseError::MissingParenthesis => String::from_str("Missing parenthesis"),
            ParseError::MalformedText => String::from_str("Malformed text literal"),
        }
    }
}

/// What a line of text holds.
#[derive(PartialEq, Eq, Debug)]
pub enum Parsed {
    /// No instruction: a block marker or a blank line.
    Skip,
    /// An instruction.
    Instruction(Opcode),
    /// A `Text` instruction, and its dialogue for the text table.
    Text(Opcode, String),
}

/// What a [`Parsed`] holds, as mathematical values.
pub enum ParsedModel {
    Skip,
    Instruction(Instruction),
    Text(Instruction, Seq<char>),
}

impl View for Parsed {
    type V = ParsedModel;

    open spec fn view(&self) -> ParsedModel {
        match self {
            Parsed::Skip => ParsedModel::Skip,
            Parsed::Instruction(op) => ParsedModel::Instruction(op@),
            Parsed::Text(op, text) => ParsedModel::Text(op@, text@),
        }
    }
}

/// The lines that are passed over: those that hold a brace, and those of
/// fewer than two characters.
pub open spec fn is_skipped(line: Seq<char>) -> bool {
    line.contains('{') || line.contains('}') || line.len() < 2
}

/// The name of a line: what stands before its first `(`.
pub open spec fn call_name(line: Seq<char>) -> Seq<char> {
    line.take(first_index(line, '(') as int)
}

/// The argument text of a line: what stands after its first `(`, without the
/// last character of the line, which closes the list. A `(` further on is a
/// character like any other.
pub open spec fn call_inner(line: Seq<char>) -> Seq<char> {
    let rest = line.skip(first_index(line, '(') as int + 1);
    if rest.len() > 0 {
        rest.drop_last()
    } else {
        rest
    }
}

/// The dialogue between the double quotes that open and close `inner`.
/// There are no escape sequences.
pub open spec fn quoted(inner: Seq<char>) -> Option<Seq<char>> {
    if inner.len() >= 2 && inner.first() == '"' && inner.last() == '"' {
        Some(inner.subrange(1, inner.len() - 1))
    } else {
        None
    }
}

/// What a line parses to. A `Text` line takes its two argument bytes from
/// `text_id`, the high byte first, and hands its dialogue out. Any other
/// line takes its code from the table, the sentinel for a name that the
/// table does not hold, and its arguments from the list between the
/// parentheses.
pub open spec fn parse_spec(line: Seq<char>, text_id: u16) -> Result<ParsedModel, ParseError> {
    if is_skipped(line) {
        Ok(ParsedModel::Skip)
    } else if !line.contains('(') {
        Err(ParseError::MissingParenthesis)
    } else if call_name(line) == "Text"@ {
        match quoted(call_inner(line)) {
            Some(text) => Ok(
                ParsedModel::Text(instruction("Text"@, TEXT, big_endian(text_id)), text),
            ),
            None => Err(ParseError::MalformedText),
        }
    } else {
        Ok(
            ParsedModel::Instruction(
                instruction(
                    call_name(line),
                    code_for(call_name(line)),
                    bytes_of(call_inner(line)),
                ),
            ),
        )
    }
}

/// What [`Opcode::try_from_string`] returns: the line is trimmed and parsed
/// with the low 16 bits of `text_id`. A line that is passed over gives
/// neither an instruction nor a dialogue; a line that is no instruction is a
/// failure.
pub open spec fn try_from_string_spec(raw_value: Seq<char>, text_id: u32) -> Result<
    (Option<Instruction>, Option<Seq<char>>),
    ParseError,
> {
    match parse_spec(trim(raw_value), (text_id % 0x1_0000) as u16) {
        Ok(ParsedModel::Skip) => Ok((None, None)),
        Ok(ParsedModel::Instruction(i)) => Ok((Some(i), None)),
        Ok(ParsedModel::Text(i, text)) => Ok((Some(i), Some(text))),
        Err(e) => Err(e),
    }
}

/// The arguments as a list: their numerals, with a comma and a space between
/// two of them.
pub open spec fn joined(args: Seq<u8>) -> Seq<char>
    decreases args.len(),
{
    if args.len() == 0 {
        seq![]
    } else if args.len() == 1 {
        decimal(args[0] as nat)
    } else {
        decimal(args[0] as nat) + seq![',', ' '] + joined(args.drop_first())
    }
}

/// The text-table identifier that the line of an instruction shows: that of
/// an instruction named `Text`, which is the one it carries or, where it
/// carries none, the one that its two argument bytes write, the high byte
/// first. No other instruction has one, nor a `Text` that carries none and
/// has not two argument bytes.
pub open spec fn text_ref(i: Instruction) -> Option<nat> {
    if i.name != "Text"@ {
        None
    } else if i.text_id is Some {
        Some(i.text_id.unwrap() as nat)
    } else if i.args().len() == 2 {
        Some((i.args()[0] * 256 + i.args()[1]) as nat)
    } else {
        None
    }
}

/// What stands between the parentheses of an instruction's line: nothing
/// for an instruction without arguments; the text-table identifier for an
/// instruction that has one; the arguments otherwise.
pub open spec fn format_body(i: Instruction) -> Seq<char> {
    if i.args().len() == 0 {
        seq![]
    } else {
        match text_ref(i) {
            Some(id) => decimal(id),
            None => joined(i.args()),
        }
    }
}

/// The line of an instruction.
pub open spec fn format_spec(i: Instruction) -> Seq<char> {
    i.name + seq!['('] + format_body(i) + seq![')']
}

/// Splits a line at its first `(`: the result is `(open, end)`, with the
/// name in `text[..open]` and the argument text in `text[open + 1..end]`, or
/// `None` for a line without a `(`.
pub(crate) fn split_call(text: &[char]) -> (bounds: Option<(usize, usize)>)
    ensures
        bounds is Some <==> text@.contains('('),
        bounds matches Some((open, end)) ==> {
            &&& open + 1 <= end <= text.len()
            &&& call_name(text@) == text@.subrange(0, open as int)
            &&& call_inner(text@) == text@.subrange(open + 1, end as int)
        },
{
    let n = text.len();
    proof {
        assert(text@.skip(0) =~= text@);
        lemma_first_index_contains(text@, '(');
    }
    let open = find_char(text, 0, '(');
    if open == n {
        return None;
    }
    let end = if n > open + 1 {
        n - 1
    } else {
        n
    };
    assert(call_inner(text@) =~= text@.subrange(open + 1, end as int));
    assert(call_name(text@) =~= text@.subrange(0, open as int));
    Some((open, end))
}

/// Appends the list of `args` to `out`.
fn push_joined(out: &mut String, args: &[u8])
    ensures
        final(out)@ == old(out)@ + joined(args@),
{
    let n = args.len();
    let mut i: usize = 0;
    assert(args@.skip(0) =~= args@);
    assert(old(out)@ + Seq::<char>::empty() =~= old(out)@);
    while i < n
        invariant
            i <= n,
            n == args.len(),
            old(out)@ + joined(args@) == out@ + (if i == 0 {
                joined(args@)
            } else if i < n {
                seq![',', ' '] + joined(args@.skip(i as int))
            } else {
                seq![]
            }),
        decreases n - i,
    {
        let ghost before = out@;
        let ghost rest = args@.skip(i as int);
        if i > 0 {
            proof {
                reveal_strlit(", ");
            }
            out.append(", ");
            assert(out@ =~= before + seq![',', ' ']);
        }
        let ghost mid = out@;
        push_decimal(out, args[i] as u64);
        proof {
            assert(rest[0] == args@[i as int]);
            assert(rest.drop_first() =~= args@.skip(i + 1));
            let numeral = decimal(args@[i as int] as nat);
            if rest.len() == 1 {
                assert(before + (mid.skip(before.len() as int) + numeral) =~= out@ + Seq::<
                    char,
                >::empty());
            } else {
                let more = seq![',', ' '] + joined(args@.skip(i + 1));
                assert(joined(rest) == numeral + seq![',', ' '] + joined(args@.skip(i + 1)));
                assert(numeral + seq![',', ' '] + joined(args@.skip(i + 1)) =~= numeral + more);
                assert(mid + (numeral + more) =~= out@ + more);
                assert(before + (seq![',', ' '] + (numeral + more)) =~= (before + seq![',', ' '])
                    + (numeral + more));
            }
        }
        i += 1;
    }
    assert(out@ + Seq::<char>::empty() =~= out@);
}

impl Opcode {
    /// The well-formedness of the instruction held.
    pub open spec fn wf(&self) -> bool {
        self@.wf()
    }

    /// The instruction with this name, code and arguments.
    pub fn new(name: String, code: u8, args: &[u8]) -> (op: Opcode)
        ensures
            op@ == instruction(name@, code, args@),
            op.wf(),
    {
        let mut hexcode: Vec<u8> = Vec::new();
        hexcode.push(MARKER);
        hexcode.push(code);
        let mut rest = slice_to_vec(args);
        hexcode.append(&mut rest);
        assert(hexcode@ =~= seq![MARKER, code] + args@);
        Opcode { name, hexcode, text_id: None }
    }

    /// The instruction with this name and these arguments, under the code
    /// that the table gives the name: the sentinel for a name that the table
    /// does not hold. The arguments are taken as they are, however many the
    /// code should have.
    pub fn named(name: String, args: &[u8]) -> (op: Opcode)
        ensures
            op@ == instruction(name@, code_for(name@), args@),
            op.wf(),
    {
        let chars = chars_of(name.as_str());
        let code = match code_of_chars(chars.as_slice()) {
            Some(code) => code,
            None => SENTINEL,
        };
        Opcode::new(name, code, args)
    }

    /// The binary encoder: the bytes of the instruction on the wire. Nothing
    /// is checked against the table: what the instruction holds is what is
    /// written.
    pub fn to_hex(&self) -> (bytes: Vec<u8>)
        ensures
            bytes@ == self@.hexcode,
    {
        self.hexcode.clone()
    }

    /// The code byte.
    pub fn code(&self) -> (code: u8)
        requires
            self.wf(),
        ensures
            code == self@.code(),
    {
        self.hexcode[1]
    }

    /// The argument bytes.
    pub fn args(&self) -> (args: &[u8])
        requires
            self.wf(),
        ensures
            args@ == self@.args(),
    {
        slice_subrange(self.hexcode.as_slice(), 2, self.hexcode.len())
    }

    /// Whether the code is the sentinel: the name was not in the table when
    /// the instruction was parsed, and the line needs a second look.
    pub fn is_unrecognized(&self) -> (unknown: bool)
        requires
            self.wf(),
        ensures
            unknown == (self@.code() == SENTINEL),
    {
        self.hexcode[1] == SENTINEL
    }

    /// The text formatter: the line of the instruction, `Name(arg, arg)`.
    ///
    /// An instruction named `Text` shows its text-table identifier, not its
    /// argument bytes: the one it carries or, where it carries none, the one
    /// that its two argument bytes write. The dialogue itself is not part of
    /// the line: it stays in the text table.
    pub fn to_string(&self) -> (line: String)
        requires
            self.wf(),
        ensures
            line@ == format_spec(self@),
    {
        let mut line = self.name.clone();
        proof {
            reveal_strlit("(");
            reveal_strlit(")");
        }
        line.append("(");
        let ghost opened = line@;
        assert(opened =~= self.name@ + seq!['(']);
        let args = slice_subrange(self.hexcode.as_slice(), 2, self.hexcode.len());
        assert(args@ =~= self@.args());
        if args.len() == 0 {
            assert(opened + Seq::<char>::empty() =~= opened);
        } else {
            let name = chars_of(self.name.as_str());
            if !is_word(name.as_slice(), "Text") {
                push_joined(&mut line, args);
            } else {
                match self.text_id {
                    Some(id) => {
                        push_decimal(&mut line, id as u64);
                    },
                    None => {
                        if args.len() == 2 {
                            push_decimal(&mut line, args[0] as u64 * 256 + args[1] as u64);
                        } else {
                            push_joined(&mut line, args);
                        }
                    },
                }
            }
        }
        let ghost body = line@;
        line.append(")");
        assert(line@ =~= body + seq![')']);
        line
    }

    /// The text parser. `line` is one line of a script, without the
    /// whitespace around it; `text_id` is the next free identifier of the
    /// text table, which a `Text` line takes.
    ///
    /// A line with a brace, or of fewer than two characters, is passed over.
    /// An argument that is no byte is dropped. A name that the table does
    /// not hold is encoded as the sentinel: see [`Opcode::is_unrecognized`].
    pub fn parse_line(line: &str, text_id: u16) -> (parsed: Result<Parsed, ParseError>)
        ensures
            match parsed {
                Ok(p) => parse_spec(line@, text_id) == Ok::<ParsedModel, ParseError>(p@),
                Err(e) => parse_spec(line@, text_id) == Err::<ParsedModel, ParseError>(e),
            },
            parsed matches Ok(Parsed::Instruction(op)) ==> op.wf(),
            parsed matches Ok(Parsed::Text(op, _)) ==> op.wf(),
    {
        let chars = chars_of(line);
        let text = chars.as_slice();
        let n = text.len();
        proof {
            assert(text@.skip(0) =~= text@);
            lemma_first_index_contains(text@, '{');
            lemma_first_index_contains(text@, '}');
        }
        if find_char(text, 0, '{') < n || find_char(text, 0, '}') < n || n < 2 {
            return Ok(Parsed::Skip);
        }
        let (open, end) = match split_call(text) {
            Some(bounds) => bounds,
            None => {
                return Err(ParseError::MissingParenthesis);
            },
        };
        if is_word(slice_subrange(text, 0, open), "Text") {
            if end - (open + 1) >= 2 && text[open + 1] == '"' && text[end - 1] == '"' {
                let dialogue = line.substring_char(open + 2, end - 1).to_owned();
                assert(dialogue@ =~= quoted(call_inner(text@)).unwrap());
                let id = big_endian_bytes(text_id);
                let op = Opcode::new(String::from_str("Text"), TEXT, id.as_slice());
                Ok(Parsed::Text(op, dialogue))
            } else {
                Err(ParseError::MalformedText)
            }
        } else {
            let name = line.substring_char(0, open).to_owned();
            let args = parse_bytes(slice_subrange(text, open + 1, end));
            Ok(Parsed::Instruction(Opcode::named(name, args.as_slice())))
        }
    }

    /// Parses one line as [`Opcode::parse_line`] does, after trimming it, and
    /// with the low 16 bits of `text_id`. The result is the instruction, if
    /// the line is one, and the dialogue, if the instruction is a `Text`;
    /// neither for a line that is passed over.
    pub fn try_from_string(raw_value: String, text_id: u32) -> (parsed: Result<
        (Option<Opcode>, Option<String>),
        ParseError,
    >)
        ensures
            match parsed {
                Ok((op, text)) => {
                    &&& try_from_string_spec(raw_value@, text_id) is Ok
                    &&& match op {
                        Some(op) => try_from_string_spec(raw_value@, text_id).unwrap().0 == Some(
                            op@,
                        ) && op.wf(),
                        None => try_from_string_spec(raw_value@, text_id).unwrap().0 is None,
                    }
                    &&& match text {
                        Some(text) => try_from_string_spec(raw_value@, text_id).unwrap().1 == Some(
                            text@,
                        ),
                        None => try_from_string_spec(raw_value@, text_id).unwrap().1 is None,
                    }
                },
                Err(e) => try_from_string_spec(raw_value@, text_id) == Err::<
                    (Option<Instruction>, Option<Seq<char>>),
                    ParseError,
                >(e),
            },
    {
        let line = trimmed(raw_value.as_str());
        let id: u16 = (text_id % 0x1_0000) as u16;
        match Opcode::parse_line(line, id) {
            Ok(Parsed::Skip) => Ok((None, None)),
            Ok(Parsed::Instruction(op)) => Ok((Some(op), None)),
            Ok(Parsed::Text(op, text)) => Ok((Some(op), Some(text))),
            Err(e) => Err(e),
        }
    }
}

/// The names that a line can carry: those without a `(`, at which the name
/// of a line ends, and without a brace, for which a line is passed over.
pub open spec fn is_name(name: Seq<char>) -> bool {
    forall|i: int|
        0 <= i < name.len() ==> {
            let c = #[trigger] name[i];
            c != '(' && c != '{' && c != '}'
        }
}

/// A list of arguments is made of digits, commas and spaces.
pub proof fn lemma_joined_chars(args: Seq<u8>)
    ensures
        forall|i: int|
            0 <= i < joined(args).len() ==> {
                let c = #[trigger] joined(args)[i];
                is_digit(c) || c == ',' || c == ' '
            },
    decreases args.len(),
{
    if args.len() == 0 {
    } else {
        let numeral = decimal(args[0] as nat);
        lemma_decimal(args[0] as nat);
        if args.len() > 1 {
            let rest = joined(args.drop_first());
            lemma_joined_chars(args.drop_first());
            let s = joined(args);
            assert forall|i: int| 0 <= i < s.len() implies {
                let c = #[trigger] s[i];
                is_digit(c) || c == ',' || c == ' '
            } by {
                if i < numeral.len() {
                    assert(s[i] == numeral[i]);
                } else if i >= numeral.len() + 2 {
                    assert(s[i] == rest[i - numeral.len() - 2]);
                }
            }
        }
    }
}

/// The list of some arguments, with whitespace before it or without, writes
/// those arguments.
pub proof fn lemma_bytes_of_joined(pad: Seq<char>, args: Seq<u8>)
    requires
        forall|i: int| 0 <= i < pad.len() ==> is_whitespace(#[trigger] pad[i]),
        args.len() > 0,
    ensures
        bytes_of(pad + joined(args)) == args,
    decreases args.len(),
{
    let numeral = decimal(args[0] as nat);
    let s = pad + joined(args);
    let first = pad + numeral;
    lemma_decimal(args[0] as nat);
    lemma_byte_of_decimal(args[0]);
    lemma_trim_numeral(pad, numeral);
    assert forall|i: int| 0 <= i < first.len() implies first[i] != ',' by {
        if i < pad.len() {
            assert(is_whitespace(pad[i]));
        } else {
            assert(is_digit(numeral[i - pad.len()]));
        }
    }
    if args.len() == 1 {
        assert(s =~= first);
        lemma_first_index_is(s, ',', s.len() as int);
        assert(s.take(s.len() as int) =~= s);
        assert(bytes_of(s) =~= args);
    } else {
        let rest = args.drop_first();
        let tail = seq![','] + (seq![' '] + joined(rest));
        assert(s =~= first + tail);
        lemma_first_index_after(first, tail, ',');
        assert(first_index(tail, ',') == 0);
        assert(s.take(first.len() as int) =~= first);
        assert(s.skip(first.len() as int + 1) =~= seq![' '] + joined(rest));
        lemma_bytes_of_joined(seq![' '], rest);
        assert(seq![args[0]] + rest =~= args);
    }
}

/// The list of some arguments writes those arguments.
pub proof fn lemma_bytes_of_list(args: Seq<u8>)
    ensures
        bytes_of(joined(args)) == args,
{
    let body = joined(args);
    if args.len() == 0 {
        assert(body.take(0) =~= body);
        assert(bytes_of(body) =~= args);
    } else {
        assert(Seq::<char>::empty() + body =~= body);
        lemma_bytes_of_joined(Seq::<char>::empty(), args);
    }
}

/// The line of an instruction is not passed over, and splits into the
/// instruction's name and what the formatter put between the parentheses.
pub proof fn lemma_format_splits(i: Instruction)
    requires
        is_name(i.name),
    ensures
        !is_skipped(format_spec(i)),
        format_spec(i).contains('('),
        call_name(format_spec(i)) == i.name,
        call_inner(format_spec(i)) == format_body(i),
{
    let name = i.name;
    let body = format_body(i);
    let line = format_spec(i);
    let tail = seq!['('] + body + seq![')'];
    let rest = body + seq![')'];
    assert forall|k: int| 0 <= k < body.len() implies {
        let c = #[trigger] body[k];
        is_digit(c) || c == ',' || c == ' '
    } by {
        if i.args().len() == 0 {
        } else if text_ref(i) is Some {
            lemma_decimal(text_ref(i).unwrap());
        } else {
            lemma_joined_chars(i.args());
        }
    }
    assert(line =~= name + tail);
    assert forall|k: int| 0 <= k < line.len() implies line[k] != '{' && line[k] != '}' by {
        if k < name.len() {
            assert(line[k] == name[k]);
        } else if name.len() < k < line.len() - 1 {
            assert(line[k] == body[k - name.len() - 1]);
        }
    }
    assert(tail[0] == '(');
    lemma_first_index_after(name, tail, '(');
    assert(line[name.len() as int] == '(');
    assert(line.take(name.len() as int) =~= name);
    assert(line.skip(name.len() as int + 1) =~= rest);
    assert(rest.drop_last() =~= body);
}

/// The text round trip. An instruction that the parser can give (its name
/// holds no `(` and no brace, its code is the one that the table gives the
/// name, and it carries no text-table identifier) and that is no `Text` is
/// what its line parses to.
pub proof fn lemma_parse_format(i: Instruction, text_id: u16)
    requires
        i.named_by_table(),
        is_name(i.name),
        i.name != "Text"@,
        i.text_id is None,
    ensures
        parse_spec(format_spec(i), text_id) == Ok::<ParsedModel, ParseError>(
            ParsedModel::Instruction(i),
        ),
{
    lemma_format_splits(i);
    lemma_bytes_of_list(i.args());
    assert(instruction(i.name, code_for(i.name), i.args()).hexcode =~= i.hexcode);
}

/// The line of a `Text` instruction as the parser gives it shows the
/// identifier that the parser was given.
pub proof fn lemma_text_line(text_id: u16)
    ensures
        format_spec(instruction("Text"@, TEXT, big_endian(text_id))) == "Text"@ + seq!['(']
            + decimal(text_id as nat) + seq![')'],
{
    let i = instruction("Text"@, TEXT, big_endian(text_id));
    lemma_instruction("Text"@, TEXT, big_endian(text_id));
    assert(i.args()[0] * 256 + i.args()[1] == text_id);
}

/// The line of an instruction whose name does not start with whitespace has
/// no whitespace around it.
pub proof fn lemma_trim_formatted(i: Instruction)
    requires
        i.name.len() == 0 || !is_whitespace(i.name[0]),
    ensures
        trim(format_spec(i)) == format_spec(i),
{
    let line = format_spec(i);
    assert(line[0] == (if i.name.len() == 0 {
        '('
    } else {
        i.name[0]
    }));
    assert(line.last() == ')');
    lemma_trim_start_padded(Seq::<char>::empty(), line);
    assert(Seq::<char>::empty() + line =~= line);
}

/// The text round trip through [`Opcode::try_from_string`], which trims:
/// it holds of the instructions of [`lemma_parse_format`] whose name does not
/// start with whitespace.
pub proof fn lemma_try_from_string_format(i: Instruction, text_id: u32)
    requires
        i.named_by_table(),
        is_name(i.name),
        i.name != "Text"@,
        i.text_id is None,
        i.name.len() == 0 || !is_whitespace(i.name[0]),
    ensures
        try_from_string_spec(format_spec(i), text_id) == Ok::<
            (Option<Instruction>, Option<Seq<char>>),
            ParseError,
        >((Some(i), None)),
{
    lemma_trim_formatted(i);
    lemma_parse_format(i, (text_id % 0x1_0000) as u16);
}

} // verus!
