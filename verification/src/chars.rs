//! Sequences of characters: whitespace, decimal numerals and lists of bytes,
//! the pieces that the text form of an instruction is made of.
use crate::find::{find_char, first_index};
use vstd::prelude::*;
use vstd::slice::*;
use vstd::string::*;

verus! {

/// The characters of `s`, in order.
pub(crate) fn chars_of(s: &str) -> (v: Vec<char>)
    ensures
        v@ == s@,
{
    let mut v: Vec<char> = Vec::new();
    for c in it: s.chars()
        invariant
            v@ == it.seq().take(it.index() as int),
            it.seq() == s@,
    {
        v.push(c);
    }
    v
}

/// Whether `text` holds exactly the characters of `word`.
pub(crate) fn is_word(text: &[char], word: &str) -> (same: bool)
    ensures
        same == (text@ == word@),
{
    let n = word.unicode_len();
    if text.len() != n {
        return false;
    }
    let mut i: usize = 0;
    while i < n
        invariant
            i <= n,
            n == word@.len(),
            n == text@.len(),
            forall|j: int| 0 <= j < i ==> text@[j] == word@[j],
        decreases n - i,
    {
        if text[i] != word.get_char(i) {
            return false;
        }
        i += 1;
    }
    assert(text@ =~= word@);
    true
}

/// The characters with the Unicode property `White_Space`.
pub open spec fn is_whitespace(c: char) -> bool {
    let n = c as u32;
    ||| 0x09 <= n <= 0x0D
    ||| n == 0x20
    ||| n == 0x85
    ||| n == 0xA0
    ||| n == 0x1680
    ||| 0x2000 <= n <= 0x200A
    ||| n == 0x2028
    ||| n == 0x2029
    ||| n == 0x202F
    ||| n == 0x205F
    ||| n == 0x3000
}

/// `s` without the whitespace at its start.
pub open spec fn trim_start(s: Seq<char>) -> Seq<char>
    decreases s.len(),
{
    if s.len() > 0 && is_whitespace(s[0]) {
        trim_start(s.drop_first())
    } else {
        s
    }
}

/// `s` without the whitespace at its end.
pub open spec fn trim_end(s: Seq<char>) -> Seq<char>
    decreases s.len(),
{
    if s.len() > 0 && is_whitespace(s.last()) {
        trim_end(s.drop_last())
    } else {
        s
    }
}

/// `s` without the whitespace at its start and at its end.
pub open spec fn trim(s: Seq<char>) -> Seq<char> {
    trim_end(trim_start(s))
}

/// The decimal digits.
pub open spec fn is_digit(c: char) -> bool {
    '0' as u32 <= c as u32 <= '9' as u32
}

/// The digit that writes `d`, a value below ten.
pub open spec fn digit(d: nat) -> char {
    ('0' as u32 + d) as char
}

/// The value of a digit.
pub open spec fn digit_value(c: char) -> nat {
    (c as u32 - '0' as u32) as nat
}

/// A numeral: one decimal digit or more, and nothing else.
pub open spec fn is_numeral(s: Seq<char>) -> bool {
    s.len() > 0 && forall|i: int| 0 <= i < s.len() ==> is_digit(#[trigger] s[i])
}

/// The value of a numeral.
pub open spec fn value(s: Seq<char>) -> nat
    decreases s.len(),
{
    if s.len() == 0 {
        0
    } else {
        10 * value(s.drop_last()) + digit_value(s.last())
    }
}

/// The numeral of `n`, without leading zeros.
pub open spec fn decimal(n: nat) -> Seq<char>
    decreases n,
{
    if n < 10 {
        seq![digit(n)]
    } else {
        decimal(n / 10).push(digit(n % 10))
    }
}

/// The byte that `s` writes: a numeral, after one `+` or none, whose value is
/// at most 255. Leading zeros are accepted. Anything else writes no byte.
pub open spec fn byte_of(s: Seq<char>) -> Option<u8> {
    let digits = if s.len() > 0 && s[0] == '+' {
        s.drop_first()
    } else {
        s
    };
    if is_numeral(digits) && value(digits) <= 255 {
        Some(value(digits) as u8)
    } else {
        None
    }
}

/// The bytes that a list writes: `s` is cut at each comma, each piece is
/// trimmed, and the pieces that write a byte give the bytes, in order. A
/// piece that writes none is passed over.
pub open spec fn bytes_of(s: Seq<char>) -> Seq<u8>
    decreases s.len(),
{
    let comma = first_index(s, ',');
    let head = match byte_of(trim(s.take(comma as int))) {
        Some(b) => seq![b],
        None => seq![],
    };
    if comma >= s.len() {
        head
    } else {
        head + bytes_of(s.skip(comma as int + 1))
    }
}

/// Whether `c` is whitespace.
pub(crate) fn whitespace(c: char) -> (b: bool)
    ensures
        b == is_whitespace(c),
{
    let n: u32 = c as u32;
    (0x09 <= n && n <= 0x0D) || n == 0x20 || n == 0x85 || n == 0xA0 || n == 0x1680 || (0x2000 <= n
        && n <= 0x200A) || n == 0x2028 || n == 0x2029 || n == 0x202F || n == 0x205F || n == 0x3000
}

/// The bounds of `text[from..to]` trimmed: the result is `(a, b)` with
/// `text[a..b]` the trimmed text.
pub(crate) fn trim_bounds(text: &[char], from: usize, to: usize) -> (bounds: (usize, usize))
    requires
        from <= to <= text.len(),
    ensures
        from <= bounds.0 <= bounds.1 <= to,
        text@.subrange(bounds.0 as int, bounds.1 as int) == trim(
            text@.subrange(from as int, to as int),
        ),
{
    let mut a: usize = from;
    while a < to && whitespace(text[a])
        invariant
            from <= a <= to <= text.len(),
            trim_start(text@.subrange(from as int, to as int)) == trim_start(
                text@.subrange(a as int, to as int),
            ),
        decreases to - a,
    {
        assert(text@.subrange(a as int, to as int).drop_first() =~= text@.subrange(
            a + 1,
            to as int,
        ));
        a += 1;
    }
    let mut b: usize = to;
    while a < b && whitespace(text[b - 1])
        invariant
            a <= b <= to <= text.len(),
            trim_end(text@.subrange(a as int, to as int)) == trim_end(
                text@.subrange(a as int, b as int),
            ),
        decreases b - a,
    {
        assert(text@.subrange(a as int, b as int).drop_last() =~= text@.subrange(
            a as int,
            b - 1,
        ));
        b -= 1;
    }
    (a, b)
}

/// `s` without the whitespace at its start and at its end.
pub(crate) fn trimmed(s: &str) -> (t: &str)
    ensures
        t@ == trim(s@),
{
    let chars = chars_of(s);
    let (a, b) = trim_bounds(chars.as_slice(), 0, chars.len());
    assert(chars@.subrange(0, chars@.len() as int) =~= chars@);
    s.substring_char(a, b)
}

/// The value of a numeral is at least the value of each of its prefixes.
pub proof fn lemma_value_prefix(s: Seq<char>, k: int)
    requires
        0 <= k <= s.len(),
    ensures
        value(s.take(k)) <= value(s),
    decreases s.len(),
{
    if k == s.len() {
        assert(s.take(k) =~= s);
    } else {
        lemma_value_prefix(s.drop_last(), k);
        assert(s.drop_last().take(k) =~= s.take(k));
    }
}

/// The byte that `text` writes, if it writes one.
pub(crate) fn parse_byte(text: &[char]) -> (byte: Option<u8>)
    ensures
        byte == byte_of(text@),
{
    let n = text.len();
    let start: usize = if n > 0 && text[0] == '+' {
        1
    } else {
        0
    };
    let ghost digits = text@.skip(start as int);
    assert(start == 1 ==> text@.drop_first() =~= digits);
    assert(start == 0 ==> text@ =~= digits);
    if start == n {
        return None;
    }
    let mut acc: u32 = 0;
    let mut i: usize = start;
    while i < n
        invariant
            start <= i <= n,
            n == text.len(),
            digits == text@.skip(start as int),
            digits.len() == n - start,
            byte_of(text@) == (if is_numeral(digits) && value(digits) <= 255 {
                Some(value(digits) as u8)
            } else {
                None
            }),
            forall|j: int| 0 <= j < i - start ==> is_digit(#[trigger] digits[j]),
            acc == value(digits.take(i - start)),
            acc <= 255,
        decreases n - i,
    {
        let c: u32 = text[i] as u32;
        if c < 48 || c > 57 {
            assert(!is_digit(digits[i - start]));
            return None;
        }
        let next: u32 = acc * 10 + (c - 48);
        proof {
            let prefix = digits.take(i - start + 1);
            assert(prefix.drop_last() =~= digits.take(i - start));
            assert(prefix.last() == text@[i as int]);
            assert(next == value(prefix));
            lemma_value_prefix(digits, i - start + 1);
        }
        if next > 255 {
            return None;
        }
        acc = next;
        i += 1;
    }
    assert(digits.take(n - start) =~= digits);
    Some(acc as u8)
}

/// The bytes that the list `text` writes.
pub(crate) fn parse_bytes(text: &[char]) -> (bytes: Vec<u8>)
    ensures
        bytes@ == bytes_of(text@),
{
    let mut bytes: Vec<u8> = Vec::new();
    let mut from: usize = 0;
    assert(text@.skip(0) =~= text@);
    loop
        invariant
            from <= text.len(),
            bytes_of(text@) == bytes@ + bytes_of(text@.skip(from as int)),
        decreases text.len() - from,
    {
        let ghost rest = text@.skip(from as int);
        let ghost before = bytes@;
        let comma = find_char(text, from, ',');
        let (a, b) = trim_bounds(text, from, comma);
        let piece = parse_byte(slice_subrange(text, a, b));
        proof {
            assert(rest.take(comma - from) =~= text@.subrange(from as int, comma as int));
        }
        match piece {
            Some(byte) => {
                bytes.push(byte);
            },
            None => {},
        }
        if comma == text.len() {
            proof {
                assert(bytes@ =~= before + bytes_of(rest));
            }
            return bytes;
        }
        proof {
            assert(rest.skip(comma - from + 1) =~= text@.skip(comma + 1));
            let head = match byte_of(trim(rest.take(comma - from))) {
                Some(b) => seq![b],
                None => seq![],
            };
            assert(bytes@ =~= before + head);
            assert(before + (head + bytes_of(text@.skip(comma + 1))) =~= (before + head) + bytes_of(
                text@.skip(comma + 1),
            ));
        }
        from = comma + 1;
    }
}

/// The numeral of `n` is a numeral, and its value is `n`.
pub proof fn lemma_decimal(n: nat)
    ensures
        is_numeral(decimal(n)),
        value(decimal(n)) == n,
    decreases n,
{
    let s = decimal(n);
    if n < 10 {
        assert(s.drop_last() =~= Seq::<char>::empty());
        assert(value(s.drop_last()) == 0);
        assert(s.last() == digit(n));
    } else {
        lemma_decimal(n / 10);
        assert(s.drop_last() =~= decimal(n / 10));
        assert(s.last() == digit(n % 10));
        assert forall|i: int| 0 <= i < s.len() implies is_digit(#[trigger] s[i]) by {
            if i < s.len() - 1 {
                assert(s[i] == decimal(n / 10)[i]);
            }
        }
    }
}

/// The numeral of a byte writes that byte.
pub proof fn lemma_byte_of_decimal(b: u8)
    ensures
        byte_of(decimal(b as nat)) == Some(b),
{
    lemma_decimal(b as nat);
    assert(is_digit(decimal(b as nat)[0]));
}

/// Whitespace in front of a text that does not start with any is trimmed
/// away, and nothing more.
pub proof fn lemma_trim_start_padded(pad: Seq<char>, s: Seq<char>)
    requires
        forall|i: int| 0 <= i < pad.len() ==> is_whitespace(#[trigger] pad[i]),
        s.len() == 0 || !is_whitespace(s[0]),
    ensures
        trim_start(pad + s) == s,
    decreases pad.len(),
{
    if pad.len() == 0 {
        assert(pad + s =~= s);
    } else {
        assert((pad + s)[0] == pad[0]);
        assert((pad + s).drop_first() =~= pad.drop_first() + s);
        assert forall|i: int| 0 <= i < pad.drop_first().len() implies is_whitespace(
            #[trigger] pad.drop_first()[i],
        ) by {
            assert(pad.drop_first()[i] == pad[i + 1]);
        }
        lemma_trim_start_padded(pad.drop_first(), s);
    }
}

/// A numeral, with whitespace before it or without, is trimmed to itself.
pub proof fn lemma_trim_numeral(pad: Seq<char>, s: Seq<char>)
    requires
        forall|i: int| 0 <= i < pad.len() ==> is_whitespace(#[trigger] pad[i]),
        is_numeral(s),
    ensures
        trim(pad + s) == s,
{
    assert(is_digit(s[0]));
    assert(is_digit(s[s.len() - 1]));
    lemma_trim_start_padded(pad, s);
}

/// The one-character text of the digit that writes `d`.
fn digit_str(d: u8) -> (s: &'static str)
    requires
        d < 10,
    ensures
        s@ == seq![digit(d as nat)],
{
    proof {
        reveal_strlit("0");
        reveal_strlit("1");
        reveal_strlit("2");
        reveal_strlit("3");
        reveal_strlit("4");
        reveal_strlit("5");
        reveal_strlit("6");
        reveal_strlit("7");
        reveal_strlit("8");
        reveal_strlit("9");
    }
    let s = match d {
        0 => "0",
        1 => "1",
        2 => "2",
        3 => "3",
        4 => "4",
        5 => "5",
        6 => "6",
        7 => "7",
        8 => "8",
        _ => "9",
    };
    assert(s@ =~= seq![digit(d as nat)]);
    s
}

/// Appends the numeral of `n` to `out`.
pub(crate) fn push_decimal(out: &mut String, n: u64)
    ensures
        final(out)@ == old(out)@ + decimal(n as nat),
    decreases n,
{
    if n >= 10 {
        push_decimal(out, n / 10);
    }
    out.append(digit_str((n % 10) as u8));
    proof {
        if n >= 10 {
            assert(out@ =~= old(out)@ + decimal((n / 10) as nat).push(digit((n % 10) as nat)));
        }
    }
}

} // verus!
