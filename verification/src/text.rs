//! The texts of receipts: decimal numbers, hexadecimal and JSON strings.

use vstd::prelude::*;

use crate::oid::{digit, digit_value, hex, hex_of};

verus! {

/// Puts one more character behind a text.
///
/// This specifies `String::push` of the standard library.
pub assume_specification[ String::push ](text: &mut String, c: char)
    ensures
        final(text)@ == old(text)@.push(c),
;

/// An empty text.
fn empty() -> (text: String)
    ensures
        text@ == Seq::<char>::empty(),
{
    proof {
        reveal_strlit("");
    }
    let text = "".to_owned();
    assert(text@ =~= Seq::<char>::empty());
    text
}

/// The characters whose code points are the given bytes.
pub open spec fn chars_of(bytes: Seq<u8>) -> Seq<char> {
    Seq::new(bytes.len(), |i: int| bytes[i] as char)
}

/// The hexadecimal text of a byte string.
pub fn hex_text(bytes: &[u8]) -> (text: String)
    ensures
        text@ == chars_of(hex_of(bytes@)),
{
    let digits = hex(bytes);
    let mut text = empty();
    let mut i: usize = 0;
    while i < digits.len()
        invariant
            i <= digits@.len(),
            text@ == chars_of(digits@.take(i as int)),
        decreases digits@.len() - i,
    {
        text.push(digits[i] as char);
        i += 1;
        assert(text@ =~= chars_of(digits@.take(i as int)));
    }
    assert(digits@.take(i as int) =~= digits@);
    text
}

/// The decimal digit of a value below ten.
pub open spec fn decimal_digit(value: int) -> char {
    digit(value) as char
}

/// A number in decimal, without leading zeros.
pub open spec fn decimal(number: nat) -> Seq<char>
    decreases number,
{
    if number < 10 {
        seq![decimal_digit(number as int)]
    } else {
        decimal(number / 10).push(decimal_digit((number % 10) as int))
    }
}

/// The number that a text of decimal digits spells.
pub open spec fn decimal_value(text: Seq<char>) -> int
    decreases text.len(),
{
    if text.len() == 0 {
        0
    } else {
        10 * decimal_value(text.drop_last()) + (text.last() as int - 48)
    }
}

/// A number in decimal spells the number, and starts with a zero only if it is
/// zero.
pub proof fn law_decimal_spells_the_number(number: nat)
    ensures
        decimal_value(decimal(number)) == number,
        decimal(number).len() >= 1,
        forall|i: int| 0 <= i < decimal(number).len() ==> '0' <= #[trigger] decimal(number)[i]
            <= '9',
        number > 0 ==> decimal(number)[0] != '0',
    decreases number,
{
    reveal_with_fuel(decimal_value, 2);
    if number < 10 {
        assert(decimal(number).drop_last() =~= Seq::<char>::empty());
    } else {
        law_decimal_spells_the_number(number / 10);
        assert(decimal(number).drop_last() =~= decimal(number / 10));
    }
}

/// Writes a number in decimal.
pub fn decimal_text(number: u64) -> (text: String)
    ensures
        text@ == decimal(number as nat),
    decreases number,
{
    if number < 10 {
        let mut text = empty();
        text.push((48 + number as u8) as char);
        assert(text@ =~= decimal(number as nat));
        text
    } else {
        let mut text = decimal_text(number / 10);
        text.push((48 + (number % 10) as u8) as char);
        text
    }
}

/// A character as it stands in a JSON string.
pub open spec fn escaped(c: char) -> Seq<char> {
    if c == '"' || c == '\\' {
        seq!['\\', c]
    } else if (c as int) < 32 {
        seq![
            '\\',
            'u',
            '0',
            '0',
            digit(c as int / 16) as char,
            digit(c as int % 16) as char,
        ]
    } else {
        seq![c]
    }
}

/// A text as it stands in a JSON string, without the quotation marks.
pub open spec fn escaped_text(text: Seq<char>) -> Seq<char>
    decreases text.len(),
{
    if text.len() == 0 {
        Seq::empty()
    } else {
        escaped_text(text.drop_last()) + escaped(text.last())
    }
}

/// A text as a JSON string.
pub open spec fn quoted(text: Seq<char>) -> Seq<char> {
    seq!['"'] + escaped_text(text) + seq!['"']
}

/// Puts one more character behind a JSON string that is being written.
fn push_escaped(text: &mut String, c: char)
    ensures
        final(text)@ == old(text)@ + escaped(c),
{
    if c == '"' || c == '\\' {
        text.push('\\');
        text.push(c);
    } else if (c as u32) < 32 {
        let value: u8 = c as u8;
        let high: u8 = value / 16;
        let low: u8 = value % 16;
        text.push('\\');
        text.push('u');
        text.push('0');
        text.push('0');
        text.push((48 + high) as char);
        text.push((if low < 10 { 48 + low } else { 87 + low }) as char);
    } else {
        text.push(c);
    }
    assert(text@ =~= old(text)@ + escaped(c));
}

/// Writes a text as a JSON string.
pub fn quote(text: &str) -> (json: String)
    ensures
        json@ == quoted(text@),
{
    let mut json = empty();
    json.push('"');
    for c in iter: text.chars()
        invariant
            iter.seq() == text@,
            json@ == seq!['"'] + escaped_text(text@.take(iter.index() as int)),
    {
        let ghost done = iter.index() as int;
        push_escaped(&mut json, c);
        proof {
            assert(text@.take(done + 1).drop_last() =~= text@.take(done));
            assert(json@ =~= seq!['"'] + escaped_text(text@.take(done + 1)));
        }
    }
    assert(text@.take(text@.len() as int) =~= text@);
    json.push('"');
    assert(json@ =~= quoted(text@));
    json
}

/// The value of four hexadecimal digits.
pub open spec fn code_point(digits: Seq<char>) -> int {
    4096 * digit_value(digits[0] as u8) + 256 * digit_value(digits[1] as u8) + 16 * digit_value(
        digits[2] as u8,
    ) + digit_value(digits[3] as u8)
}

/// Reads a JSON string behind its opening quotation mark, as far as the closing
/// one: the text, and what follows it. Of the escapes, a backslash before a
/// character other than `u` stands for that character.
pub open spec fn read_string(json: Seq<char>) -> Option<(Seq<char>, Seq<char>)>
    decreases json.len(),
{
    if json.len() == 0 {
        None
    } else if json[0] == '"' {
        Some((Seq::empty(), json.skip(1)))
    } else if json[0] != '\\' {
        before(json[0], read_string(json.skip(1)))
    } else if json.len() >= 2 && json[1] != 'u' {
        before(json[1], read_string(json.skip(2)))
    } else if json.len() >= 6 {
        before(code_point(json.subrange(2, 6)) as char, read_string(json.skip(6)))
    } else {
        None
    }
}

/// What was read, with one more character in front of the text.
pub open spec fn before(c: char, read: Option<(Seq<char>, Seq<char>)>) -> Option<
    (Seq<char>, Seq<char>),
> {
    match read {
        Some((text, rest)) => Some((seq![c] + text, rest)),
        None => None,
    }
}

proof fn lemma_escaped_text_concat(a: Seq<char>, b: Seq<char>)
    ensures
        escaped_text(a + b) == escaped_text(a) + escaped_text(b),
    decreases b.len(),
{
    if b.len() == 0 {
        assert(a + b =~= a);
        assert(escaped_text(a) + escaped_text(b) =~= escaped_text(a));
    } else {
        assert((a + b).drop_last() =~= a + b.drop_last());
        lemma_escaped_text_concat(a, b.drop_last());
        assert(escaped_text(a + b) =~= escaped_text(a) + escaped_text(b));
    }
}

proof fn lemma_escaped_char_is_read(c: char, rest: Seq<char>)
    ensures
        read_string(escaped(c) + rest) == before(c, read_string(rest)),
{
    let json = escaped(c) + rest;
    if c == '"' || c == '\\' {
        assert(json.skip(2) =~= rest);
    } else if (c as int) < 32 {
        assert(json.skip(6) =~= rest);
        assert(json.subrange(2, 6)[0] == '0');
        assert(json.subrange(2, 6)[1] == '0');
        assert(json.subrange(2, 6)[2] == digit(c as int / 16) as char);
        assert(json.subrange(2, 6)[3] == digit(c as int % 16) as char);
        assert(code_point(json.subrange(2, 6)) == c as int);
    } else {
        assert(json.skip(1) =~= rest);
    }
}

/// A JSON string reads back as the text that was quoted, whatever follows it: no
/// text can end its string early or reach into what comes next.
#[verifier::rlimit(50)]
pub proof fn law_quoted_text_reads_back(text: Seq<char>, rest: Seq<char>)
    ensures
        (quoted(text) + rest)[0] == '"',
        read_string((quoted(text) + rest).skip(1)) == Some((text, rest)),
    decreases text.len(),
{
    let json = (quoted(text) + rest).skip(1);
    assert(json =~= escaped_text(text) + (seq!['"'] + rest));
    if text.len() == 0 {
        assert(json =~= seq!['"'] + rest);
        assert(json.skip(1) =~= rest);
        assert(text =~= Seq::<char>::empty());
    } else {
        let head = seq![text[0]];
        let tail = text.skip(1);
        assert(text =~= head + tail);
        lemma_escaped_text_concat(head, tail);
        reveal_with_fuel(escaped_text, 2);
        assert(escaped_text(head) =~= escaped(text[0]));
        law_quoted_text_reads_back(tail, rest);
        let later = (quoted(tail) + rest).skip(1);
        assert(later =~= escaped_text(tail) + (seq!['"'] + rest));
        assert(json =~= escaped(text[0]) + later);
        lemma_escaped_char_is_read(text[0], later);
    }
}

/// No quoted text breaks the line that it stands in: it holds no control
/// character.
pub proof fn law_quoted_text_stays_on_its_line(text: Seq<char>)
    ensures
        forall|i: int| 0 <= i < quoted(text).len() ==> (#[trigger] quoted(text)[i] as int) >= 32,
{
    lemma_escaped_text_printable(text);
}

proof fn lemma_escaped_printable(c: char)
    ensures
        forall|i: int| 0 <= i < escaped(c).len() ==> (#[trigger] escaped(c)[i] as int) >= 32,
{
}

proof fn lemma_escaped_text_printable(text: Seq<char>)
    ensures
        forall|i: int|
            0 <= i < escaped_text(text).len() ==> (#[trigger] escaped_text(text)[i] as int) >= 32,
    decreases text.len(),
{
    if text.len() > 0 {
        let start = escaped_text(text.drop_last());
        let end = escaped(text.last());
        lemma_escaped_text_printable(text.drop_last());
        lemma_escaped_printable(text.last());
        assert forall|i: int| 0 <= i < escaped_text(text).len() implies (#[trigger] escaped_text(
            text,
        )[i] as int) >= 32 by {
            if i < start.len() {
                assert(escaped_text(text)[i] == start[i]);
            } else {
                assert(escaped_text(text)[i] == end[i - start.len()]);
            }
        }
    }
}

} // verus!
