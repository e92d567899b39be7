//! Reading a flat JSON object, field by field.

use vstd::prelude::*;

use crate::text::{escaped, escaped_text, law_quoted_text_reads_back, quoted, read_string};

verus! {

/// The value of a field: a string, or a word without quotation marks, such as a
/// number, `true`, `false` or `null`.
pub enum JsonValue {
    Text(Seq<char>),
    Word(Seq<char>),
}

/// A field: its name and its value.
pub type JsonField = (Seq<char>, JsonValue);

/// Whether a character ends a word.
pub open spec fn ends_word(c: char) -> bool {
    c == ',' || c == '}'
}

/// How many characters stand in front of the end of a word.
pub open spec fn word_len(json: Seq<char>) -> int
    decreases json.len(),
{
    if json.len() == 0 || ends_word(json[0]) {
        0
    } else {
        1 + word_len(json.skip(1))
    }
}

/// Reads a value: what it is, and what follows it.
pub open spec fn read_value(json: Seq<char>) -> Option<(JsonValue, Seq<char>)> {
    if json.len() == 0 {
        None
    } else if json[0] == '"' {
        match read_string(json.skip(1)) {
            Some((text, rest)) => Some((JsonValue::Text(text), rest)),
            None => None,
        }
    } else {
        Some((JsonValue::Word(json.take(word_len(json))), json.skip(word_len(json))))
    }
}

/// Reads a field: its name in quotation marks, a colon and its value.
pub open spec fn read_field(json: Seq<char>) -> Option<(JsonField, Seq<char>)> {
    if json.len() == 0 || json[0] != '"' {
        None
    } else {
        match read_string(json.skip(1)) {
            Some((name, rest)) => if rest.len() == 0 || rest[0] != ':' {
                None
            } else {
                match read_value(rest.skip(1)) {
                    Some((value, end)) => Some(((name, value), end)),
                    None => None,
                }
            },
            None => None,
        }
    }
}

/// Reads the fields of an object behind its opening brace, up to a closing brace
/// with nothing behind it.
pub open spec fn read_fields(json: Seq<char>) -> Option<Seq<JsonField>>
    decreases json.len(),
{
    match read_field(json) {
        Some((field, rest)) => if rest == seq!['}'] {
            Some(seq![field])
        } else if 0 < rest.len() <= json.len() && rest[0] == ',' {
            match read_fields(rest.skip(1)) {
                Some(more) => Some(seq![field] + more),
                None => None,
            }
        } else {
            None
        },
        None => None,
    }
}

/// The fields of a JSON object in the order in which they stand, if the text is
/// such an object and nothing else.
pub open spec fn read_object(json: Seq<char>) -> Option<Seq<JsonField>> {
    if json.len() == 0 || json[0] != '{' {
        None
    } else {
        read_fields(json.skip(1))
    }
}

/// Whether a JSON object has a field with this name and this value, and no other
/// field of the name.
pub open spec fn tells(json: Seq<char>, name: Seq<char>, value: JsonValue) -> bool {
    &&& read_object(json) matches Some(fields)
    &&& fields.contains((name, value))
    &&& forall|i: int|
        0 <= i < fields.len() ==> ((#[trigger] fields[i]).0 == name ==> fields[i].1 == value)
}

/// A value as it is written.
pub open spec fn value_text(value: JsonValue) -> Seq<char> {
    match value {
        JsonValue::Text(text) => quoted(text),
        JsonValue::Word(text) => text,
    }
}

/// A field as it is written.
pub open spec fn field_text(field: JsonField) -> Seq<char> {
    quoted(field.0) + seq![':'] + value_text(field.1)
}

/// Fields as they are written, with a comma between them.
pub open spec fn items_text(fields: Seq<JsonField>) -> Seq<char>
    decreases fields.len(),
{
    if fields.len() == 0 {
        Seq::empty()
    } else if fields.len() == 1 {
        field_text(fields[0])
    } else {
        field_text(fields[0]) + (seq![','] + items_text(fields.skip(1)))
    }
}

/// An object without its closing brace.
pub open spec fn object_start(fields: Seq<JsonField>) -> Seq<char> {
    seq!['{'] + items_text(fields)
}

/// Whether a word can stand as a value: not empty, no string, and without a
/// character that ends it.
pub open spec fn is_word(text: Seq<char>) -> bool {
    &&& text.len() > 0
    &&& text[0] != '"'
    &&& forall|i: int| 0 <= i < text.len() ==> !ends_word(#[trigger] text[i])
}

/// Whether every word among the values of some fields can stand there.
pub open spec fn writable_fields(fields: Seq<JsonField>) -> bool {
    forall|i: int|
        0 <= i < fields.len() ==> ((#[trigger] fields[i]).1 matches JsonValue::Word(text)
            ==> is_word(text))
}

proof fn lemma_word_len(text: Seq<char>, rest: Seq<char>)
    requires
        forall|i: int| 0 <= i < text.len() ==> !ends_word(#[trigger] text[i]),
        rest.len() > 0,
        ends_word(rest[0]),
    ensures
        word_len(text + rest) == text.len(),
    decreases text.len(),
{
    if text.len() == 0 {
        assert(text + rest =~= rest);
    } else {
        let more = text.skip(1);
        assert forall|i: int| 0 <= i < more.len() implies !ends_word(#[trigger] more[i]) by {
            assert(!ends_word(text[i + 1]));
        }
        lemma_word_len(more, rest);
        assert((text + rest).skip(1) =~= more + rest);
        assert(!ends_word(text[0]));
    }
}

proof fn lemma_value_is_read(value: JsonValue, rest: Seq<char>)
    requires
        value matches JsonValue::Word(text) ==> is_word(text),
        rest.len() > 0,
        ends_word(rest[0]),
    ensures
        read_value(value_text(value) + rest) == Some((value, rest)),
{
    match value {
        JsonValue::Text(text) => law_quoted_text_reads_back(text, rest),
        JsonValue::Word(text) => {
            lemma_word_len(text, rest);
            assert((text + rest).take(text.len() as int) =~= text);
            assert((text + rest).skip(text.len() as int) =~= rest);
        },
    }
}

proof fn lemma_field_is_read(field: JsonField, rest: Seq<char>)
    requires
        field.1 matches JsonValue::Word(text) ==> is_word(text),
        rest.len() > 0,
        ends_word(rest[0]),
    ensures
        read_field(field_text(field) + rest) == Some((field, rest)),
        field_text(field).len() > 0,
{
    let later = seq![':'] + value_text(field.1) + rest;
    assert(field_text(field) + rest =~= quoted(field.0) + later);
    law_quoted_text_reads_back(field.0, later);
    assert(later.skip(1) =~= value_text(field.1) + rest);
    lemma_value_is_read(field.1, rest);
}

#[verifier::rlimit(50)]
proof fn lemma_items_are_read(fields: Seq<JsonField>)
    requires
        fields.len() > 0,
        writable_fields(fields),
    ensures
        read_fields(items_text(fields) + seq!['}']) == Some(fields),
    decreases fields.len(),
{
    let field = fields[0];
    let end = seq!['}'];
    if fields.len() == 1 {
        lemma_field_is_read(field, end);
        assert(seq![field] =~= fields);
    } else {
        let more = fields.skip(1);
        assert(writable_fields(more)) by {
            assert forall|i: int| 0 <= i < more.len() && (#[trigger] more[i]).1 is Word implies is_word(
                more[i].1->Word_0,
            ) by {
                assert(more[i] == fields[i + 1]);
            }
        }
        lemma_items_are_read(more);
        let rest = seq![','] + (items_text(more) + end);
        let json = items_text(fields) + end;
        assert(json =~= field_text(field) + rest);
        lemma_field_is_read(field, rest);
        assert(rest.skip(1) =~= items_text(more) + end);
        assert(rest[0] == ',');
        assert(rest != end);
        assert(seq![field] + more =~= fields);
    }
}

/// What was written as an object reads back as the fields that were written, in
/// their order.
pub proof fn law_object_reads_back(fields: Seq<JsonField>)
    requires
        fields.len() > 0,
        writable_fields(fields),
    ensures
        read_object(object_start(fields) + seq!['}']) == Some(fields),
{
    let json = object_start(fields) + seq!['}'];
    assert(json.skip(1) =~= items_text(fields) + seq!['}']);
    lemma_items_are_read(fields);
}

proof fn lemma_items_push(fields: Seq<JsonField>, field: JsonField)
    requires
        fields.len() > 0,
    ensures
        items_text(fields.push(field)) == items_text(fields) + seq![','] + field_text(field),
    decreases fields.len(),
{
    let all = fields.push(field);
    if fields.len() == 1 {
        assert(all.skip(1) =~= seq![field]);
        assert(items_text(seq![field]) == field_text(field));
        assert(items_text(all) =~= items_text(fields) + seq![','] + field_text(field));
    } else {
        let more = fields.skip(1);
        lemma_items_push(more, field);
        assert(all.skip(1) =~= more.push(field));
        assert(items_text(all) =~= items_text(fields) + seq![','] + field_text(field));
    }
}

/// Whether a text stands in a JSON string as it is.
pub open spec fn is_plain(text: Seq<char>) -> bool {
    forall|i: int|
        0 <= i < text.len() ==> (#[trigger] text[i]) != '"' && text[i] != '\\' && text[i] as int
            >= 32
}

/// A text without quotation marks, backslashes and control characters is quoted
/// as it is.
pub proof fn law_plain_text_is_quoted_as_it_is(text: Seq<char>)
    requires
        is_plain(text),
    ensures
        quoted(text) == seq!['"'] + text + seq!['"'],
{
    lemma_plain(text);
}

proof fn lemma_plain(text: Seq<char>)
    requires
        is_plain(text),
    ensures
        escaped_text(text) == text,
    decreases text.len(),
{
    if text.len() > 0 {
        let start = text.drop_last();
        assert forall|i: int| 0 <= i < start.len() implies (#[trigger] start[i]) != '"' && start[i]
            != '\\' && start[i] as int >= 32 by {
            assert(start[i] == text[i]);
        }
        lemma_plain(start);
        let last = text[text.len() - 1];
        assert(last != '"' && last != '\\' && last as int >= 32);
        assert(escaped(last) == seq![last]);
        assert(escaped_text(text) =~= text);
    } else {
        assert(escaped_text(text) =~= text);
    }
}

/// The first field of an object.
pub proof fn lemma_first_field(name: Seq<char>, value: JsonValue, label: Seq<char>)
    requires
        is_plain(name),
        label == seq!['{', '"'] + name + seq!['"', ':'],
    ensures
        object_start(seq![(name, value)]) == label + value_text(value),
{
    law_plain_text_is_quoted_as_it_is(name);
    assert(object_start(seq![(name, value)]) =~= label + value_text(value));
}

/// One more field of an object.
pub proof fn lemma_next_field(
    fields: Seq<JsonField>,
    name: Seq<char>,
    value: JsonValue,
    label: Seq<char>,
)
    requires
        fields.len() > 0,
        is_plain(name),
        label == seq![',', '"'] + name + seq!['"', ':'],
    ensures
        object_start(fields.push((name, value))) == object_start(fields) + label + value_text(
            value,
        ),
{
    law_plain_text_is_quoted_as_it_is(name);
    lemma_items_push(fields, (name, value));
    assert(object_start(fields.push((name, value))) =~= object_start(fields) + label + value_text(
        value,
    ));
}

} // verus!
