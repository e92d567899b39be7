//! What the texts of identities look like, digit by digit.

use vstd::prelude::*;

use crate::bytes::{has_prefix, lemma_ascii, utf8};
use crate::oid::{
    digit, hex_of, law_text_names_one_identity, law_text_round_trip, law_unhex_of_hex,
    lemma_oid_named, oid_named, GitHashAlgorithm, GitOid,
};

verus! {

/// The hexadecimal digits in the order of their values.
pub open spec fn hex_alphabet() -> Seq<char> {
    "0123456789abcdef"@
}

/// The hexadecimal text of some bytes, as characters.
pub open spec fn hex_chars(bytes: Seq<u8>) -> Seq<char> {
    Seq::new(
        2 * bytes.len(),
        |i: int|
            hex_alphabet()[if i % 2 == 0 {
                bytes[i / 2] as int / 16
            } else {
                bytes[i / 2] as int % 16
            }],
    )
}

/// A digit is the character at the place of its value.
pub proof fn lemma_digit_in_alphabet(value: int)
    requires
        0 <= value < 16,
    ensures
        hex_alphabet()[value] == digit(value) as char,
        digit(value) < 128,
{
    reveal_strlit("0123456789abcdef");
    assert(value == 0 || value == 1 || value == 2 || value == 3 || value == 4 || value == 5
        || value == 6 || value == 7 || value == 8 || value == 9 || value == 10 || value == 11
        || value == 12 || value == 13 || value == 14 || value == 15);
}

/// Each byte is written as two lowercase digits, the higher one first.
pub proof fn law_bytes_are_written_high_digit_first(bytes: Seq<u8>, i: int)
    requires
        0 <= i < bytes.len(),
    ensures
        hex_of(bytes).len() == 2 * bytes.len(),
        hex_of(bytes)[2 * i] as char == "0123456789abcdef"@[bytes[i] as int / 16],
        hex_of(bytes)[2 * i + 1] as char == "0123456789abcdef"@[bytes[i] as int % 16],
{
    lemma_digit_in_alphabet(bytes[i] as int / 16);
    lemma_digit_in_alphabet(bytes[i] as int % 16);
    assert((2 * i) / 2 == i && (2 * i) % 2 == 0);
    assert((2 * i + 1) / 2 == i && (2 * i + 1) % 2 == 1);
}

/// A text names an identity exactly where it is the identity's own text, in the
/// identity's own domain.
pub proof fn law_text_names_its_identity_alone(
    format: GitHashAlgorithm,
    text: Seq<u8>,
    id: GitOid,
)
    ensures
        oid_named(format, text) == Some(id) <==> id.domain() == format && id.text() == text,
{
    lemma_oid_named(format, text);
    law_text_round_trip(id);
    if let Some(named) = oid_named(format, text) {
        if id.domain() == format && id.text() == text {
            law_text_names_one_identity(named, id);
        }
    }
}

/// A digest has 20 bytes in the one domain and 32 in the other, and the texts are
/// twice as long.
pub proof fn law_domain_fixes_the_length(id: GitOid)
    ensures
        id.domain() == GitHashAlgorithm::Sha1 <==> id.digest().len() == 20,
        id.domain() == GitHashAlgorithm::Sha256 <==> id.digest().len() == 32,
        id.text().len() == 2 * id.digest().len(),
        id.domain().width() == id.digest().len(),
{
}

/// The name of a domain goes with the length of its digests.
pub proof fn law_domain_name_goes_with_the_length(id: GitOid)
    ensures
        id.domain().name() == (if id.digest().len() == 32 {
            "sha256"@
        } else {
            "sha1"@
        }),
{
}

/// An identity is zero exactly where its text consists of the digit `0`.
pub proof fn law_zero_is_all_zero_digits(id: GitOid)
    ensures
        id.zero() <==> forall|i: int|
            0 <= i < id.text().len() ==> #[trigger] id.text()[i] as char == '0',
{
    let bytes = id.digest();
    if id.zero() {
        assert forall|i: int| 0 <= i < id.text().len() implies #[trigger] id.text()[i] as char
            == '0' by {
            assert(bytes[i / 2] == 0);
        }
    }
    if forall|i: int| 0 <= i < id.text().len() ==> #[trigger] id.text()[i] as char == '0' {
        law_unhex_of_hex(bytes);
        assert forall|i: int| 0 <= i < bytes.len() implies #[trigger] bytes[i] == 0 by {
            assert(id.text()[2 * i] as char == '0');
            assert(id.text()[2 * i + 1] as char == '0');
            assert((2 * i) / 2 == i && (2 * i) % 2 == 0);
            assert((2 * i + 1) / 2 == i && (2 * i + 1) % 2 == 1);
            lemma_zero_digit(bytes[i] as int / 16);
            lemma_zero_digit(bytes[i] as int % 16);
        }
    }
}

proof fn lemma_zero_digit(value: int)
    requires
        0 <= value < 16,
        digit(value) as char == '0',
    ensures
        value == 0,
{
}

/// A text begins with a prefix exactly where it is the prefix and something more.
pub proof fn law_prefix_stands_in_front(text: Seq<u8>, prefix: Seq<u8>)
    ensures
        has_prefix(text, prefix) <==> exists|rest: Seq<u8>| text == #[trigger] (prefix + rest),
{
    if has_prefix(text, prefix) {
        assert(text =~= prefix + text.skip(prefix.len() as int));
    }
    if exists|rest: Seq<u8>| text == #[trigger] (prefix + rest) {
        let rest = choose|rest: Seq<u8>| text == #[trigger] (prefix + rest);
        assert(text.take(prefix.len() as int) =~= prefix);
    }
}

/// What a capability list says of the domain: its name behind the equals sign.
pub proof fn lemma_domain_words()
    ensures
        utf8("report-status atomic object-format=sha1") == utf8(
            "report-status atomic object-format=",
        ) + utf8("sha1"),
        utf8("report-status atomic object-format=sha256") == utf8(
            "report-status atomic object-format=",
        ) + utf8("sha256"),
{
    reveal_strlit("report-status atomic object-format=sha1");
    reveal_strlit("report-status atomic object-format=sha256");
    reveal_strlit("report-status atomic object-format=");
    reveal_strlit("sha1");
    reveal_strlit("sha256");
    lemma_ascii("report-status atomic object-format=sha1");
    lemma_ascii("report-status atomic object-format=sha256");
    lemma_ascii("report-status atomic object-format=");
    lemma_ascii("sha1");
    lemma_ascii("sha256");
    assert(utf8("report-status atomic object-format=sha1") =~= utf8(
        "report-status atomic object-format=",
    ) + utf8("sha1"));
    assert(utf8("report-status atomic object-format=sha256") =~= utf8(
        "report-status atomic object-format=",
    ) + utf8("sha256"));
}

} // verus!
