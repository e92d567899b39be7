//! Native object identities: hash domains, digests and their hexadecimal text.

use vstd::prelude::*;

verus! {

/// The two native hash domains.
#[derive(Clone, Copy, PartialEq, Eq, Debug, Structural)]
pub enum GitHashAlgorithm {
    Sha1,
    Sha256,
}

impl GitHashAlgorithm {
    /// Bytes in a digest of this domain.
    pub open spec fn width(self) -> nat {
        match self {
            GitHashAlgorithm::Sha1 => 20,
            GitHashAlgorithm::Sha256 => 32,
        }
    }

    /// The name that a bundle header and a capability list give the domain.
    pub open spec fn name(self) -> Seq<char> {
        match self {
            GitHashAlgorithm::Sha1 => "sha1"@,
            GitHashAlgorithm::Sha256 => "sha256"@,
        }
    }

    pub fn digest_len(self) -> (len: usize)
        ensures
            len == self.width(),
    {
        match self {
            GitHashAlgorithm::Sha1 => 20,
            GitHashAlgorithm::Sha256 => 32,
        }
    }

    pub fn as_str(self) -> (text: &'static str)
        ensures
            text@ == self.name(),
    {
        match self {
            GitHashAlgorithm::Sha1 => "sha1",
            GitHashAlgorithm::Sha256 => "sha256",
        }
    }
}

/// The lowercase hexadecimal digit of a value below sixteen.
pub open spec fn digit(value: int) -> u8 {
    if value < 10 {
        (48 + value) as u8
    } else {
        (87 + value) as u8
    }
}

/// The lowercase hexadecimal text of a byte string, two digits for each byte.
pub open spec fn hex_of(bytes: Seq<u8>) -> Seq<u8> {
    Seq::new(
        2 * bytes.len(),
        |i: int|
            if i % 2 == 0 {
                digit(bytes[i / 2] as int / 16)
            } else {
                digit(bytes[i / 2] as int % 16)
            },
    )
}

/// Whether a byte is one of `0` to `9` and `a` to `f`.
pub open spec fn is_digit(byte: u8) -> bool {
    48 <= byte <= 57 || 97 <= byte <= 102
}

/// Whether a text consists of lowercase hexadecimal digits alone.
pub open spec fn all_digits(text: Seq<u8>) -> bool {
    forall|i: int| 0 <= i < text.len() ==> is_digit(#[trigger] text[i])
}

/// The value of a lowercase hexadecimal digit.
pub open spec fn digit_value(byte: u8) -> int {
    if byte <= 57 {
        byte - 48
    } else {
        byte - 87
    }
}

/// The bytes whose hexadecimal text is `text`.
pub open spec fn unhex_of(text: Seq<u8>) -> Seq<u8> {
    Seq::new(
        text.len() / 2,
        |i: int| (16 * digit_value(text[2 * i]) + digit_value(text[2 * i + 1])) as u8,
    )
}

proof fn lemma_digit(value: int)
    requires
        0 <= value < 16,
    ensures
        is_digit(digit(value)),
        digit_value(digit(value)) == value,
{
}

/// Decoding the hexadecimal text of some bytes gives the bytes back.
pub proof fn law_unhex_of_hex(bytes: Seq<u8>)
    ensures
        all_digits(hex_of(bytes)),
        hex_of(bytes).len() == 2 * bytes.len(),
        unhex_of(hex_of(bytes)) == bytes,
{
    let text = hex_of(bytes);
    assert forall|i: int| 0 <= i < text.len() implies is_digit(#[trigger] text[i]) by {
        lemma_digit(bytes[i / 2] as int / 16);
        lemma_digit(bytes[i / 2] as int % 16);
    }
    assert forall|i: int| 0 <= i < bytes.len() implies #[trigger] unhex_of(text)[i] == bytes[i] by {
        lemma_digit(bytes[i] as int / 16);
        lemma_digit(bytes[i] as int % 16);
        assert((2 * i) / 2 == i && (2 * i) % 2 == 0);
        assert((2 * i + 1) / 2 == i && (2 * i + 1) % 2 == 1);
    }
    assert(unhex_of(text) =~= bytes);
}

/// Writing out the bytes of a canonical hexadecimal text gives the text back.
pub proof fn law_hex_of_unhex(text: Seq<u8>)
    requires
        all_digits(text),
        text.len() % 2 == 0,
    ensures
        hex_of(unhex_of(text)) == text,
{
    let bytes = unhex_of(text);
    assert forall|i: int| 0 <= i < text.len() implies #[trigger] hex_of(bytes)[i] == text[i] by {
        let k = i / 2;
        assert(is_digit(text[2 * k]) && is_digit(text[2 * k + 1]));
        let high = digit_value(text[2 * k]);
        let low = digit_value(text[2 * k + 1]);
        assert(bytes[k] as int == 16 * high + low);
        assert((16 * high + low) / 16 == high);
        assert((16 * high + low) % 16 == low);
    }
    assert(hex_of(bytes) =~= text);
}

/// An object identity: a digest in one of the native hash domains.
#[derive(Clone, Copy, Debug)]
pub enum GitOid {
    Sha1([u8; 20]),
    Sha256([u8; 32]),
}

impl GitOid {
    /// The domain of the digest.
    pub open spec fn domain(self) -> GitHashAlgorithm {
        match self {
            GitOid::Sha1(_) => GitHashAlgorithm::Sha1,
            GitOid::Sha256(_) => GitHashAlgorithm::Sha256,
        }
    }

    /// The bytes of the digest.
    pub open spec fn digest(self) -> Seq<u8> {
        match self {
            GitOid::Sha1(bytes) => bytes@,
            GitOid::Sha256(bytes) => bytes@,
        }
    }

    /// The canonical text of the identity.
    pub open spec fn text(self) -> Seq<u8> {
        hex_of(self.digest())
    }

    /// The identity that names no object.
    pub open spec fn zero(self) -> bool {
        forall|i: int| 0 <= i < self.digest().len() ==> #[trigger] self.digest()[i] == 0
    }
}

/// Whether a text is the canonical text of some identity of the domain.
pub open spec fn canonical(format: GitHashAlgorithm, text: Seq<u8>) -> bool {
    text.len() == 2 * format.width() && all_digits(text)
}

/// The identity that a text names in a domain, if its form is canonical.
pub open spec fn oid_named(format: GitHashAlgorithm, text: Seq<u8>) -> Option<GitOid> {
    if canonical(format, text) {
        Some(choose|id: GitOid| id.domain() == format && #[trigger] id.text() == text)
    } else {
        None
    }
}

/// Two identities with one domain and one text are the same identity.
pub proof fn law_text_names_one_identity(a: GitOid, b: GitOid)
    requires
        a.domain() == b.domain(),
        a.text() == b.text(),
    ensures
        a == b,
{
    law_unhex_of_hex(a.digest());
    law_unhex_of_hex(b.digest());
    lemma_same_digest(a, b);
}

proof fn lemma_same_digest(a: GitOid, b: GitOid)
    requires
        a.domain() == b.domain(),
        a.digest() == b.digest(),
    ensures
        a == b,
{
    match (a, b) {
        (GitOid::Sha1(x), GitOid::Sha1(y)) => {
            assert forall|i: int| 0 <= i < 20 implies x[i] == y[i] by {
                assert(x@[i] == y@[i]);
            }
            assert(x =~= y);
        },
        (GitOid::Sha256(x), GitOid::Sha256(y)) => {
            assert forall|i: int| 0 <= i < 32 implies x[i] == y[i] by {
                assert(x@[i] == y@[i]);
            }
            assert(x =~= y);
        },
        _ => {},
    }
}

/// The text of an identity is canonical, and names that identity.
pub proof fn law_text_round_trip(id: GitOid)
    ensures
        canonical(id.domain(), id.text()),
        oid_named(id.domain(), id.text()) == Some(id),
{
    law_unhex_of_hex(id.digest());
    let named = choose|other: GitOid|
        other.domain() == id.domain() && #[trigger] other.text() == id.text();
    assert(id.domain() == id.domain() && id.text() == id.text());
    law_text_names_one_identity(named, id);
}

/// An array that begins with the first `count` bytes of a sequence.
spec fn packed<const N: usize>(bytes: Seq<u8>, count: nat) -> [u8; N]
    decreases count,
{
    if count == 0 {
        vstd::array::spec_array_fill_for_copy_type::<u8, N>(0)
    } else {
        let last = (count - 1) as nat;
        vstd::array::spec_array_update(packed::<N>(bytes, last), last as int, bytes[last as int])
    }
}

proof fn lemma_packed<const N: usize>(bytes: Seq<u8>, count: nat)
    requires
        count <= N,
        bytes.len() >= count,
    ensures
        forall|i: int| 0 <= i < count ==> #[trigger] packed::<N>(bytes, count)@[i] == bytes[i],
    decreases count,
{
    if count > 0 {
        let last = (count - 1) as nat;
        lemma_packed::<N>(bytes, last);
        let before = packed::<N>(bytes, last);
        let after = packed::<N>(bytes, count);
        assert(after == vstd::array::spec_array_update(before, last as int, bytes[last as int]));
        assert(after@ == before@.update(last as int, bytes[last as int]));
        assert forall|i: int| 0 <= i < count implies #[trigger] after@[i] == bytes[i] by {
            if i < last {
                assert(before@[i] == bytes[i]);
            }
        }
    }
}

/// An identity that a text names has that text.
pub proof fn lemma_oid_named(format: GitHashAlgorithm, text: Seq<u8>)
    ensures
        oid_named(format, text) matches Some(id) ==> id.domain() == format && id.text() == text,
{
    if canonical(format, text) {
        let bytes = unhex_of(text);
        law_hex_of_unhex(text);
        let id = match format {
            GitHashAlgorithm::Sha1 => GitOid::Sha1(packed::<20>(bytes, 20)),
            GitHashAlgorithm::Sha256 => GitOid::Sha256(packed::<32>(bytes, 32)),
        };
        lemma_packed::<20>(bytes, if format is Sha1 { 20 } else { 0 });
        lemma_packed::<32>(bytes, if format is Sha256 { 32 } else { 0 });
        assert(id.digest() =~= bytes);
        assert(id.domain() == format && id.text() == text);
    }
}

impl PartialEq for GitOid {
    fn eq(&self, other: &GitOid) -> (same: bool) {
        match (self, other) {
            (GitOid::Sha1(x), GitOid::Sha1(y)) => {
                let mut i: usize = 0;
                while i < 20
                    invariant
                        i <= 20,
                        self == GitOid::Sha1(*x),
                        other == GitOid::Sha1(*y),
                        forall|j: int| 0 <= j < i ==> x[j] == y[j],
                    decreases 20 - i,
                {
                    if x[i] != y[i] {
                        return false;
                    }
                    i += 1;
                }
                assert(x =~= y);
                true
            },
            (GitOid::Sha256(x), GitOid::Sha256(y)) => {
                let mut i: usize = 0;
                while i < 32
                    invariant
                        i <= 32,
                        self == GitOid::Sha256(*x),
                        other == GitOid::Sha256(*y),
                        forall|j: int| 0 <= j < i ==> x[j] == y[j],
                    decreases 32 - i,
                {
                    if x[i] != y[i] {
                        return false;
                    }
                    i += 1;
                }
                assert(x =~= y);
                true
            },
            _ => false,
        }
    }
}

impl vstd::std_specs::cmp::PartialEqSpecImpl for GitOid {
    open spec fn obeys_eq_spec() -> bool {
        true
    }

    open spec fn eq_spec(&self, other: &GitOid) -> bool {
        *self == *other
    }
}

impl Eq for GitOid {
}

/// The lowercase hexadecimal digit of a value below sixteen.
fn digit_of(value: u8) -> (byte: u8)
    requires
        value < 16,
    ensures
        byte == digit(value as int),
{
    if value < 10 {
        48 + value
    } else {
        87 + value
    }
}

/// The value of a lowercase hexadecimal digit, or nothing for any other byte.
fn value_of(byte: u8) -> (value: Option<u8>)
    ensures
        value is Some <==> is_digit(byte),
        value matches Some(v) ==> v == digit_value(byte) && v < 16,
{
    if 48 <= byte && byte <= 57 {
        Some(byte - 48)
    } else if 97 <= byte && byte <= 102 {
        Some(byte - 87)
    } else {
        None
    }
}

/// The lowercase hexadecimal text of some bytes.
pub fn hex(bytes: &[u8]) -> (text: Vec<u8>)
    ensures
        text@ == hex_of(bytes@),
{
    let mut text: Vec<u8> = Vec::new();
    let mut i: usize = 0;
    while i < bytes.len()
        invariant
            i <= bytes@.len(),
            text@ == hex_of(bytes@.take(i as int)),
        decreases bytes@.len() - i,
    {
        let byte = bytes[i];
        text.push(digit_of(byte / 16));
        text.push(digit_of(byte % 16));
        proof {
            let before = bytes@.take(i as int);
            let after = bytes@.take(i + 1);
            assert forall|j: int| 0 <= j < text@.len() implies text@[j] == hex_of(after)[j] by {
                if j < 2 * i {
                    assert(hex_of(before)[j] == hex_of(after)[j]) by {
                        assert(before[j / 2] == after[j / 2]);
                    }
                } else {
                    assert(j / 2 == i);
                }
            }
            assert(text@ =~= hex_of(after));
        }
        i += 1;
    }
    proof {
        assert(bytes@.take(i as int) =~= bytes@);
    }
    text
}

/// The bytes of a lowercase hexadecimal text that holds at most `limit` bytes.
///
/// Uppercase digits, an odd number of digits and longer texts are refused.
pub fn unhex(text: &[u8], limit: usize) -> (bytes: Option<Vec<u8>>)
    ensures
        bytes is Some <==> all_digits(text@) && text@.len() % 2 == 0 && text@.len() / 2 <= limit,
        bytes matches Some(b) ==> b@ == unhex_of(text@) && hex_of(b@) == text@,
{
    if text.len() % 2 != 0 || text.len() / 2 > limit {
        return None;
    }
    let mut bytes: Vec<u8> = Vec::new();
    let mut i: usize = 0;
    while i < text.len() / 2
        invariant
            i <= text@.len() / 2,
            text@.len() % 2 == 0,
            bytes@ == unhex_of(text@.take(2 * i)),
            all_digits(text@.take(2 * i)),
        decreases text@.len() / 2 - i,
    {
        let high = value_of(text[2 * i]);
        let low = value_of(text[2 * i + 1]);
        match (high, low) {
            (Some(h), Some(l)) => {
                bytes.push(16 * h + l);
                proof {
                    let before = text@.take(2 * i);
                    let after = text@.take(2 * i + 2);
                    assert forall|j: int| 0 <= j < after.len() implies is_digit(
                        #[trigger] after[j],
                    ) by {
                        if j < 2 * i {
                            assert(before[j] == after[j]);
                        }
                    }
                    assert forall|j: int| 0 <= j <= i implies bytes@[j] == unhex_of(after)[j] by {
                        if j < i {
                            assert(unhex_of(before)[j] == unhex_of(after)[j]) by {
                                assert(before[2 * j] == after[2 * j]);
                                assert(before[2 * j + 1] == after[2 * j + 1]);
                            }
                        }
                    }
                    assert(bytes@ =~= unhex_of(after));
                }
            },
            _ => {
                assert(!is_digit(text@[2 * i]) || !is_digit(text@[2 * i + 1]));
                return None;
            },
        }
        i += 1;
    }
    proof {
        assert(text@.take(2 * i) =~= text@);
        law_hex_of_unhex(text@);
    }
    Some(bytes)
}

impl GitOid {
    /// Reads an identity from its canonical text: exactly two lowercase
    /// hexadecimal digits for each byte of the domain's digest.
    pub fn from_hex(format: GitHashAlgorithm, text: &[u8]) -> (id: Option<GitOid>)
        ensures
            id == oid_named(format, text@),
            id matches Some(found) ==> found.domain() == format && found.text() == text@,
    {
        if text.len() != 2 * format.digest_len() {
            return None;
        }
        let bytes = match unhex(text, format.digest_len()) {
            Some(bytes) => bytes,
            None => return None,
        };
        let id = match format {
            GitHashAlgorithm::Sha1 => {
                let mut digest: [u8; 20] = [0; 20];
                let mut i: usize = 0;
                while i < 20
                    invariant
                        i <= 20,
                        bytes@.len() == 20,
                        forall|j: int| 0 <= j < i ==> digest@[j] == bytes@[j],
                    decreases 20 - i,
                {
                    digest[i] = bytes[i];
                    i += 1;
                }
                assert(digest@ =~= bytes@);
                GitOid::Sha1(digest)
            },
            GitHashAlgorithm::Sha256 => {
                let mut digest: [u8; 32] = [0; 32];
                let mut i: usize = 0;
                while i < 32
                    invariant
                        i <= 32,
                        bytes@.len() == 32,
                        forall|j: int| 0 <= j < i ==> digest@[j] == bytes@[j],
                    decreases 32 - i,
                {
                    digest[i] = bytes[i];
                    i += 1;
                }
                assert(digest@ =~= bytes@);
                GitOid::Sha256(digest)
            },
        };
        proof {
            law_text_round_trip(id);
        }
        Some(id)
    }

    /// The domain of the identity.
    pub fn algorithm(&self) -> (format: GitHashAlgorithm)
        ensures
            format == self.domain(),
    {
        match self {
            GitOid::Sha1(_) => GitHashAlgorithm::Sha1,
            GitOid::Sha256(_) => GitHashAlgorithm::Sha256,
        }
    }

    /// The digest bytes.
    pub fn as_bytes(&self) -> (bytes: &[u8])
        ensures
            bytes@ == self.digest(),
    {
        match self {
            GitOid::Sha1(digest) => digest.as_slice(),
            GitOid::Sha256(digest) => digest.as_slice(),
        }
    }

    /// Whether this is the identity that names no object.
    pub fn is_zero(&self) -> (zero: bool)
        ensures
            zero == self.zero(),
    {
        let bytes = self.as_bytes();
        let mut i: usize = 0;
        while i < bytes.len()
            invariant
                i <= bytes@.len(),
                bytes@ == self.digest(),
                forall|j: int| 0 <= j < i ==> #[trigger] bytes@[j] == 0,
            decreases bytes@.len() - i,
        {
            if bytes[i] != 0 {
                assert(self.digest()[i as int] != 0);
                return false;
            }
            i += 1;
        }
        true
    }

    /// The canonical text of the identity.
    pub fn to_hex(&self) -> (text: Vec<u8>)
        ensures
            text@ == self.text(),
    {
        hex(self.as_bytes())
    }
}

} // verus!
