//! The bytes of trees and commits, and the loose form in which they are stored.

use vstd::prelude::*;

use crate::bytes::{append_bytes, utf8};
use crate::oid::GitOid;
use crate::text::{decimal, decimal_text};

verus! {

/// One entry of a tree.
#[derive(Debug, PartialEq, Eq)]
pub struct TreeEntry {
    pub name: Vec<u8>,
    pub mode: u32,
    pub id: GitOid,
}

/// A number in octal, without leading zeros, as ASCII bytes.
pub open spec fn octal(number: nat) -> Seq<u8>
    decreases number,
{
    if number < 8 {
        seq![(48 + number) as u8]
    } else {
        octal(number / 8).push((48 + number % 8) as u8)
    }
}

/// Writes a number in octal.
fn octal_bytes(number: u32) -> (text: Vec<u8>)
    ensures
        text@ == octal(number as nat),
    decreases number,
{
    if number < 8 {
        let mut text: Vec<u8> = Vec::new();
        text.push(48 + number as u8);
        assert(text@ =~= octal(number as nat));
        text
    } else {
        let mut text = octal_bytes(number / 8);
        text.push(48 + (number % 8) as u8);
        text
    }
}

/// An entry of a tree: its mode, its name and the digest of its object.
pub open spec fn entry_bytes(entry: TreeEntry) -> Seq<u8> {
    octal(entry.mode as nat) + seq![32u8] + entry.name@ + seq![0u8] + entry.id.digest()
}

/// The first `count` entries of a tree, one behind the other.
pub open spec fn tree_bytes(entries: Seq<TreeEntry>, count: int) -> Seq<u8>
    decreases count,
{
    if count <= 0 {
        Seq::empty()
    } else {
        tree_bytes(entries, count - 1) + entry_bytes(entries[count - 1])
    }
}

/// Writes the body of a tree, its entries in the order given.
pub fn tree(entries: &[TreeEntry]) -> (body: Vec<u8>)
    ensures
        body@ == tree_bytes(entries@, entries@.len() as int),
{
    let mut body: Vec<u8> = Vec::new();
    let mut i: usize = 0;
    assert(body@ =~= tree_bytes(entries@, 0));
    while i < entries.len()
        invariant
            i <= entries@.len(),
            body@ == tree_bytes(entries@, i as int),
        decreases entries@.len() - i,
    {
        let entry = &entries[i];
        let ghost before = body@;
        append_bytes(&mut body, octal_bytes(entry.mode).as_slice());
        body.push(32);
        append_bytes(&mut body, entry.name.as_slice());
        body.push(0);
        append_bytes(&mut body, entry.id.as_bytes());
        assert(body@ =~= before + entry_bytes(entries@[i as int]));
        i += 1;
    }
    body
}

/// The parent line of a commit, if it has a parent.
pub open spec fn parent_line(parent: Option<GitOid>) -> Seq<u8> {
    match parent {
        Some(id) => utf8("parent ") + id.text() + seq![10u8],
        None => Seq::empty(),
    }
}

/// The body of a commit by the tester, with at most one parent.
pub open spec fn commit_bytes(tree: GitOid, parent: Option<GitOid>, label: Seq<u8>) -> Seq<u8> {
    utf8("tree ") + tree.text() + seq![10u8] + parent_line(parent) + utf8(
        "author Test <test@example.invalid> 1 +0000\ncommitter Test <test@example.invalid> 1 +0000\n\n",
    ) + label + seq![10u8]
}

/// Writes the body of a commit by the tester, with at most one parent.
pub fn commit(tree: GitOid, parent: Option<GitOid>, label: &str) -> (body: Vec<u8>)
    ensures
        body@ == commit_bytes(tree, parent, utf8(label)),
{
    let mut body: Vec<u8> = Vec::new();
    append_bytes(&mut body, "tree ".as_bytes());
    append_bytes(&mut body, tree.to_hex().as_slice());
    body.push(10);
    assert(body@ =~= utf8("tree ") + tree.text() + seq![10u8]);
    let ghost start = body@;
    if let Some(id) = parent {
        append_bytes(&mut body, "parent ".as_bytes());
        append_bytes(&mut body, id.to_hex().as_slice());
        body.push(10);
    }
    assert(body@ =~= start + parent_line(parent));
    append_bytes(
        &mut body,
        "author Test <test@example.invalid> 1 +0000\ncommitter Test <test@example.invalid> 1 +0000\n\n".as_bytes(),
    );
    append_bytes(&mut body, label.as_bytes());
    body.push(10);
    assert(body@ =~= commit_bytes(tree, parent, utf8(label)));
    body
}

/// The two running sums of an Adler-32 checksum.
pub open spec fn adler(bytes: Seq<u8>) -> (int, int)
    decreases bytes.len(),
{
    if bytes.len() == 0 {
        (1, 0)
    } else {
        let (a, b) = adler(bytes.drop_last());
        let next = (a + bytes.last()) % 65521;
        (next, (b + next) % 65521)
    }
}

/// Computes the two running sums of an Adler-32 checksum.
fn adler_sums(bytes: &[u8]) -> (sums: (u32, u32))
    ensures
        (sums.0 as int, sums.1 as int) == adler(bytes@),
        sums.0 < 65521,
        sums.1 < 65521,
{
    let mut a: u32 = 1;
    let mut b: u32 = 0;
    let mut i: usize = 0;
    assert(bytes@.take(0) =~= Seq::<u8>::empty());
    while i < bytes.len()
        invariant
            i <= bytes@.len(),
            a < 65521,
            b < 65521,
            (a as int, b as int) == adler(bytes@.take(i as int)),
        decreases bytes@.len() - i,
    {
        proof {
            let longer = bytes@.take(i + 1);
            assert(longer.drop_last() =~= bytes@.take(i as int));
        }
        a = (a + bytes[i] as u32) % 65521;
        b = (b + a) % 65521;
        i += 1;
    }
    assert(bytes@.take(i as int) =~= bytes@);
    (a, b)
}

/// An object with its kind and size in front, as its identity is taken of it.
pub open spec fn framed(label: Seq<u8>, body: Seq<u8>) -> Seq<u8> {
    label + seq![32u8] + vstd::utf8::encode_utf8(decimal(body.len())) + seq![0u8] + body
}

/// The low byte of a number below 65536, and its high byte.
pub open spec fn low_high(number: int) -> Seq<u8> {
    seq![(number % 256) as u8, (number / 256) as u8]
}

/// The high byte of a number below 65536, and its low byte.
pub open spec fn high_low(number: int) -> Seq<u8> {
    seq![(number / 256) as u8, (number % 256) as u8]
}

/// A byte string as a zlib stream of one stored block.
pub open spec fn stored(bytes: Seq<u8>) -> Seq<u8> {
    seq![0x78u8, 0x01u8, 0x01u8] + low_high(bytes.len() as int) + low_high(65535 - bytes.len())
        + bytes + high_low(adler(bytes).1) + high_low(adler(bytes).0)
}

/// Writes an object in its loose form: framed, as a zlib stream of one stored
/// block. A block holds at most 65535 bytes.
pub fn loose(label: &str, body: &[u8]) -> (encoded: Vec<u8>)
    requires
        framed(utf8(label), body@).len() <= 65535,
    ensures
        encoded@ == stored(framed(utf8(label), body@)),
{
    let mut bytes: Vec<u8> = Vec::new();
    append_bytes(&mut bytes, label.as_bytes());
    bytes.push(32);
    append_bytes(&mut bytes, decimal_text(body.len() as u64).as_str().as_bytes());
    bytes.push(0);
    append_bytes(&mut bytes, body);
    assert(bytes@ =~= framed(utf8(label), body@));
    let length: usize = bytes.len();
    let rest: usize = 65535 - length;
    let (a, b) = adler_sums(bytes.as_slice());
    let mut encoded: Vec<u8> = Vec::new();
    encoded.push(0x78);
    encoded.push(0x01);
    encoded.push(0x01);
    encoded.push((length % 256) as u8);
    encoded.push((length / 256) as u8);
    encoded.push((rest % 256) as u8);
    encoded.push((rest / 256) as u8);
    append_bytes(&mut encoded, bytes.as_slice());
    encoded.push((b / 256) as u8);
    encoded.push((b % 256) as u8);
    encoded.push((a / 256) as u8);
    encoded.push((a % 256) as u8);
    assert(encoded@ =~= stored(framed(utf8(label), body@)));
    encoded
}

/// A stored stream holds its bytes unchanged between the length field and the
/// checksum, and its length field says how many they are.
pub proof fn law_stored_stream_holds_its_bytes(bytes: Seq<u8>)
    requires
        bytes.len() <= 65535,
    ensures
        stored(bytes).len() == bytes.len() + 11,
        stored(bytes).subrange(7, 7int + bytes.len()) == bytes,
        stored(bytes)[3] + 256 * stored(bytes)[4] == bytes.len(),
        stored(bytes)[5] + 256 * stored(bytes)[6] == 65535 - bytes.len(),
{
    assert(stored(bytes).subrange(7, 7int + bytes.len()) =~= bytes);
}

} // verus!
