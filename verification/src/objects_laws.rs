//! What the bytes of trees, commits and stored objects say.

use vstd::prelude::*;

use crate::bytes::utf8;
use crate::objects::{
    adler, commit_bytes, entry_bytes, framed, octal, stored, tree_bytes, TreeEntry,
};
use crate::oid::GitOid;
use crate::text::decimal;

verus! {

/// The number that a text of octal digits spells.
pub open spec fn octal_value(text: Seq<u8>) -> int
    decreases text.len(),
{
    if text.len() == 0 {
        0
    } else {
        8 * octal_value(text.drop_last()) + (text.last() as int - 48)
    }
}

/// A number in octal spells the number, and starts with a zero only if it is zero.
pub proof fn law_octal_spells_the_number(number: nat)
    ensures
        octal_value(octal(number)) == number,
        octal(number).len() >= 1,
        forall|i: int| 0 <= i < octal(number).len() ==> 48 <= #[trigger] octal(number)[i] <= 55,
        number > 0 ==> octal(number)[0] != 48,
    decreases number,
{
    reveal_with_fuel(octal_value, 2);
    if number < 8 {
        assert(octal(number).drop_last() =~= Seq::<u8>::empty());
    } else {
        law_octal_spells_the_number(number / 8);
        assert(octal(number).drop_last() =~= octal(number / 8));
    }
}

/// An entry of a tree is its mode, a space, its name, a zero byte and the digest of
/// its object, in this order.
pub proof fn law_tree_entry_is_told_in_order(entry: TreeEntry)
    ensures
        ({
            let bytes = entry_bytes(entry);
            let mode = octal(entry.mode as nat);
            let name = mode.len() as int + 1;
            let digest = name + entry.name@.len() + 1;
            &&& bytes.len() == digest + entry.id.digest().len()
            &&& bytes.take(name - 1) == mode
            &&& bytes[name - 1] == 32
            &&& bytes.subrange(name, digest - 1) == entry.name@
            &&& bytes[digest - 1] == 0
            &&& bytes.skip(digest) == entry.id.digest()
        }),
{
    let bytes = entry_bytes(entry);
    let mode = octal(entry.mode as nat);
    let name = mode.len() as int + 1;
    let digest = name + entry.name@.len() + 1;
    assert(bytes.take(name - 1) =~= mode);
    assert(bytes.subrange(name, digest - 1) =~= entry.name@);
    assert(bytes.skip(digest) =~= entry.id.digest());
}

/// A tree is its entries one behind the other, in the order given: nothing stands
/// in an empty tree, and one more entry stands behind the others.
pub proof fn law_tree_is_its_entries(entries: Seq<TreeEntry>, entry: TreeEntry)
    ensures
        tree_bytes(Seq::empty(), 0) == Seq::<u8>::empty(),
        tree_bytes(entries.push(entry), entries.len() as int + 1) == tree_bytes(
            entries,
            entries.len() as int,
        ) + entry_bytes(entry),
{
    lemma_tree_prefix(entries, entry, entries.len() as int);
}

proof fn lemma_tree_prefix(entries: Seq<TreeEntry>, entry: TreeEntry, count: int)
    requires
        0 <= count <= entries.len(),
    ensures
        tree_bytes(entries.push(entry), count) == tree_bytes(entries, count),
    decreases count,
{
    if count > 0 {
        lemma_tree_prefix(entries, entry, count - 1);
    }
}

/// A commit names its tree on the first line and its label at the end. A parent
/// adds one line behind the first, which names it, and changes nothing else.
pub proof fn law_parent_adds_one_line(tree: GitOid, parent: GitOid, label: Seq<u8>)
    ensures
        ({
            let first = utf8("tree ") + tree.text() + seq![10u8];
            let alone = commit_bytes(tree, None, label);
            &&& alone.len() >= first.len()
            &&& alone.take(first.len() as int) == first
            &&& alone.skip(alone.len() - label.len() - 1) == label + seq![10u8]
            &&& commit_bytes(tree, Some(parent), label) == first + (utf8("parent ")
                + parent.text() + seq![10u8]) + alone.skip(first.len() as int)
        }),
{
    let first = utf8("tree ") + tree.text() + seq![10u8];
    let alone = commit_bytes(tree, None, label);
    assert(alone.take(first.len() as int) =~= first);
    assert(alone.skip(alone.len() - label.len() - 1) =~= label + seq![10u8]);
    assert(commit_bytes(tree, Some(parent), label) =~= first + (utf8("parent ") + parent.text()
        + seq![10u8]) + alone.skip(first.len() as int));
}

/// The sum of some bytes.
pub open spec fn byte_sum(bytes: Seq<u8>) -> int
    decreases bytes.len(),
{
    if bytes.len() == 0 {
        0
    } else {
        byte_sum(bytes.drop_last()) + bytes.last()
    }
}

/// The sum of one more than the byte sum of each prefix but the empty one.
pub open spec fn prefix_sum(bytes: Seq<u8>) -> int
    decreases bytes.len(),
{
    if bytes.len() == 0 {
        0
    } else {
        prefix_sum(bytes.drop_last()) + 1 + byte_sum(bytes)
    }
}

/// The two sums of a checksum are the sum of the bytes plus one, and the sum of
/// those sums over all prefixes, each taken modulo the largest prime below 65536.
pub proof fn law_checksum_is_of_all_bytes(bytes: Seq<u8>)
    ensures
        adler(bytes).0 == (1 + byte_sum(bytes)) % 65521,
        adler(bytes).1 == prefix_sum(bytes) % 65521,
    decreases bytes.len(),
{
    if bytes.len() > 0 {
        law_checksum_is_of_all_bytes(bytes.drop_last());
    }
}

/// An object is framed by its kind, a space, its size in decimal and a zero byte in
/// front of its body.
pub proof fn law_frame_tells_kind_and_size(label: Seq<u8>, body: Seq<u8>)
    ensures
        ({
            let bytes = framed(label, body);
            let size = vstd::utf8::encode_utf8(decimal(body.len()));
            &&& bytes.take(label.len() as int) == label
            &&& bytes[label.len() as int] == 32
            &&& bytes.subrange(label.len() + 1int, label.len() + 1int + size.len()) == size
            &&& bytes[label.len() + 1int + size.len()] == 0
            &&& bytes.skip(label.len() + 2int + size.len()) == body
        }),
{
    let bytes = framed(label, body);
    let size = vstd::utf8::encode_utf8(decimal(body.len()));
    assert(bytes.take(label.len() as int) =~= label);
    assert(bytes.subrange(label.len() + 1int, label.len() + 1int + size.len()) =~= size);
    assert(bytes.skip(label.len() + 2int + size.len()) =~= body);
}

/// A stored stream begins with its two header bytes and the mark of a last stored
/// block, and ends with the checksum of its bytes, the higher sum and the higher
/// bytes first.
pub proof fn law_stored_stream_ends_with_its_checksum(bytes: Seq<u8>)
    requires
        bytes.len() <= 65535,
    ensures
        ({
            let stream = stored(bytes);
            let end = stream.len() as int;
            &&& stream[0] == 120
            &&& stream[1] == 1
            &&& stream[2] == 1
            &&& 256 * stream[end - 4] + stream[end - 3] == prefix_sum(bytes) % 65521
            &&& 256 * stream[end - 2] + stream[end - 1] == (1 + byte_sum(bytes)) % 65521
        }),
{
    law_checksum_is_of_all_bytes(bytes);
}

} // verus!
