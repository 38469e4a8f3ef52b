//! Object identifiers and their hexadecimal form.

use std::marker::PhantomData;
use vstd::prelude::*;

use crate::upstream::decode_hex;
use crate::upstream::encode_hex;

verus! {

/// The lower-case hexadecimal digit for `n`.
pub open spec fn hex_digit(n: int) -> char
    recommends
        0 <= n < 16,
{
    if n < 10 {
        (48 + n) as char
    } else {
        (87 + n) as char
    }
}

/// `bytes` in lower-case hexadecimal, two digits a byte, high digit first.
pub open spec fn hex(bytes: Seq<u8>) -> Seq<char> {
    Seq::new(
        2 * bytes.len(),
        |k: int|
            hex_digit(
                if k % 2 == 0 {
                    bytes[k / 2] as int / 16
                } else {
                    bytes[k / 2] as int % 16
                },
            ),
    )
}

/// The value of a hexadecimal digit of either case, or -1.
pub open spec fn hex_value(c: char) -> int {
    if '0' <= c <= '9' {
        c as int - 48
    } else if 'a' <= c <= 'f' {
        c as int - 87
    } else if 'A' <= c <= 'F' {
        c as int - 55
    } else {
        -1
    }
}

/// Whether `text` is made of whole bytes in hexadecimal.
pub open spec fn is_hex(text: Seq<char>) -> bool {
    &&& text.len() % 2 == 0
    &&& forall|i: int| 0 <= i < text.len() ==> hex_value(#[trigger] text[i]) >= 0
}

/// The bytes that the hexadecimal `text` stands for.
pub open spec fn unhex(text: Seq<char>) -> Seq<u8> {
    Seq::new(
        text.len() / 2,
        |k: int| (16 * hex_value(text[2 * k]) + hex_value(text[2 * k + 1])) as u8,
    )
}

/// Writing an identifier in hexadecimal and reading it back gives the
/// identifier.
pub proof fn unhex_of_hex(bytes: Seq<u8>)
    ensures
        is_hex(hex(bytes)),
        unhex(hex(bytes)) == bytes,
{
    let text = hex(bytes);
    assert forall|i: int| 0 <= i < text.len() implies hex_value(#[trigger] text[i]) >= 0 by {
        assert(0 <= bytes[i / 2] as int / 16 < 16);
    }
    assert forall|k: int| 0 <= k < bytes.len() implies #[trigger] unhex(text)[k] == bytes[k] by {
        let b = bytes[k] as int;
        assert((2 * k) / 2 == k && (2 * k) % 2 == 0);
        assert((2 * k + 1) / 2 == k && (2 * k + 1) % 2 == 1);
        assert(text[2 * k] == hex_digit(b / 16));
        assert(text[2 * k + 1] == hex_digit(b % 16));
        assert(hex_value(hex_digit(b / 16)) == b / 16);
        assert(hex_value(hex_digit(b % 16)) == b % 16);
        assert(16 * (b / 16) + b % 16 == b);
    }
    assert(unhex(text) =~= bytes);
}

/// Reading lower-case hexadecimal and writing it again gives the same text.
pub proof fn hex_of_unhex(text: Seq<char>)
    requires
        is_hex(text),
        forall|i: int| 0 <= i < text.len() ==> !('A' <= #[trigger] text[i] <= 'F'),
    ensures
        hex(unhex(text)) == text,
{
    let bytes = unhex(text);
    assert(text.len() == 2 * (text.len() / 2));
    assert forall|i: int| 0 <= i < text.len() implies #[trigger] hex(bytes)[i] == text[i] by {
        let k = i / 2;
        let high = hex_value(text[2 * k]);
        let low = hex_value(text[2 * k + 1]);
        assert(0 <= high < 16 && 0 <= low < 16);
        assert(bytes[k] as int == 16 * high + low);
        assert((16 * high + low) / 16 == high);
        assert((16 * high + low) % 16 == low);
        assert(hex_digit(high) == text[2 * k]);
        assert(hex_digit(low) == text[2 * k + 1]);
        assert(i == 2 * k || i == 2 * k + 1);
    }
    assert(hex(bytes) =~= text);
}

/// Each byte is written as the digit of its high half and the digit of its low
/// half.
pub proof fn hex_of_each_byte(bytes: Seq<u8>, i: int)
    requires
        0 <= i < bytes.len(),
    ensures
        hex(bytes).len() == 2 * bytes.len(),
        hex(bytes)[2 * i] == "0123456789abcdef"@[bytes[i] as int / 16],
        hex(bytes)[2 * i + 1] == "0123456789abcdef"@[bytes[i] as int % 16],
{
    reveal_strlit("0123456789abcdef");
    assert((2 * i) / 2 == i && (2 * i) % 2 == 0);
    assert((2 * i + 1) / 2 == i && (2 * i + 1) % 2 == 1);
    assert(0 <= bytes[i] as int / 16 < 16);
}

/// Two digits of either case are read as one byte, the high half first.
pub proof fn unhex_of_each_pair(text: Seq<char>, i: int, high: int, low: int)
    requires
        is_hex(text),
        0 <= i < text.len() / 2,
        0 <= high < 16,
        0 <= low < 16,
        text[2 * i] == "0123456789abcdef"@[high] || text[2 * i] == "0123456789ABCDEF"@[high],
        text[2 * i + 1] == "0123456789abcdef"@[low] || text[2 * i + 1]
            == "0123456789ABCDEF"@[low],
    ensures
        unhex(text).len() == text.len() / 2,
        unhex(text)[i] as int == 16 * high + low,
{
    reveal_strlit("0123456789abcdef");
    reveal_strlit("0123456789ABCDEF");
    assert(hex_value(text[2 * i]) == high);
    assert(hex_value(text[2 * i + 1]) == low);
}

/// Text is hexadecimal if and only if it has an even number of characters, all
/// of them digits of either case.
pub proof fn is_hex_of_digits(text: Seq<char>)
    ensures
        is_hex(text) <==> text.len() % 2 == 0 && forall|i: int|
            0 <= i < text.len() ==> "0123456789abcdefABCDEF"@.contains(#[trigger] text[i]),
{
    let digits = "0123456789abcdefABCDEF"@;
    reveal_strlit("0123456789abcdefABCDEF");
    assert forall|c: char| hex_value(c) >= 0 <==> #[trigger] digits.contains(c) by {
        if hex_value(c) >= 0 {
            if '0' <= c <= '9' {
                assert(digits[hex_value(c)] == c);
            } else if 'a' <= c <= 'f' {
                assert(digits[hex_value(c)] == c);
            } else {
                assert(digits[hex_value(c) + 6] == c);
            }
        }
    }
    if is_hex(text) {
        assert forall|i: int| 0 <= i < text.len() implies digits.contains(#[trigger] text[i]) by {
            assert(hex_value(text[i]) >= 0);
        }
    }
}

/// Two identifiers with the same hexadecimal form are the same.
pub proof fn hex_injective(a: Seq<u8>, b: Seq<u8>)
    requires
        hex(a) == hex(b),
    ensures
        a == b,
{
    unhex_of_hex(a);
    unhex_of_hex(b);
}

/// The identifier of a stored object of the kind `K`: the bytes of its hash.
#[derive(Debug)]
pub struct ObjectId<K> {
    bytes: Vec<u8>,
    kind: PhantomData<K>,
}

/// The kind of commits.
#[derive(Debug)]
pub struct CommitKind;

/// The kind of changes.
#[derive(Debug)]
pub struct ChangeKind;

/// The kind of directory trees.
#[derive(Debug)]
pub struct TreeKind;

/// The kind of files.
#[derive(Debug)]
pub struct FileKind;

/// The kind of symbolic links.
#[derive(Debug)]
pub struct SymlinkKind;

/// The kind of stored conflicts.
#[derive(Debug)]
pub struct ConflictKind;

/// The kind of operations.
#[derive(Debug)]
pub struct OperationKind;

/// Identifies a commit by its content.
pub type CommitId = ObjectId<CommitKind>;

/// Identifies a change, and stays the same when its commit is rewritten.
pub type ChangeId = ObjectId<ChangeKind>;

/// Identifies a directory tree.
pub type TreeId = ObjectId<TreeKind>;

/// Identifies the contents of a file.
pub type FileId = ObjectId<FileKind>;

/// Identifies the target of a symbolic link.
pub type SymlinkId = ObjectId<SymlinkKind>;

/// Identifies a conflict that is stored as an object.
pub type ConflictId = ObjectId<ConflictKind>;

/// Identifies an operation on the repository.
pub type OperationId = ObjectId<OperationKind>;

impl<K> View for ObjectId<K> {
    type V = Seq<u8>;

    closed spec fn view(&self) -> Seq<u8> {
        self.bytes@
    }
}

impl<K> Clone for ObjectId<K> {
    fn clone(&self) -> (res: Self)
        ensures
            res@ == self@,
    {
        let bytes = self.bytes.clone();
        assert(bytes@ =~= self.bytes@);
        ObjectId { bytes, kind: PhantomData }
    }
}

impl<K> ObjectId<K> {
    /// The identifier with the given bytes.
    pub fn new(bytes: Vec<u8>) -> (res: Self)
        ensures
            res@ == bytes@,
    {
        ObjectId { bytes, kind: PhantomData }
    }

    /// The identifier that the hexadecimal text `hex` stands for.
    pub fn from_hex(hex: &'static str) -> (res: Self)
        requires
            is_hex(hex@),
        ensures
            res@ == unhex(hex@),
    {
        ObjectId { bytes: decode_hex(hex), kind: PhantomData }
    }

    /// The bytes of the identifier.
    pub fn as_bytes(&self) -> (res: &[u8])
        ensures
            res@ == self@,
    {
        self.bytes.as_slice()
    }

    /// The identifier in lower-case hexadecimal.
    pub fn hex(&self) -> (res: String)
        ensures
            res@ == hex(self@),
    {
        encode_hex(self.bytes.as_slice())
    }
}

/// Two identifiers are equal if they have the same bytes.
impl<K> PartialEq for ObjectId<K> {
    fn eq(&self, other: &Self) -> (res: bool) {
        if self.bytes.len() != other.bytes.len() {
            return false;
        }
        let mut i: usize = 0;
        while i < self.bytes.len()
            invariant
                i <= self.bytes.len(),
                self.bytes.len() == other.bytes.len(),
                forall|j: int| 0 <= j < i ==> self.bytes@[j] == other.bytes@[j],
            decreases self.bytes.len() - i,
        {
            if self.bytes[i] != other.bytes[i] {
                return false;
            }
            i = i + 1;
        }
        assert(self.bytes@ =~= other.bytes@);
        true
    }
}

impl<K> vstd::std_specs::cmp::PartialEqSpecImpl for ObjectId<K> {
    open spec fn obeys_eq_spec() -> bool {
        true
    }

    open spec fn eq_spec(&self, other: &Self) -> bool {
        self@ == other@
    }
}

impl<K> Eq for ObjectId<K> {

}

/// The bytes of each identifier in a list.
pub open spec fn id_views<K>(ids: Seq<ObjectId<K>>) -> Seq<Seq<u8>> {
    ids.map_values(|id: ObjectId<K>| id@)
}

/// The bytes of a list of identifiers are those of its identifiers, one by one.
pub proof fn id_views_are_the_ids<K>(ids: Seq<ObjectId<K>>)
    ensures
        id_views(ids).len() == ids.len(),
        forall|i: int| 0 <= i < ids.len() ==> #[trigger] id_views(ids)[i] == ids[i]@,
{
}

/// Two lists of identifiers have the same bytes if and only if they are equally
/// long and the identifiers at each place have.
pub proof fn id_views_agree<K>(a: Seq<ObjectId<K>>, b: Seq<ObjectId<K>>)
    ensures
        id_views(a) == id_views(b) <==> a.len() == b.len() && forall|i: int|
            0 <= i < a.len() ==> (#[trigger] a[i])@ == b[i]@,
{
    if id_views(a) == id_views(b) {
        assert(id_views(a).len() == id_views(b).len());
        assert forall|i: int| 0 <= i < a.len() implies (#[trigger] a[i])@ == b[i]@ by {
            assert(id_views(a)[i] == id_views(b)[i]);
        }
    } else if a.len() == b.len() && forall|i: int| 0 <= i < a.len() ==> (#[trigger] a[i])@ == b[i]@ {
        assert(id_views(a) =~= id_views(b));
    }
}

/// Whether two lists hold the same identifiers in the same order.
pub(crate) fn same_ids<K>(a: &Vec<ObjectId<K>>, b: &Vec<ObjectId<K>>) -> (res: bool)
    ensures
        res == (id_views(a@) == id_views(b@)),
{
    if a.len() != b.len() {
        assert(id_views(a@).len() != id_views(b@).len());
        return false;
    }
    let mut i: usize = 0;
    while i < a.len()
        invariant
            i <= a.len(),
            a.len() == b.len(),
            forall|j: int| 0 <= j < i ==> (#[trigger] a@[j])@ == b@[j]@,
        decreases a.len() - i,
    {
        if a[i] != b[i] {
            assert(id_views(a@)[i as int] != id_views(b@)[i as int]);
            return false;
        }
        i = i + 1;
    }
    assert(id_views(a@) =~= id_views(b@));
    true
}

} // verus!
