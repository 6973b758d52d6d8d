//! Twelve-byte identifiers of rooms, events, users and layouts.

use vstd::prelude::*;

verus! {

/// The sixteen digits of lower-case hexadecimal notation, in order.
pub open spec fn hex_digits() -> Seq<char> {
    seq!['0', '1', '2', '3', '4', '5', '6', '7', '8', '9', 'a', 'b', 'c', 'd', 'e', 'f']
}

/// The bytes written out in hexadecimal: two lower-case digits for each
/// byte, the high half first.
pub open spec fn hex(bytes: Seq<u8>) -> Seq<char> {
    Seq::new(
        2 * bytes.len(),
        |i: int|
            if i % 2 == 0 {
                hex_digits()[bytes[i / 2] as int / 16]
            } else {
                hex_digits()[bytes[i / 2] as int % 16]
            },
    )
}

/// A twelve-byte identifier. Two identifiers are the same when their bytes
/// are.
#[derive(Clone, Copy, Debug, PartialEq, Eq, PartialOrd, Ord, Hash)]
pub struct ObjectId {
    bytes: [u8; 12],
}

impl View for ObjectId {
    type V = Seq<u8>;

    closed spec fn view(&self) -> Seq<u8> {
        self.bytes@
    }
}

/// The views of a list of identifiers.
pub open spec fn id_views(ids: Seq<ObjectId>) -> Seq<Seq<u8>> {
    ids.map_values(|id: ObjectId| id@)
}

/// The view of an optional identifier.
pub open spec fn id_view(id: Option<ObjectId>) -> Option<Seq<u8>> {
    match id {
        Some(id) => Some(id@),
        None => None,
    }
}

impl ObjectId {
    /// A newly generated identifier.
    pub fn new() -> (r: ObjectId)
        ensures
            r@.len() == 12,
    {
        ObjectId { bytes: generate() }
    }

    /// The identifier with the given bytes.
    pub fn from_bytes(bytes: [u8; 12]) -> (r: ObjectId)
        ensures
            r@ == bytes@,
    {
        ObjectId { bytes }
    }

    /// The bytes of this identifier.
    pub fn bytes(&self) -> (r: [u8; 12])
        ensures
            r@ == self@,
    {
        self.bytes
    }

    /// The identifier in hexadecimal notation, twenty-four digits long.
    pub fn to_hex(&self) -> (r: String)
        ensures
            r@ == hex(self@),
            r@.len() == 24,
    {
        hex_text(self.bytes)
    }

    /// Whether both identifiers hold the same bytes.
    pub fn same(&self, other: &ObjectId) -> (r: bool)
        ensures
            r == (self@ == other@),
    {
        let mut i: usize = 0;
        while i < 12
            invariant
                i <= 12,
                forall|j: int| 0 <= j < i ==> self.bytes@[j] == other.bytes@[j],
            decreases 12 - i,
        {
            if self.bytes[i] != other.bytes[i] {
                return false;
            }
            i += 1;
        }
        assert(self.bytes@ =~= other.bytes@);
        true
    }
}

/// Calls bson: `ObjectId::new()`, and hands out its bytes with
/// `ObjectId::bytes()`.
///
/// Trusted for nothing: the bytes come from the system clock, a number drawn
/// once per process and a counter, so no two calls need agree. bson gives up
/// where the clock stands before 1970 or so late that the seconds since then
/// do not fit in 32 bits.
#[verifier::external_body]
fn generate() -> [u8; 12] {
    bson::oid::ObjectId::new().bytes()
}

/// Calls bson: `ObjectId::from_bytes` on the bytes, and `ObjectId::to_hex`
/// on what it gives.
///
/// Trusted: the text holds, for each byte in turn, the digit of its high
/// half and the digit of its low half, out of `0123456789abcdef`.
#[verifier::external_body]
fn hex_text(bytes: [u8; 12]) -> (r: String)
    ensures
        r@ == hex(bytes@),
{
    bson::oid::ObjectId::from_bytes(bytes).to_hex()
}

} // verus!
