use std::cmp::Ordering;

use vstd::prelude::*;
use vstd::string::{StrSliceExecFns, StringExecFns};

use crate::error::{Error, ErrorClass, ErrorCode};

verus! {

/// Number of bytes in an object identifier.
pub const OID_LEN: usize = 20;

/// A fixed-size (20-byte) content identifier of an object in the store.
#[derive(Clone, Copy, Debug, Hash, Ord)]
pub struct Oid {
    bytes: [u8; 20],
}

/// The byte at position `k` of the identifier the store gives to its
/// `n`-th object: twelve zero bytes, then `n` in big-endian order.
pub open spec fn seq_byte(n: u64, k: int) -> u8 {
    if k == 12 {
        ((n >> 56u64) & 0xffu64) as u8
    } else if k == 13 {
        ((n >> 48u64) & 0xffu64) as u8
    } else if k == 14 {
        ((n >> 40u64) & 0xffu64) as u8
    } else if k == 15 {
        ((n >> 32u64) & 0xffu64) as u8
    } else if k == 16 {
        ((n >> 24u64) & 0xffu64) as u8
    } else if k == 17 {
        ((n >> 16u64) & 0xffu64) as u8
    } else if k == 18 {
        ((n >> 8u64) & 0xffu64) as u8
    } else if k == 19 {
        (n & 0xffu64) as u8
    } else {
        0u8
    }
}

/// The bytes of the identifier that the store gives to its `n`-th object.
pub open spec fn seq_bytes(n: u64) -> Seq<u8> {
    Seq::new(20, |k: int| seq_byte(n, k))
}

/// The sequence number that the last eight bytes of `b` spell in big-endian order.
pub open spec fn seq_number(b: Seq<u8>) -> u64 {
    ((b[12] as u64) << 56u64) | ((b[13] as u64) << 48u64) | ((b[14] as u64) << 40u64) | ((
    b[15] as u64) << 32u64) | ((b[16] as u64) << 24u64) | ((b[17] as u64) << 16u64) | ((
    b[18] as u64) << 8u64) | (b[19] as u64)
}

/// Reading the sequence number back from a store identifier gives the number it was made from.
pub proof fn lemma_seq_number_inverts(n: u64)
    ensures
        seq_number(seq_bytes(n)) == n,
{
    let b = seq_bytes(n);
    assert(b[12] == seq_byte(n, 12));
    assert(b[19] == seq_byte(n, 19));
    let b0 = ((n >> 56u64) & 0xffu64) as u8;
    let b1 = ((n >> 48u64) & 0xffu64) as u8;
    let b2 = ((n >> 40u64) & 0xffu64) as u8;
    let b3 = ((n >> 32u64) & 0xffu64) as u8;
    let b4 = ((n >> 24u64) & 0xffu64) as u8;
    let b5 = ((n >> 16u64) & 0xffu64) as u8;
    let b6 = ((n >> 8u64) & 0xffu64) as u8;
    let b7 = (n & 0xffu64) as u8;
    assert(((b0 as u64) << 56u64) | ((b1 as u64) << 48u64) | ((b2 as u64) << 40u64) | ((
    b3 as u64) << 32u64) | ((b4 as u64) << 24u64) | ((b5 as u64) << 16u64) | ((b6 as u64)
        << 8u64) | (b7 as u64) == n) by (bit_vector)
        requires
            b0 == ((n >> 56u64) & 0xffu64) as u8,
            b1 == ((n >> 48u64) & 0xffu64) as u8,
            b2 == ((n >> 40u64) & 0xffu64) as u8,
            b3 == ((n >> 32u64) & 0xffu64) as u8,
            b4 == ((n >> 24u64) & 0xffu64) as u8,
            b5 == ((n >> 16u64) & 0xffu64) as u8,
            b6 == ((n >> 8u64) & 0xffu64) as u8,
            b7 == (n & 0xffu64) as u8,
    ;
}

/// Distinct sequence numbers give distinct store identifiers.
pub proof fn lemma_seq_bytes_injective(m: u64, n: u64)
    ensures
        seq_bytes(m) == seq_bytes(n) ==> m == n,
{
    lemma_seq_number_inverts(m);
    lemma_seq_number_inverts(n);
}

/// The lower-case hexadecimal digits, by value.
pub open spec fn hex_digits() -> Seq<char> {
    seq!['0', '1', '2', '3', '4', '5', '6', '7', '8', '9', 'a', 'b', 'c', 'd', 'e', 'f']
}

/// Two lower-case hexadecimal digits for each byte of `b`, high nibble first.
pub open spec fn hex_of(b: Seq<u8>) -> Seq<char>
    decreases b.len(),
{
    if b.len() == 0 {
        Seq::empty()
    } else {
        hex_of(b.drop_last()) + seq![
            hex_digits()[(b.last() / 16) as int],
            hex_digits()[(b.last() % 16) as int],
        ]
    }
}

/// Lexicographic comparison of two byte strings of one length, from position `i` on.
pub open spec fn compare_from(a: Seq<u8>, b: Seq<u8>, i: int) -> Ordering
    decreases a.len() - i,
{
    if i < 0 || i >= a.len() || i >= b.len() {
        Ordering::Equal
    } else if a[i] < b[i] {
        Ordering::Less
    } else if a[i] > b[i] {
        Ordering::Greater
    } else {
        compare_from(a, b, i + 1)
    }
}

impl Oid {
    /// The twenty bytes of the identifier.
    pub closed spec fn spec_bytes(&self) -> Seq<u8> {
        self.bytes@
    }

    /// Two identifiers are equal exactly when their bytes are.
    pub proof fn lemma_eq_by_bytes(a: Oid, b: Oid)
        ensures
            (a == b) <==> (a.spec_bytes() == b.spec_bytes()),
    {
        if a.spec_bytes() == b.spec_bytes() {
            assert(a.bytes =~= b.bytes);
        }
    }

    /// The identifier made of twenty zero bytes.
    pub fn zero() -> (r: Oid)
        ensures
            r.spec_bytes() == Seq::new(20, |k: int| 0u8),
    {
        let r = Oid { bytes: [0u8; 20] };
        assert(r.spec_bytes() =~= Seq::new(20, |k: int| 0u8));
        r
    }

    /// Whether every byte of the identifier is zero.
    pub fn is_zero(&self) -> (r: bool)
        ensures
            r == (self.spec_bytes() == Seq::new(20, |k: int| 0u8)),
    {
        let mut i: usize = 0;
        while i < OID_LEN
            invariant
                i <= OID_LEN,
                forall|k: int| 0 <= k < i ==> self.bytes@[k] == 0u8,
            decreases OID_LEN - i,
        {
            if self.bytes[i] != 0 {
                assert(self.spec_bytes()[i as int] != Seq::new(20, |k: int| 0u8)[i as int]);
                return false;
            }
            i = i + 1;
        }
        assert(self.spec_bytes() =~= Seq::new(20, |k: int| 0u8));
        true
    }

    /// Builds an identifier from exactly twenty raw bytes.
    pub fn from_bytes(b: &[u8]) -> (r: Result<Oid, Error>)
        ensures
            r is Ok <==> b@.len() == OID_LEN,
            r matches Ok(o) ==> o.spec_bytes() == b@,
            r matches Err(e) ==> e.spec_code() == ErrorCode::GenericError && e.spec_class()
                == ErrorClass::Invalid,
    {
        if b.len() != OID_LEN {
            return Err(Error::new(ErrorCode::GenericError, ErrorClass::Invalid, "invalid oid length"));
        }
        let mut bytes = [0u8; 20];
        let mut i: usize = 0;
        while i < OID_LEN
            invariant
                i <= OID_LEN,
                b@.len() == OID_LEN,
                bytes@.len() == OID_LEN,
                forall|k: int| 0 <= k < i ==> bytes@[k] == b@[k],
            decreases OID_LEN - i,
        {
            bytes[i] = b[i];
            i = i + 1;
        }
        assert(bytes@ =~= b@);
        Ok(Oid { bytes })
    }

    /// The raw bytes of the identifier.
    pub fn as_bytes(&self) -> (r: &[u8])
        ensures
            r@ == self.spec_bytes(),
    {
        self.bytes.as_slice()
    }

    /// The identifier the store gives to its `n`-th object.
    pub(crate) fn from_sequence(n: u64) -> (r: Oid)
        ensures
            r.spec_bytes() == seq_bytes(n),
    {
        let mut bytes = [0u8; 20];
        bytes[12] = ((n >> 56u64) & 0xffu64) as u8;
        bytes[13] = ((n >> 48u64) & 0xffu64) as u8;
        bytes[14] = ((n >> 40u64) & 0xffu64) as u8;
        bytes[15] = ((n >> 32u64) & 0xffu64) as u8;
        bytes[16] = ((n >> 24u64) & 0xffu64) as u8;
        bytes[17] = ((n >> 16u64) & 0xffu64) as u8;
        bytes[18] = ((n >> 8u64) & 0xffu64) as u8;
        bytes[19] = (n & 0xffu64) as u8;
        let r = Oid { bytes };
        assert(r.spec_bytes() =~= seq_bytes(n));
        r
    }

    /// The sequence number spelt by the last eight bytes of the identifier.
    pub(crate) fn sequence(&self) -> (r: u64)
        ensures
            r == seq_number(self.spec_bytes()),
    {
        ((self.bytes[12] as u64) << 56u64) | ((self.bytes[13] as u64) << 48u64) | ((
        self.bytes[14] as u64) << 40u64) | ((self.bytes[15] as u64) << 32u64) | ((
        self.bytes[16] as u64) << 24u64) | ((self.bytes[17] as u64) << 16u64) | ((
        self.bytes[18] as u64) << 8u64) | (self.bytes[19] as u64)
    }

    /// Whether two identifiers hold the same bytes.
    pub fn same_as(&self, other: &Oid) -> (r: bool)
        ensures
            r == (*self == *other),
    {
        proof {
            Oid::lemma_eq_by_bytes(*self, *other);
        }
        let mut i: usize = 0;
        while i < OID_LEN
            invariant
                i <= OID_LEN,
                forall|k: int| 0 <= k < i ==> self.bytes@[k] == other.bytes@[k],
            decreases OID_LEN - i,
        {
            if self.bytes[i] != other.bytes[i] {
                return false;
            }
            i = i + 1;
        }
        assert(self.spec_bytes() =~= other.spec_bytes());
        true
    }

    /// The identifier as forty lower-case hexadecimal digits.
    pub fn to_hex(&self) -> (r: String)
        ensures
            r@ == hex_of(self.spec_bytes()),
    {
        let digits = "0123456789abcdef";
        proof {
            reveal_strlit("0123456789abcdef");
            assert(digits@ =~= hex_digits());
        }
        let mut out = String::new();
        let mut i: usize = 0;
        while i < OID_LEN
            invariant
                i <= OID_LEN,
                digits@ == hex_digits(),
                digits.is_ascii(),
                out@ == hex_of(self.spec_bytes().subrange(0, i as int)),
            decreases OID_LEN - i,
        {
            let b = self.bytes[i];
            let hi = (b / 16) as usize;
            let lo = (b % 16) as usize;
            out.append(digits.substring_ascii(hi, hi + 1));
            out.append(digits.substring_ascii(lo, lo + 1));
            proof {
                let prefix = self.spec_bytes().subrange(0, i + 1);
                assert(prefix.drop_last() =~= self.spec_bytes().subrange(0, i as int));
                assert(digits@.subrange(hi as int, hi + 1) =~= seq![hex_digits()[hi as int]]);
                assert(digits@.subrange(lo as int, lo + 1) =~= seq![hex_digits()[lo as int]]);
                assert(out@ =~= hex_of(prefix));
            }
            i = i + 1;
        }
        assert(self.spec_bytes().subrange(0, 20) =~= self.spec_bytes());
        out
    }

    /// Orders two identifiers by their bytes, lexicographically.
    pub fn compare(&self, other: &Oid) -> (r: Ordering)
        ensures
            r == compare_from(self.spec_bytes(), other.spec_bytes(), 0),
    {
        let mut i: usize = 0;
        while i < OID_LEN
            invariant
                i <= OID_LEN,
                compare_from(self.spec_bytes(), other.spec_bytes(), 0) == compare_from(
                    self.spec_bytes(),
                    other.spec_bytes(),
                    i as int,
                ),
            decreases OID_LEN - i,
        {
            let a = self.bytes[i];
            let b = other.bytes[i];
            if a < b {
                return Ordering::Less;
            } else if a > b {
                return Ordering::Greater;
            }
            i = i + 1;
        }
        Ordering::Equal
    }
}

impl PartialEq for Oid {
    fn eq(&self, other: &Oid) -> (r: bool) {
        self.same_as(other)
    }
}

impl vstd::std_specs::cmp::PartialEqSpecImpl for Oid {
    open spec fn obeys_eq_spec() -> bool {
        true
    }

    open spec fn eq_spec(&self, other: &Oid) -> bool {
        *self == *other
    }
}

impl Eq for Oid {
}

impl PartialOrd for Oid {
    fn partial_cmp(&self, other: &Oid) -> (r: Option<Ordering>) {
        Some(self.compare(other))
    }
}

impl vstd::std_specs::cmp::PartialOrdSpecImpl for Oid {
    open spec fn obeys_partial_cmp_spec() -> bool {
        true
    }

    open spec fn partial_cmp_spec(&self, other: &Oid) -> Option<Ordering> {
        Some(compare_from(self.spec_bytes(), other.spec_bytes(), 0))
    }
}

} // verus!
