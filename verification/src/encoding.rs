//! The canonical byte layout that every committed hash is taken over.
//!
//! Integers are written little-endian at their fixed width, a byte array is
//! written as it stands, a sequence is written as its length in four bytes
//! followed by its items, a string as the sequence of its UTF-8 bytes, and a
//! pair as its two halves one after the other.

use vstd::bytes::{spec_u128_to_le_bytes, spec_u32_to_le_bytes, spec_u64_to_le_bytes};
use vstd::prelude::*;
use vstd::utf8::encode_utf8;

verus! {

/// A value with a canonical byte encoding.
pub trait CanonicalBytes {
    /// Whether the value has an encoding at all: every length in it fits in
    /// the four bytes that the layout gives a length.
    spec fn encodable(&self) -> bool;

    /// The encoding of the value.
    spec fn canonical(&self) -> Seq<u8>;

    fn is_encodable(&self) -> (ok: bool)
        ensures
            ok == self.encodable(),
    ;

    /// Appends the encoding of the value to `out`.
    fn write_canonical(&self, out: &mut Vec<u8>)
        requires
            self.encodable(),
        ensures
            final(out)@ == old(out)@ + self.canonical(),
    ;
}

/// Calls `borsh::to_vec` on a `u32`, which writes the four bytes of
/// `to_le_bytes` into a fresh vector; writing into a vector cannot fail.
#[verifier::external_body]
fn borsh_u32(value: u32) -> (bytes: Vec<u8>)
    ensures
        bytes@ == spec_u32_to_le_bytes(value),
{
    borsh::to_vec(&value).unwrap()
}

/// Calls `borsh::to_vec` on a `u64`, which writes the eight bytes of
/// `to_le_bytes` into a fresh vector; writing into a vector cannot fail.
#[verifier::external_body]
fn borsh_u64(value: u64) -> (bytes: Vec<u8>)
    ensures
        bytes@ == spec_u64_to_le_bytes(value),
{
    borsh::to_vec(&value).unwrap()
}

/// Calls `borsh::to_vec` on a `u128`, which writes the sixteen bytes of
/// `to_le_bytes` into a fresh vector; writing into a vector cannot fail.
#[verifier::external_body]
fn borsh_u128(value: u128) -> (bytes: Vec<u8>)
    ensures
        bytes@ == spec_u128_to_le_bytes(value),
{
    borsh::to_vec(&value).unwrap()
}

/// Appends `bytes` to `out`.
pub fn write_bytes(bytes: &[u8], out: &mut Vec<u8>)
    ensures
        final(out)@ == old(out)@ + bytes@,
{
    let ghost before = out@;
    let mut i: usize = 0;
    while i < bytes.len()
        invariant
            i <= bytes.len(),
            out@ == before + bytes@.take(i as int),
        decreases bytes.len() - i,
    {
        out.push(bytes[i]);
        assert(bytes@.take(i + 1) == bytes@.take(i as int).push(bytes@[i as int]));
        i += 1;
    }
    assert(bytes@.take(bytes.len() as int) == bytes@);
}

/// The encoding of a length: its four little-endian bytes.
pub open spec fn length_prefix(len: nat) -> Seq<u8>
    recommends
        len <= u32::MAX,
{
    spec_u32_to_le_bytes(len as u32)
}

/// Appends the encoding of the length `len` to `out`.
pub fn write_length(len: usize, out: &mut Vec<u8>)
    requires
        len <= u32::MAX,
    ensures
        final(out)@ == old(out)@ + length_prefix(len as nat),
{
    let prefix = borsh_u32(len as u32);
    write_bytes(prefix.as_slice(), out);
}

impl CanonicalBytes for u8 {
    open spec fn encodable(&self) -> bool {
        true
    }

    open spec fn canonical(&self) -> Seq<u8> {
        seq![*self]
    }

    fn is_encodable(&self) -> (ok: bool) {
        true
    }

    fn write_canonical(&self, out: &mut Vec<u8>) {
        out.push(*self);
        assert(out@ == old(out)@ + seq![*self]);
    }
}

impl CanonicalBytes for u64 {
    open spec fn encodable(&self) -> bool {
        true
    }

    open spec fn canonical(&self) -> Seq<u8> {
        spec_u64_to_le_bytes(*self)
    }

    fn is_encodable(&self) -> (ok: bool) {
        true
    }

    fn write_canonical(&self, out: &mut Vec<u8>) {
        let bytes = borsh_u64(*self);
        write_bytes(bytes.as_slice(), out);
    }
}

impl CanonicalBytes for u128 {
    open spec fn encodable(&self) -> bool {
        true
    }

    open spec fn canonical(&self) -> Seq<u8> {
        spec_u128_to_le_bytes(*self)
    }

    fn is_encodable(&self) -> (ok: bool) {
        true
    }

    fn write_canonical(&self, out: &mut Vec<u8>) {
        let bytes = borsh_u128(*self);
        write_bytes(bytes.as_slice(), out);
    }
}

impl CanonicalBytes for [u8; 32] {
    open spec fn encodable(&self) -> bool {
        true
    }

    open spec fn canonical(&self) -> Seq<u8> {
        self@
    }

    fn is_encodable(&self) -> (ok: bool) {
        true
    }

    fn write_canonical(&self, out: &mut Vec<u8>) {
        write_bytes(self.as_slice(), out);
    }
}

impl CanonicalBytes for String {
    open spec fn encodable(&self) -> bool {
        encode_utf8(self@).len() <= u32::MAX
    }

    open spec fn canonical(&self) -> Seq<u8> {
        length_prefix(encode_utf8(self@).len()) + encode_utf8(self@)
    }

    fn is_encodable(&self) -> (ok: bool) {
        self.as_str().as_bytes().len() <= 0xffff_ffff
    }

    fn write_canonical(&self, out: &mut Vec<u8>) {
        let bytes = self.as_str().as_bytes();
        write_length(bytes.len(), out);
        write_bytes(bytes, out);
    }
}

impl<A: CanonicalBytes, B: CanonicalBytes> CanonicalBytes for (A, B) {
    open spec fn encodable(&self) -> bool {
        self.0.encodable() && self.1.encodable()
    }

    open spec fn canonical(&self) -> Seq<u8> {
        self.0.canonical() + self.1.canonical()
    }

    fn is_encodable(&self) -> (ok: bool) {
        self.0.is_encodable() && self.1.is_encodable()
    }

    fn write_canonical(&self, out: &mut Vec<u8>) {
        self.0.write_canonical(out);
        self.1.write_canonical(out);
    }
}

/// The encodings of the items of a sequence, one after the other.
pub open spec fn concat_canonical<T: CanonicalBytes>(items: Seq<T>) -> Seq<u8>
    decreases items.len(),
{
    if items.len() == 0 {
        Seq::empty()
    } else {
        concat_canonical(items.drop_last()) + items.last().canonical()
    }
}

/// Every item of the sequence has an encoding.
pub open spec fn all_encodable<T: CanonicalBytes>(items: Seq<T>) -> bool {
    forall|i: int| 0 <= i < items.len() ==> (#[trigger] items[i]).encodable()
}

/// Taking one more item of a sequence appends that item's encoding.
pub proof fn lemma_concat_canonical_step<T: CanonicalBytes>(items: Seq<T>, i: int)
    requires
        0 <= i < items.len(),
    ensures
        concat_canonical(items.take(i + 1)) == concat_canonical(items.take(i))
            + items[i].canonical(),
{
    assert(items.take(i + 1).drop_last() == items.take(i));
}

impl<T: CanonicalBytes> CanonicalBytes for Vec<T> {
    open spec fn encodable(&self) -> bool {
        self@.len() <= u32::MAX && all_encodable(self@)
    }

    open spec fn canonical(&self) -> Seq<u8> {
        length_prefix(self@.len()) + concat_canonical(self@)
    }

    fn is_encodable(&self) -> (ok: bool) {
        if self.len() > 0xffff_ffff {
            return false;
        }
        let mut i: usize = 0;
        while i < self.len()
            invariant
                i <= self.len(),
                all_encodable(self@.take(i as int)),
            decreases self.len() - i,
        {
            if !self[i].is_encodable() {
                return false;
            }
            assert forall|j: int| 0 <= j < i + 1 implies (#[trigger] self@.take(i + 1)[j]).encodable() by {
                if j < i {
                    assert(self@.take(i as int)[j].encodable());
                }
            }
            i += 1;
        }
        assert(self@.take(self.len() as int) == self@);
        true
    }

    fn write_canonical(&self, out: &mut Vec<u8>) {
        let ghost before = out@;
        write_length(self.len(), out);
        let mut i: usize = 0;
        while i < self.len()
            invariant
                i <= self.len(),
                all_encodable(self@),
                out@ == before + length_prefix(self@.len()) + concat_canonical(self@.take(i as int)),
            decreases self.len() - i,
        {
            proof {
                lemma_concat_canonical_step(self@, i as int);
            }
            self[i].write_canonical(out);
            i += 1;
        }
        assert(self@.take(self.len() as int) == self@);
    }
}

/// Two byte strings, each made of a head and a tail, that are equal and
/// whose heads, or whose tails, have one length have equal heads and equal
/// tails.
pub proof fn lemma_concat_split(a: Seq<u8>, b: Seq<u8>, c: Seq<u8>, d: Seq<u8>)
    requires
        a + b == c + d,
        a.len() == c.len() || b.len() == d.len(),
    ensures
        a == c,
        b == d,
{
    let left = a + b;
    let right = c + d;
    assert(left.len() == a.len() + b.len());
    assert(right.len() == c.len() + d.len());
    assert forall|i: int| 0 <= i < a.len() implies a[i] == c[i] by {
        assert(left[i] == a[i]);
        assert(right[i] == c[i]);
    }
    assert forall|i: int| 0 <= i < b.len() implies b[i] == d[i] by {
        assert(left[a.len() + i] == b[i]);
        assert(right[c.len() + i] == d[i]);
    }
    assert(a =~= c);
    assert(b =~= d);
}

/// A 32-byte array is determined by its bytes.
pub proof fn lemma_array_of_bytes(a: [u8; 32], b: [u8; 32])
    requires
        a@ == b@,
    ensures
        a == b,
{
    assert(a =~= b);
}

/// Different lengths have different encodings.
pub proof fn lemma_length_prefix_injective(first: nat, second: nat)
    requires
        first <= u32::MAX,
        second <= u32::MAX,
        length_prefix(first) == length_prefix(second),
    ensures
        first == second,
        length_prefix(first).len() == 4,
{
    vstd::bytes::lemma_auto_spec_u32_to_from_le_bytes();
    assert(spec_u32_to_le_bytes(first as u32).len() == 4);
    assert(spec_u32_to_le_bytes(second as u32).len() == 4);
    assert(vstd::bytes::spec_u32_from_le_bytes(spec_u32_to_le_bytes(first as u32)) == first as u32);
    assert(vstd::bytes::spec_u32_from_le_bytes(spec_u32_to_le_bytes(second as u32))
        == second as u32);
}

/// The encodings of digests laid end to end: 32 bytes for each, and byte
/// `j` of digest `i` at place `32 * i + j`.
pub proof fn lemma_concat_digests(digests: Seq<[u8; 32]>, i: int, j: int)
    requires
        0 <= i < digests.len(),
        0 <= j < 32,
    ensures
        concat_canonical(digests).len() == 32 * digests.len(),
        concat_canonical(digests)[32 * i + j] == digests[i][j],
    decreases digests.len(),
{
    lemma_concat_digests_len(digests);
    lemma_concat_digests_len(digests.drop_last());
    if i < digests.len() - 1 {
        lemma_concat_digests(digests.drop_last(), i, j);
    }
}

/// The encodings of digests laid end to end take 32 bytes for each.
pub proof fn lemma_concat_digests_len(digests: Seq<[u8; 32]>)
    ensures
        concat_canonical(digests).len() == 32 * digests.len(),
    decreases digests.len(),
{
    if digests.len() > 0 {
        lemma_concat_digests_len(digests.drop_last());
    }
}

} // verus!
