//! Numbers as sequences of bytes.
use vstd::endian::{endianness, Endian};
use vstd::prelude::*;

verus! {

/// The last `len` digits of `value` in base 256, the least significant first.
pub open spec fn le_bytes(value: nat, len: nat) -> Seq<u8>
    decreases len,
{
    if len == 0 {
        Seq::empty()
    } else {
        seq![(value % 256) as u8] + le_bytes(value / 256, (len - 1) as nat)
    }
}

/// The number whose digits in base 256 are `bytes`, the least significant first.
pub open spec fn from_le_bytes(bytes: Seq<u8>) -> nat
    decreases bytes.len(),
{
    if bytes.len() == 0 {
        0
    } else {
        bytes[0] as nat + 256 * from_le_bytes(bytes.drop_first())
    }
}

/// The last `len` digits of `value` in base 256, the most significant first.
pub open spec fn be_bytes(value: nat, len: nat) -> Seq<u8> {
    le_bytes(value, len).reverse()
}

/// The number whose digits in base 256 are `bytes`, the most significant first.
pub open spec fn from_be_bytes(bytes: Seq<u8>) -> nat {
    from_le_bytes(bytes.reverse())
}

/// The last `len` digits of `value` in base 256, in the order of the machine.
pub open spec fn ne_bytes(value: nat, len: nat) -> Seq<u8> {
    match endianness() {
        Endian::Little => le_bytes(value, len),
        Endian::Big => be_bytes(value, len),
    }
}

/// The number whose digits in base 256 are `bytes`, in the order of the machine.
pub open spec fn from_ne_bytes(bytes: Seq<u8>) -> nat {
    match endianness() {
        Endian::Little => from_le_bytes(bytes),
        Endian::Big => from_be_bytes(bytes),
    }
}

/// The number of different sequences of `len` bytes.
pub open spec fn byte_range(len: nat) -> nat
    decreases len,
{
    if len == 0 {
        1
    } else {
        256 * byte_range((len - 1) as nat)
    }
}

/// Reading what was written gives back the number, if it fits.
pub proof fn lemma_le_bytes(value: nat, len: nat)
    requires
        value < byte_range(len),
    ensures
        le_bytes(value, len).len() == len,
        from_le_bytes(le_bytes(value, len)) == value,
    decreases len,
{
    if len > 0 {
        let rest = le_bytes(value / 256, (len - 1) as nat);
        assert(value / 256 < byte_range((len - 1) as nat));
        lemma_le_bytes(value / 256, (len - 1) as nat);
        assert(le_bytes(value, len).drop_first() == rest);
    }
}

/// Writing what was read gives back the bytes.
pub proof fn lemma_from_le_bytes(bytes: Seq<u8>)
    ensures
        from_le_bytes(bytes) < byte_range(bytes.len()),
        le_bytes(from_le_bytes(bytes), bytes.len()) == bytes,
    decreases bytes.len(),
{
    if bytes.len() > 0 {
        lemma_from_le_bytes(bytes.drop_first());
        let rest = from_le_bytes(bytes.drop_first());
        let value = from_le_bytes(bytes);
        assert(value == bytes[0] as nat + 256 * rest);
        assert(value % 256 == bytes[0] as nat && value / 256 == rest);
        assert(bytes == seq![bytes[0]] + bytes.drop_first());
    }
}

/// A number is written with as many bytes as asked for.
pub proof fn lemma_bytes_len(value: nat, len: nat)
    ensures
        le_bytes(value, len).len() == len,
        be_bytes(value, len).len() == len,
        ne_bytes(value, len).len() == len,
    decreases len,
{
    if len > 0 {
        lemma_bytes_len(value / 256, (len - 1) as nat);
    }
}

/// Reading what was written gives back the number, if it fits, whatever the order of the digits.
pub proof fn lemma_bytes(value: nat, len: nat)
    requires
        value < byte_range(len),
    ensures
        be_bytes(value, len).len() == len,
        from_be_bytes(be_bytes(value, len)) == value,
        ne_bytes(value, len).len() == len,
        from_ne_bytes(ne_bytes(value, len)) == value,
{
    lemma_le_bytes(value, len);
    assert(be_bytes(value, len).reverse() == le_bytes(value, len));
}

/// Writing what was read gives back the bytes, whatever the order of the digits.
pub proof fn lemma_from_bytes(bytes: Seq<u8>)
    ensures
        from_be_bytes(bytes) < byte_range(bytes.len()),
        be_bytes(from_be_bytes(bytes), bytes.len()) == bytes,
        from_ne_bytes(bytes) < byte_range(bytes.len()),
        ne_bytes(from_ne_bytes(bytes), bytes.len()) == bytes,
{
    lemma_from_le_bytes(bytes);
    lemma_from_le_bytes(bytes.reverse());
    assert(bytes.reverse().reverse() == bytes);
}

/// What `u8`, `u16`, `u32` and `u64` can hold.
pub proof fn lemma_byte_ranges()
    ensures
        byte_range(1) == 0x100,
        byte_range(2) == 0x1_0000,
        byte_range(4) == 0x1_0000_0000,
        byte_range(8) == 0x1_0000_0000_0000_0000,
{
    reveal_with_fuel(byte_range, 9);
}

/// The eight bytes of `value`, in the order of the machine.
///
/// This is `u64::to_ne_bytes`, which is documented to return the memory representation of the
/// number in the byte order of the machine.
#[verifier::external_body]
pub(crate) fn u64_to_ne_bytes(value: u64) -> (r: [u8; 8])
    ensures
        r@ == ne_bytes(value as nat, 8),
{
    value.to_ne_bytes()
}

/// The number whose eight bytes are `bytes`, in the order of the machine.
///
/// This is `u64::from_ne_bytes`, which is documented to read the memory representation of the
/// number in the byte order of the machine.
#[verifier::external_body]
pub(crate) fn u64_from_ne_bytes(bytes: [u8; 8]) -> (r: u64)
    ensures
        r == from_ne_bytes(bytes@),
{
    u64::from_ne_bytes(bytes)
}

/// The number whose four bytes are `bytes`, in the order of the machine.
///
/// This is `u32::from_ne_bytes`, which is documented to read the memory representation of the
/// number in the byte order of the machine.
#[verifier::external_body]
pub(crate) fn u32_from_ne_bytes(bytes: [u8; 4]) -> (r: u32)
    ensures
        r == from_ne_bytes(bytes@),
{
    u32::from_ne_bytes(bytes)
}

/// The number whose two bytes are `bytes`, in the order of the machine.
///
/// This is `u16::from_ne_bytes`, which is documented to read the memory representation of the
/// number in the byte order of the machine.
#[verifier::external_body]
pub(crate) fn u16_from_ne_bytes(bytes: [u8; 2]) -> (r: u16)
    ensures
        r == from_ne_bytes(bytes@),
{
    u16::from_ne_bytes(bytes)
}

/// Appends the last `len` digits of `value` in base 256, the most significant first.
pub fn push_be_bytes(out: &mut Vec<u8>, value: u64, len: usize)
    ensures
        final(out)@ == old(out)@ + be_bytes(value as nat, len as nat),
    decreases len,
{
    if len > 0 {
        push_be_bytes(out, value / 256, len - 1);
        out.push((value % 256) as u8);
        proof {
            let rest = le_bytes(value as nat / 256, (len - 1) as nat);
            assert(be_bytes(value as nat, len as nat) == rest.reverse().push((value % 256) as u8));
        }
    }
}

/// Reads eight bytes as a number, the most significant digit first.
pub fn read_be_bytes(bytes: &[u8]) -> (r: u64)
    requires
        bytes@.len() == 8,
    ensures
        r == from_be_bytes(bytes@),
{
    let mut value: u64 = 0;
    let mut i: usize = 0;
    while i < 8
        invariant
            i <= 8,
            bytes@.len() == 8,
            value == from_be_bytes(bytes@.take(i as int)),
        decreases 8 - i,
    {
        let ghost read = bytes@.take(i as int);
        let ghost next = bytes@.take(i + 1);
        proof {
            assert(next.reverse().drop_first() == read.reverse());
            assert(next.reverse()[0] == bytes@[i as int]);
            lemma_from_bytes(next);
            lemma_byte_range_monotonic(next.len(), 8);
            lemma_byte_ranges();
        }
        value = 256 * value + bytes[i] as u64;
        i += 1;
    }
    assert(bytes@.take(8) == bytes@);
    value
}

/// Longer sequences of bytes hold larger numbers.
proof fn lemma_byte_range_monotonic(len: nat, other: nat)
    requires
        len <= other,
    ensures
        0 < byte_range(len) <= byte_range(other),
    decreases other,
{
    if len < other {
        lemma_byte_range_monotonic(len, (other - 1) as nat);
    } else if other > 0 {
        lemma_byte_range_monotonic((len - 1) as nat, (other - 1) as nat);
    }
}

/// The bytes of `bytes` from `from` up to `to`.
pub fn copy_range(bytes: &[u8], from: usize, to: usize) -> (r: Vec<u8>)
    requires
        from <= to <= bytes@.len(),
    ensures
        r@ == bytes@.subrange(from as int, to as int),
{
    let mut out: Vec<u8> = Vec::new();
    out.extend_from_slice(vstd::slice::slice_subrange(bytes, from, to));
    out
}

/// What bytes stand for as a number: one more byte at the end that is read last is the new last
/// digit of base 256, and one that is read first comes below all the others.
pub proof fn law_digits_count(bytes: Seq<u8>, byte: u8)
    ensures
        from_be_bytes(Seq::empty()) == 0,
        from_be_bytes(bytes.push(byte)) == from_be_bytes(bytes) * 256 + byte,
        from_le_bytes(Seq::empty()) == 0,
        from_le_bytes(seq![byte] + bytes) == from_le_bytes(bytes) * 256 + byte,
        endianness() is Little ==> from_ne_bytes(bytes) == from_le_bytes(bytes),
        endianness() is Big ==> from_ne_bytes(bytes) == from_be_bytes(bytes),
{
    assert(Seq::<u8>::empty().reverse() == Seq::<u8>::empty());
    assert((seq![byte] + bytes).drop_first() == bytes);
    assert(bytes.push(byte).reverse() == seq![byte] + bytes.reverse());
    assert((seq![byte] + bytes.reverse()).drop_first() == bytes.reverse());
}

} // verus!
