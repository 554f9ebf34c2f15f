//! Byte strings: fixed-width numbers and slices of them.

use vstd::arithmetic::power::pow;
use vstd::prelude::*;

verus! {

/// The `count` low bytes of `value`, least significant first.
pub open spec fn le_bytes(value: nat, count: nat) -> Seq<u8>
    decreases count,
{
    if count == 0 {
        seq![]
    } else {
        seq![(value % 256) as u8] + le_bytes(value / 256, (count - 1) as nat)
    }
}

/// The `count` low bytes of `value`, most significant first.
pub open spec fn be_bytes(value: nat, count: nat) -> Seq<u8>
    decreases count,
{
    if count == 0 {
        seq![]
    } else {
        be_bytes(value / 256, (count - 1) as nat).push((value % 256) as u8)
    }
}

/// The number whose bytes are `bytes`, most significant first.
pub open spec fn be_value(bytes: Seq<u8>) -> nat
    decreases bytes.len(),
{
    if bytes.len() == 0 {
        0
    } else {
        be_value(bytes.drop_last()) * 256 + bytes.last() as nat
    }
}

/// Four bytes hold every value below 2^32, and hold it exactly.
pub proof fn lemma_be_bytes_round_trip(value: nat)
    requires
        value < 0x1_0000_0000,
    ensures
        be_bytes(value, 4).len() == 4,
        be_value(be_bytes(value, 4)) == value,
{
    reveal_with_fuel(be_bytes, 5);
    reveal_with_fuel(be_value, 5);
    let b3 = be_bytes(value / 256, 3);
    let b2 = be_bytes(value / 256 / 256, 2);
    let b1 = be_bytes(value / 256 / 256 / 256, 1);
    assert(be_bytes(value, 4).drop_last() =~= b3);
    assert(b3.drop_last() =~= b2);
    assert(b2.drop_last() =~= b1);
    assert(b1.drop_last() =~= Seq::<u8>::empty());
}

/// Four bytes are the encoding of the value that they spell.
pub proof fn lemma_be_value_round_trip(bytes: Seq<u8>)
    requires
        bytes.len() == 4,
    ensures
        be_value(bytes) < 0x1_0000_0000,
        be_bytes(be_value(bytes), 4) == bytes,
{
    reveal_with_fuel(be_bytes, 5);
    reveal_with_fuel(be_value, 5);
    let b3 = bytes.drop_last();
    let b2 = b3.drop_last();
    let b1 = b2.drop_last();
    assert(be_value(bytes) == be_value(b3) * 256 + bytes[3]);
    assert(be_value(b3) == be_value(b2) * 256 + bytes[2]);
    assert(be_value(b2) == be_value(b1) * 256 + bytes[1]);
    assert(be_value(b1) == bytes[0]);
    assert(be_value(bytes) / 256 == be_value(b3));
    assert(be_value(b3) / 256 == be_value(b2));
    assert(be_value(b2) / 256 == be_value(b1));
    assert(be_bytes(be_value(bytes), 4) =~= bytes);
}

pub proof fn lemma_le_bytes_len(value: nat, count: nat)
    ensures
        le_bytes(value, count).len() == count,
    decreases count,
{
    if count > 0 {
        lemma_le_bytes_len(value / 256, (count - 1) as nat);
    }
}

/// Appends `bytes` to `out`.
pub fn append_bytes(out: &mut Vec<u8>, bytes: &[u8])
    ensures
        final(out)@ == old(out)@ + bytes@,
{
    out.extend_from_slice(bytes);
    assert(out@ =~= old(out)@ + bytes@);
}

/// Appends the first `count` bytes of `bytes` to `out`.
pub fn append_prefix(out: &mut Vec<u8>, bytes: &[u8], count: usize)
    requires
        count <= bytes@.len(),
    ensures
        final(out)@ == old(out)@ + bytes@.take(count as int),
{
    let mut index: usize = 0;
    assert(out@ =~= old(out)@ + bytes@.take(0));
    while index < count
        invariant
            index <= count <= bytes@.len(),
            out@ == old(out)@ + bytes@.take(index as int),
        decreases count - index,
    {
        out.push(bytes[index]);
        assert(bytes@.take(index + 1) =~= bytes@.take(index as int).push(bytes@[index as int]));
        assert(out@ =~= old(out)@ + bytes@.take(index + 1));
        index = index + 1;
    }
}

/// The bytes `bytes[from..to]`.
pub fn slice_of(bytes: &[u8], from: usize, to: usize) -> (part: Vec<u8>)
    requires
        from <= to <= bytes@.len(),
    ensures
        part@ == bytes@.subrange(from as int, to as int),
{
    let mut part: Vec<u8> = Vec::new();
    let mut index: usize = from;
    assert(part@ =~= bytes@.subrange(from as int, from as int));
    while index < to
        invariant
            from <= index <= to <= bytes@.len(),
            part@ == bytes@.subrange(from as int, index as int),
        decreases to - index,
    {
        part.push(bytes[index]);
        assert(bytes@.subrange(from as int, index + 1) =~= bytes@.subrange(
            from as int,
            index as int,
        ).push(bytes@[index as int]));
        index = index + 1;
    }
    part
}

/// Whether `bytes` begins with `prefix`.
pub fn bytes_start_with(bytes: &[u8], prefix: &[u8]) -> (found: bool)
    ensures
        found <==> prefix@.len() <= bytes@.len() && bytes@.take(prefix@.len() as int) == prefix@,
{
    if prefix.len() > bytes.len() {
        return false;
    }
    let mut index: usize = 0;
    while index < prefix.len()
        invariant
            prefix@.len() <= bytes@.len(),
            index <= prefix@.len(),
            forall|i: int| 0 <= i < index ==> bytes@[i] == prefix@[i],
        decreases prefix@.len() - index,
    {
        if bytes[index] != prefix[index] {
            assert(bytes@.take(prefix@.len() as int)[index as int] != prefix@[index as int]);
            return false;
        }
        index = index + 1;
    }
    assert(bytes@.take(prefix@.len() as int) =~= prefix@);
    true
}

/// Appends `value` as four bytes, most significant first.
pub fn push_be_u32(out: &mut Vec<u8>, value: u32)
    ensures
        final(out)@ == old(out)@ + be_bytes(value as nat, 4),
{
    proof {
        reveal_with_fuel(be_bytes, 5);
    }
    out.push((value / 0x100_0000) as u8);
    out.push(((value / 0x1_0000) % 256) as u8);
    out.push(((value / 0x100) % 256) as u8);
    out.push((value % 256) as u8);
    assert(out@ =~= old(out)@ + be_bytes(value as nat, 4));
}

/// The number in the four bytes at `at`, most significant first.
pub fn read_be_u32(bytes: &[u8], at: usize) -> (value: u32)
    requires
        at + 4 <= bytes@.len(),
    ensures
        value == be_value(bytes@.subrange(at as int, at + 4)),
{
    proof {
        reveal_with_fuel(be_value, 5);
        let part = bytes@.subrange(at as int, at + 4);
        assert(part.drop_last().drop_last().drop_last().drop_last() =~= Seq::<u8>::empty());
    }
    let b0: u32 = bytes[at] as u32;
    let b1: u32 = bytes[at + 1] as u32;
    let b2: u32 = bytes[at + 2] as u32;
    let b3: u32 = bytes[at + 3] as u32;
    b0 * 0x100_0000 + b1 * 0x1_0000 + b2 * 0x100 + b3
}

/// Appends the `count` low bytes of `value`, least significant first.
pub fn push_le(out: &mut Vec<u8>, value: u128, count: usize)
    ensures
        final(out)@ == old(out)@ + le_bytes(value as nat, count as nat),
{
    let mut rest: u128 = value;
    let mut done: usize = 0;
    while done < count
        invariant
            done <= count,
            out@ + le_bytes(rest as nat, (count - done) as nat) == old(out)@ + le_bytes(
                value as nat,
                count as nat,
            ),
        decreases count - done,
    {
        let ghost before = out@;
        let ghost left = rest as nat;
        out.push((rest % 256) as u8);
        rest = rest / 256;
        done = done + 1;
        proof {
            assert(before + le_bytes(left, (count - done + 1) as nat) =~= out@ + le_bytes(
                rest as nat,
                (count - done) as nat,
            ));
        }
    }
    assert(out@ + le_bytes(rest as nat, 0) =~= out@);
}

/// Appends `value` as eight bytes, least significant first.
pub fn push_le_u64(out: &mut Vec<u8>, value: u64)
    ensures
        final(out)@ == old(out)@ + le_bytes(value as nat, 8),
{
    push_le(out, value as u128, 8);
}

/// Appends `value` as four bytes, least significant first.
pub fn push_le_u32(out: &mut Vec<u8>, value: u32)
    ensures
        final(out)@ == old(out)@ + le_bytes(value as nat, 4),
{
    push_le(out, value as u128, 4);
}

/// Numbers with the same low bytes agree modulo the room that the bytes have.
pub proof fn lemma_le_bytes_injective(left: nat, right: nat, count: nat)
    requires
        le_bytes(left, count) == le_bytes(right, count),
        left < pow(256, count),
        right < pow(256, count),
    ensures
        left == right,
    decreases count,
{
    if count == 0 {
        reveal(pow);
    } else {
        let rest = (count - 1) as nat;
        assert(le_bytes(left, count)[0] == (left % 256) as u8);
        assert(le_bytes(right, count)[0] == (right % 256) as u8);
        assert(le_bytes(left, count).skip(1) =~= le_bytes(left / 256, rest));
        assert(le_bytes(right, count).skip(1) =~= le_bytes(right / 256, rest));
        assert(pow(256, count) == 256 * pow(256, rest)) by {
            reveal(pow);
        }
        assert(left / 256 < pow(256, rest));
        assert(right / 256 < pow(256, rest));
        lemma_le_bytes_injective(left / 256, right / 256, rest);
    }
}

/// Whether two byte strings are equal.
pub fn same_bytes(left: &[u8], right: &[u8]) -> (same: bool)
    ensures
        same == (left@ == right@),
{
    let same = left.len() == right.len() && bytes_start_with(left, right);
    proof {
        if left@.len() == right@.len() {
            assert(left@.take(right@.len() as int) =~= left@);
        }
    }
    same
}

} // verus!
