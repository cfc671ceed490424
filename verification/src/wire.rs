//! Fixed-width little-endian integers, the building block of every frame.

use vstd::prelude::*;

verus! {

/// The four bytes that stand for `v`, least significant first.
#[verifier::opaque]
pub open spec fn u32_le(v: u32) -> Seq<u8> {
    seq![
        (v % 256) as u8,
        ((v / 256) % 256) as u8,
        ((v / 65536) % 256) as u8,
        ((v / 16777216) % 256) as u8,
    ]
}

/// The number that four little-endian bytes stand for.
#[verifier::opaque]
pub open spec fn u32_of_le(b: Seq<u8>) -> u32
    recommends
        b.len() == 4,
{
    (b[0] as int + 256 * (b[1] as int + 256 * (b[2] as int + 256 * (b[3] as int)))) as u32
}

/// A digit below 256 in front of `rest` splits off again by remainder and
/// quotient.
proof fn lemma_digit(digit: int, rest: int)
    requires
        0 <= digit < 256,
        0 <= rest,
    ensures
        (digit + 256 * rest) % 256 == digit,
        (digit + 256 * rest) / 256 == rest,
{
}

/// Reading back what was written gives the number again.
pub proof fn lemma_u32_le_round_trip(v: u32)
    ensures
        u32_le(v).len() == 4,
        u32_of_le(u32_le(v)) == v,
{
    reveal(u32_le);
    reveal(u32_of_le);
    let q0 = v as int;
    let q1 = q0 / 256;
    let q2 = q1 / 256;
    let q3 = q2 / 256;
    assert(q0 / 65536 == q2);
    assert(q0 / 16777216 == q3);
    assert(q3 < 256);
    assert(q2 == q2 % 256 + 256 * q3);
    assert(q1 == q1 % 256 + 256 * q2);
    assert(q0 == q0 % 256 + 256 * q1);
}

/// Writing what was read gives the same four bytes again.
pub proof fn lemma_u32_of_le_round_trip(b: Seq<u8>)
    requires
        b.len() == 4,
    ensures
        u32_le(u32_of_le(b)) == b,
{
    reveal(u32_le);
    reveal(u32_of_le);
    let r3 = b[3] as int;
    let r2 = b[2] as int + 256 * r3;
    let r1 = b[1] as int + 256 * r2;
    let r0 = b[0] as int + 256 * r1;
    lemma_digit(b[2] as int, r3);
    lemma_digit(b[1] as int, r2);
    lemma_digit(b[0] as int, r1);
    assert(r0 / 65536 == r2);
    assert(r0 / 16777216 == r3);
    assert(u32_le(u32_of_le(b)) =~= b);
}

/// Appends the four little-endian bytes of `v` to `out`.
pub(crate) fn put_u32(out: &mut Vec<u8>, v: u32)
    ensures
        final(out)@ == old(out)@ + u32_le(v),
{
    proof {
        reveal(u32_le);
    }
    out.push((v % 256) as u8);
    out.push(((v / 256) % 256) as u8);
    out.push(((v / 65536) % 256) as u8);
    out.push(((v / 16777216) % 256) as u8);
    assert(out@ =~= old(out)@ + u32_le(v));
}

/// Reads the number that the four bytes from `at` on stand for.
pub(crate) fn get_u32(bytes: &[u8], at: usize) -> (v: u32)
    requires
        at + 4 <= bytes@.len(),
    ensures
        v == u32_of_le(bytes@.subrange(at as int, at + 4)),
{
    proof {
        reveal(u32_of_le);
    }
    let b0: u32 = bytes[at] as u32;
    let b1: u32 = bytes[at + 1] as u32;
    let b2: u32 = bytes[at + 2] as u32;
    let b3: u32 = bytes[at + 3] as u32;
    b0 + 256 * (b1 + 256 * (b2 + 256 * b3))
}

/// The eight bytes that stand for `v`, least significant first.
#[verifier::opaque]
pub open spec fn u64_le(v: u64) -> Seq<u8> {
    seq![
        (v % 256) as u8,
        ((v / 256) % 256) as u8,
        ((v / 65536) % 256) as u8,
        ((v / 16777216) % 256) as u8,
        ((v / 4294967296) % 256) as u8,
        ((v / 1099511627776) % 256) as u8,
        ((v / 281474976710656) % 256) as u8,
        ((v / 72057594037927936) % 256) as u8,
    ]
}

/// The number that eight little-endian bytes stand for.
#[verifier::opaque]
pub open spec fn u64_of_le(b: Seq<u8>) -> u64
    recommends
        b.len() == 8,
{
    (b[0] as int + 256 * (b[1] as int + 256 * (b[2] as int + 256 * (b[3] as int + 256 * (b[4] as int
        + 256 * (b[5] as int + 256 * (b[6] as int + 256 * (b[7] as int)))))))) as u64
}

/// Reading back what was written gives the number again.
pub proof fn lemma_u64_le_round_trip(v: u64)
    ensures
        u64_le(v).len() == 8,
        u64_of_le(u64_le(v)) == v,
{
    reveal(u64_le);
    reveal(u64_of_le);
    let q0 = v as int;
    let q1 = q0 / 256;
    let q2 = q1 / 256;
    let q3 = q2 / 256;
    let q4 = q3 / 256;
    let q5 = q4 / 256;
    let q6 = q5 / 256;
    let q7 = q6 / 256;
    assert(q0 / 65536 == q2);
    assert(q0 / 16777216 == q3);
    assert(q0 / 4294967296 == q4);
    assert(q0 / 1099511627776 == q5);
    assert(q0 / 281474976710656 == q6);
    assert(q0 / 72057594037927936 == q7);
    assert(q7 < 256);
    assert(q6 == q6 % 256 + 256 * q7);
    assert(q5 == q5 % 256 + 256 * q6);
    assert(q4 == q4 % 256 + 256 * q5);
    assert(q3 == q3 % 256 + 256 * q4);
    assert(q2 == q2 % 256 + 256 * q3);
    assert(q1 == q1 % 256 + 256 * q2);
    assert(q0 == q0 % 256 + 256 * q1);
}

/// Writing what was read gives the same eight bytes again.
pub proof fn lemma_u64_of_le_round_trip(b: Seq<u8>)
    requires
        b.len() == 8,
    ensures
        u64_le(u64_of_le(b)) == b,
{
    reveal(u64_le);
    reveal(u64_of_le);
    let r7 = b[7] as int;
    let r6 = b[6] as int + 256 * r7;
    let r5 = b[5] as int + 256 * r6;
    let r4 = b[4] as int + 256 * r5;
    let r3 = b[3] as int + 256 * r4;
    let r2 = b[2] as int + 256 * r3;
    let r1 = b[1] as int + 256 * r2;
    let r0 = b[0] as int + 256 * r1;
    lemma_digit(b[6] as int, r7);
    lemma_digit(b[5] as int, r6);
    lemma_digit(b[4] as int, r5);
    lemma_digit(b[3] as int, r4);
    lemma_digit(b[2] as int, r3);
    lemma_digit(b[1] as int, r2);
    lemma_digit(b[0] as int, r1);
    assert(r0 / 65536 == r2);
    assert(r0 / 16777216 == r3);
    assert(r0 / 4294967296 == r4);
    assert(r0 / 1099511627776 == r5);
    assert(r0 / 281474976710656 == r6);
    assert(r0 / 72057594037927936 == r7);
    assert(u64_le(u64_of_le(b)) =~= b);
}

/// Appends the eight little-endian bytes of `v` to `out`.
pub(crate) fn put_u64(out: &mut Vec<u8>, v: u64)
    ensures
        final(out)@ == old(out)@ + u64_le(v),
{
    proof {
        reveal(u64_le);
    }
    out.push((v % 256) as u8);
    out.push(((v / 256) % 256) as u8);
    out.push(((v / 65536) % 256) as u8);
    out.push(((v / 16777216) % 256) as u8);
    out.push(((v / 4294967296) % 256) as u8);
    out.push(((v / 1099511627776) % 256) as u8);
    out.push(((v / 281474976710656) % 256) as u8);
    out.push(((v / 72057594037927936) % 256) as u8);
    assert(out@ =~= old(out)@ + u64_le(v));
}

/// Reads the number that the eight bytes from `at` on stand for.
pub(crate) fn get_u64(bytes: &[u8], at: usize) -> (v: u64)
    requires
        at + 8 <= bytes@.len(),
    ensures
        v == u64_of_le(bytes@.subrange(at as int, at + 8)),
{
    proof {
        reveal(u64_of_le);
    }
    let b0: u64 = bytes[at] as u64;
    let b1: u64 = bytes[at + 1] as u64;
    let b2: u64 = bytes[at + 2] as u64;
    let b3: u64 = bytes[at + 3] as u64;
    let b4: u64 = bytes[at + 4] as u64;
    let b5: u64 = bytes[at + 5] as u64;
    let b6: u64 = bytes[at + 6] as u64;
    let b7: u64 = bytes[at + 7] as u64;
    b0 + 256 * (b1 + 256 * (b2 + 256 * (b3 + 256 * (b4 + 256 * (b5 + 256 * (b6 + 256 * b7))))))
}

} // verus!
