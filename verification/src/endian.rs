//! Big-endian integers as byte strings.
use vstd::prelude::*;

verus! {

/// The number that a byte string denotes when read as a big-endian integer:
/// the first byte weighs most.
pub open spec fn be_value(s: Seq<u8>) -> nat
    decreases s.len(),
{
    if s.len() == 0 {
        0
    } else {
        be_value(s.drop_last()) * 256 + s.last() as nat
    }
}

/// The `n` bytes that write `x` as a big-endian integer. Where `x` needs more
/// than `n` bytes its high part is cut off.
pub open spec fn be_bytes(x: nat, n: nat) -> Seq<u8>
    decreases n,
{
    if n == 0 {
        Seq::empty()
    } else {
        be_bytes(x / 256, (n - 1) as nat).push((x % 256) as u8)
    }
}

/// The number of values that `n` bytes can tell apart: 256 to the power `n`.
pub open spec fn radix(n: nat) -> nat
    decreases n,
{
    if n == 0 {
        1
    } else {
        256 * radix((n - 1) as nat)
    }
}

/// Four bytes hold the numbers below 2^32, eight bytes those below 2^64.
pub proof fn lemma_radix_values()
    ensures
        radix(4) == 0x1_0000_0000,
        radix(8) == 0x1_0000_0000_0000_0000,
{
    reveal_with_fuel(radix, 9);
}

/// `be_bytes(x, n)` has `n` bytes.
pub proof fn lemma_be_bytes_len(x: nat, n: nat)
    ensures
        be_bytes(x, n).len() == n,
    decreases n,
{
    if n > 0 {
        lemma_be_bytes_len(x / 256, (n - 1) as nat);
    }
}

/// A byte string of `n` bytes denotes a number below `radix(n)`.
pub proof fn lemma_be_value_bound(s: Seq<u8>)
    ensures
        be_value(s) < radix(s.len()),
    decreases s.len(),
{
    if s.len() > 0 {
        lemma_be_value_bound(s.drop_last());
    }
}

/// Reading back what was written gives the number, where it fits in `n` bytes.
pub proof fn lemma_be_round_trip(x: nat, n: nat)
    requires
        x < radix(n),
    ensures
        be_bytes(x, n).len() == n,
        be_value(be_bytes(x, n)) == x,
    decreases n,
{
    lemma_be_bytes_len(x, n);
    if n > 0 {
        let m = (n - 1) as nat;
        lemma_be_round_trip(x / 256, m);
        lemma_be_bytes_len(x / 256, m);
        assert(be_bytes(x, n).drop_last() =~= be_bytes(x / 256, m));
    }
}

/// Writing what was read gives the bytes back.
pub proof fn lemma_be_bytes_of_value(s: Seq<u8>)
    ensures
        be_bytes(be_value(s), s.len()) == s,
    decreases s.len(),
{
    if s.len() > 0 {
        let v = be_value(s.drop_last());
        lemma_be_bytes_of_value(s.drop_last());
        assert((v * 256 + s.last() as nat) / 256 == v);
        assert((v * 256 + s.last() as nat) % 256 == s.last() as nat);
        assert(be_bytes(be_value(s), s.len()) =~= s);
    } else {
        assert(be_bytes(be_value(s), s.len()) =~= s);
    }
}

/// The value of four bytes, written out.
pub proof fn lemma_be_value_4(s: Seq<u8>)
    requires
        s.len() == 4,
    ensures
        be_value(s) == s[0] * 0x100_0000 + s[1] * 0x1_0000 + s[2] * 0x100 + s[3],
{
    let s3 = s.drop_last();
    let s2 = s3.drop_last();
    let s1 = s2.drop_last();
    let s0 = s1.drop_last();
    assert(s0.len() == 0);
    assert(be_value(s0) == 0);
    assert(be_value(s1) == s[0]);
    assert(be_value(s2) == s[0] * 256 + s[1]);
    assert(be_value(s3) == (s[0] * 256 + s[1]) * 256 + s[2]);
}

/// Reads the four bytes at `at` as a big-endian integer.
pub fn read_be_u32(bytes: &[u8], at: usize) -> (v: u32)
    requires
        at + 4 <= bytes@.len(),
    ensures
        v == be_value(bytes@.subrange(at as int, at + 4)),
{
    let b0: u32 = bytes[at] as u32;
    let b1: u32 = bytes[at + 1] as u32;
    let b2: u32 = bytes[at + 2] as u32;
    let b3: u32 = bytes[at + 3] as u32;
    proof {
        lemma_be_value_4(bytes@.subrange(at as int, at + 4));
    }
    b0 * 0x100_0000 + b1 * 0x1_0000 + b2 * 0x100 + b3
}

/// Writes `x` as eight bytes, the byte that weighs most first.
pub fn u64_be_bytes(x: u64) -> (r: [u8; 8])
    ensures
        r@ == be_bytes(x as nat, 8),
{
    let b7: u8 = (x % 256) as u8;
    let x6: u64 = x / 256;
    let b6: u8 = (x6 % 256) as u8;
    let x5: u64 = x6 / 256;
    let b5: u8 = (x5 % 256) as u8;
    let x4: u64 = x5 / 256;
    let b4: u8 = (x4 % 256) as u8;
    let x3: u64 = x4 / 256;
    let b3: u8 = (x3 % 256) as u8;
    let x2: u64 = x3 / 256;
    let b2: u8 = (x2 % 256) as u8;
    let x1: u64 = x2 / 256;
    let b1: u8 = (x1 % 256) as u8;
    let x0: u64 = x1 / 256;
    let b0: u8 = (x0 % 256) as u8;
    let r: [u8; 8] = [b0, b1, b2, b3, b4, b5, b6, b7];
    proof {
        reveal_with_fuel(be_bytes, 9);
        assert(r@ =~= be_bytes(x as nat, 8));
    }
    r
}

} // verus!
