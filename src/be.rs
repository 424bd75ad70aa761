//! Big-endian byte encodings of unsigned integers.
use vstd::prelude::*;

verus! {

/// `256` raised to the power `n`.
pub open spec fn pow256(n: nat) -> nat
    decreases n,
{
    if n == 0 {
        1
    } else {
        256 * pow256((n - 1) as nat)
    }
}

/// The `n` low-order base-256 digits of `x`, most significant first.
pub open spec fn be_digits(x: nat, n: nat) -> Seq<u8>
    decreases n,
{
    if n == 0 {
        Seq::empty()
    } else {
        be_digits(x / 256, (n - 1) as nat).push((x % 256) as u8)
    }
}

/// The number that a sequence of bytes denotes, read most significant first.
pub open spec fn be_value(s: Seq<u8>) -> nat
    decreases s.len(),
{
    if s.len() == 0 {
        0
    } else {
        be_value(s.drop_last()) * 256 + s.last() as nat
    }
}

pub proof fn lemma_pow256_positive(n: nat)
    ensures
        pow256(n) >= 1,
    decreases n,
{
    if n > 0 {
        lemma_pow256_positive((n - 1) as nat);
    }
}

pub proof fn lemma_pow256_values()
    ensures
        pow256(2) == 0x1_0000,
        pow256(8) == 0x1_0000_0000_0000_0000,
{
    reveal_with_fuel(pow256, 9);
}

pub proof fn lemma_be_digits_len(x: nat, n: nat)
    ensures
        be_digits(x, n).len() == n,
    decreases n,
{
    if n > 0 {
        lemma_be_digits_len(x / 256, (n - 1) as nat);
    }
}

/// A sequence of `n` bytes denotes a number below `256^n`.
pub proof fn lemma_be_value_bound(s: Seq<u8>)
    ensures
        be_value(s) < pow256(s.len()),
    decreases s.len(),
{
    if s.len() > 0 {
        let init = s.drop_last();
        lemma_be_value_bound(init);
        let v = be_value(init);
        let p = pow256(init.len());
        let d = s.last();
        assert(v * 256 + d < 256 * p) by (nonlinear_arith)
            requires
                v < p,
                d < 256,
        ;
    }
}

/// Reading back the digits of a number that fits gives the number.
pub proof fn lemma_be_round_trip(x: nat, n: nat)
    requires
        x < pow256(n),
    ensures
        be_value(be_digits(x, n)) == x,
    decreases n,
{
    if n > 0 {
        let q = x / 256;
        let p = pow256((n - 1) as nat);
        assert(q < p) by (nonlinear_arith)
            requires
                x < 256 * p,
                q == x / 256,
        ;
        lemma_be_round_trip(q, (n - 1) as nat);
        let s = be_digits(x, n);
        assert(s.drop_last() =~= be_digits(q, (n - 1) as nat));
    }
}

/// Appends the `n` low-order big-endian bytes of `x` to `out`.
pub fn push_be(out: &mut Vec<u8>, x: u64, n: usize)
    requires
        n <= 8,
    ensures
        final(out)@ == old(out)@ + be_digits(x as nat, n as nat),
    decreases n,
{
    if n > 0 {
        push_be(out, x / 256, n - 1);
        out.push((x % 256) as u8);
        assert(final(out)@ =~= old(out)@ + be_digits(x as nat, n as nat));
    } else {
        assert(final(out)@ =~= old(out)@ + be_digits(x as nat, n as nat));
    }
}

/// Reads the `n` bytes at `start` as a big-endian number.
pub fn read_be(bytes: &[u8], start: usize, n: usize) -> (r: u64)
    requires
        n <= 8,
        start + n <= bytes@.len(),
    ensures
        r == be_value(bytes@.subrange(start as int, start + n)),
    decreases n,
{
    if n == 0 {
        0
    } else {
        let len = bytes.len();
        let hi = read_be(bytes, start, n - 1);
        assert(start + n <= len);
        let ghost s = bytes@.subrange(start as int, start + n);
        assert(s.drop_last() =~= bytes@.subrange(start as int, start + n - 1));
        proof {
            lemma_be_value_bound(s.drop_last());
            lemma_pow256_values();
            lemma_pow256_monotone((n - 1) as nat, 7);
        }
        hi * 256 + bytes[start + (n - 1)] as u64
    }
}

pub proof fn lemma_pow256_monotone(a: nat, b: nat)
    requires
        a <= b,
    ensures
        pow256(a) <= pow256(b),
    decreases b,
{
    if a < b {
        lemma_pow256_monotone(a, (b - 1) as nat);
        lemma_pow256_positive((b - 1) as nat);
    }
}

} // verus!
