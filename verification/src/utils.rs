//! The 16-bit one's-complement Internet checksum with carry fold, seedable so
//! that a pseudo-header sum can be composed into a transport checksum.

use vstd::prelude::*;
use vstd::arithmetic::div_mod::{
    lemma_fundamental_div_mod, lemma_mod_multiples_vanish, lemma_sub_mod_noop, lemma_small_mod,
};

verus! {

/// The sum of the big-endian 16-bit words of `data`; an odd final byte counts
/// as the high byte of a word whose low byte is zero.
pub open spec fn words_sum(data: Seq<u8>) -> int
    decreases data.len(),
{
    if data.len() == 0 {
        0
    } else if data.len() == 1 {
        data[0] * 0x100
    } else {
        data[0] * 0x100 + data[1] + words_sum(data.skip(2))
    }
}

/// The result of folding carries into the low 16 bits until none remain.
/// Repeated folding of a non-negative sum leaves its value modulo 0xffff,
/// except that a positive multiple of 0xffff folds to 0xffff, never to 0.
pub open spec fn fold_carries(x: int) -> int {
    if x % 0xffff == 0 {
        if x == 0 {
            0
        } else {
            0xffff
        }
    } else {
        x % 0xffff
    }
}

/// The Internet checksum of `data` with the 16-bit seed `seed`: the
/// one's complement of the carry-folded word sum.
pub open spec fn checksum_spec(data: Seq<u8>, seed: u16) -> u16 {
    (0xffff - fold_carries(seed + words_sum(data))) as u16
}

pub proof fn lemma_words_sum_bounds(data: Seq<u8>)
    ensures
        0 <= words_sum(data) <= 0xffff * ((data.len() + 1) / 2),
    decreases data.len(),
{
    if data.len() == 0 {
    } else if data.len() == 1 {
    } else {
        lemma_words_sum_bounds(data.skip(2));
    }
}

/// Word sums split across a concatenation at any even boundary.
pub proof fn lemma_words_sum_append_even(a: Seq<u8>, b: Seq<u8>)
    requires
        a.len() % 2 == 0,
    ensures
        words_sum(a + b) == words_sum(a) + words_sum(b),
    decreases a.len(),
{
    if a.len() == 0 {
        assert(a + b =~= b);
    } else {
        assert((a + b).skip(2) =~= a.skip(2) + b);
        assert((a + b)[0] == a[0]);
        assert((a + b)[1] == a[1]);
        lemma_words_sum_append_even(a.skip(2), b);
    }
}

/// What carry folding leaves: a value within 16 bits that keeps the sum's
/// residue modulo 0xffff, zero only for a zero sum.
pub proof fn lemma_fold_carries_props(x: int)
    requires
        x >= 0,
    ensures
        0 <= fold_carries(x) <= 0xffff,
        fold_carries(x) % 0xffff == x % 0xffff,
        fold_carries(x) == 0 <==> x == 0,
{
    assert(0 <= x % 0xffff < 0xffff) by (nonlinear_arith)
        requires
            x >= 0,
    ;
    if x % 0xffff == 0 {
        assert(0xffffint % 0xffff == 0);
    } else {
        lemma_small_mod((x % 0xffff) as nat, 0xffff);
    }
}

/// Complementing a 16-bit value subtracts it from 0xffff.
pub proof fn lemma_not_u16(x: u16)
    ensures
        !x == (0xffff - x) as u16,
{
    assert(!x == (0xffff - x) as u16) by (bit_vector);
}

/// One folding step `x -> x % 0x10000 + x / 0x10000` keeps `fold_carries`.
proof fn lemma_fold_step(x: int)
    requires
        0x10000 <= x,
    ensures
        0 < x % 0x10000 + x / 0x10000 < x,
        fold_carries(x % 0x10000 + x / 0x10000) == fold_carries(x),
{
    let q = x / 0x10000;
    let r = x % 0x10000;
    lemma_fundamental_div_mod(x, 0x10000);
    assert(x == 0x10000 * q + r);
    assert(q >= 1);
    assert(x - (q + r) == 0xffff * q) by (nonlinear_arith)
        requires
            x == 0x10000 * q + r,
    ;
    assert(0xffff * q >= 0xffff) by (nonlinear_arith)
        requires
            q >= 1,
    ;
    // x = 0xffff * q + (q + r), so both have the same residue mod 0xffff.
    lemma_mod_multiples_vanish(q, q + r, 0xffff);
    assert((q + r) % 0xffff == x % 0xffff);
}

/// Folding a value already below 0x10000 is the identity.
proof fn lemma_fold_small(x: int)
    requires
        0 <= x < 0x10000,
    ensures
        fold_carries(x) == x,
{
    if x < 0xffff {
        lemma_small_mod(x as nat, 0xffff);
    } else {
        assert(0xffffint % 0xffff == 0);
    }
}

/// Checksum involution: summing a buffer with its own checksum as the seed
/// folds to 0xffff, whose one's complement is zero. This is what a receiver
/// relies on when it checks a checksummed buffer.
pub proof fn lemma_checksum_involution(data: Seq<u8>)
    ensures
        checksum_spec(data, checksum_spec(data, 0)) == 0,
{
    let s = words_sum(data);
    lemma_words_sum_bounds(data);
    let f = fold_carries(s);
    let c1 = 0xffff - f;
    assert(checksum_spec(data, 0) == c1 as u16);
    let x = c1 + s;
    if s == 0 {
        assert(f == 0);
        assert(x == 0xffff);
        assert(0xffffint % 0xffff == 0);
        assert(fold_carries(x) == 0xffff);
    } else {
        // f and s share a residue mod 0xffff, and 1 <= f <= 0xffff.
        lemma_mod_bound_pos(s);
        assert(f % 0xffff == s % 0xffff) by {
            if s % 0xffff == 0 {
                assert(f == 0xffff);
                assert(0xffffint % 0xffff == 0);
            } else {
                lemma_small_mod((s % 0xffff) as nat, 0xffff);
            }
        }
        // x = (s - f) + 0xffff, and s - f is a multiple of 0xffff.
        lemma_sub_mod_noop(s, f, 0xffff);
        assert((s - f) % 0xffff == (s % 0xffff - f % 0xffff) % 0xffff);
        assert((s - f) % 0xffff == 0) by {
            assert(s % 0xffff - f % 0xffff == 0);
            assert(0int % 0xffff == 0);
        }
        lemma_mod_multiples_vanish(1, s - f, 0xffff);
        assert(x == 0xffff * 1 + (s - f));
        assert(x % 0xffff == 0);
        assert(x >= 0xffff);
        assert(fold_carries(x) == 0xffff);
    }
    assert(checksum_spec(data, c1 as u16) == 0);
}

proof fn lemma_mod_bound_pos(s: int)
    requires
        s > 0,
    ensures
        0 <= s % 0xffff < 0xffff,
        1 <= fold_carries(s) <= 0xffff,
{
    assert(0 <= s % 0xffff < 0xffff) by (nonlinear_arith)
        requires
            s > 0,
    ;
}

/// The big-endian 16-bit value of two bytes.
pub open spec fn spec_be16(b0: u8, b1: u8) -> u16 {
    (b0 * 0x100 + b1) as u16
}

/// The high byte of a 16-bit value.
pub open spec fn spec_hi16(x: u16) -> u8 {
    (x / 0x100) as u8
}

/// The low byte of a 16-bit value.
pub open spec fn spec_lo16(x: u16) -> u8 {
    (x % 0x100) as u8
}

/// The big-endian 32-bit value of four bytes.
pub open spec fn spec_be32(b0: u8, b1: u8, b2: u8, b3: u8) -> u32 {
    (b0 * 0x1000000 + b1 * 0x10000 + b2 * 0x100 + b3) as u32
}

/// Byte `i` (0 = most significant) of a 32-bit value in big-endian order.
pub open spec fn spec_oct(x: u32, i: int) -> u8 {
    if i == 0 {
        (x / 0x1000000) as u8
    } else if i == 1 {
        ((x / 0x10000) % 0x100) as u8
    } else if i == 2 {
        ((x / 0x100) % 0x100) as u8
    } else {
        (x % 0x100) as u8
    }
}

pub proof fn lemma_be16_roundtrip(x: u16)
    ensures
        spec_be16(spec_hi16(x), spec_lo16(x)) == x,
{
    lemma_fundamental_div_mod(x as int, 0x100);
}

pub proof fn lemma_be32_roundtrip(x: u32)
    ensures
        spec_be32(spec_oct(x, 0), spec_oct(x, 1), spec_oct(x, 2), spec_oct(x, 3)) == x,
{
    let d = x as int;
    lemma_fundamental_div_mod(d, 0x100);
    lemma_fundamental_div_mod(d / 0x100, 0x100);
    lemma_fundamental_div_mod(d / 0x10000, 0x100);
    vstd::arithmetic::div_mod::lemma_div_denominator(d, 0x100, 0x100);
    assert(d / 0x100 / 0x100 == d / 0x10000);
    vstd::arithmetic::div_mod::lemma_div_denominator(d, 0x10000, 0x100);
    assert(d / 0x10000 / 0x100 == d / 0x1000000);
}

/// Compute the Internet checksum of `data`, seeded with `sum`. Feeding the
/// one's complement of a previously computed sum back in as the seed composes
/// a pseudo-header into a transport checksum.
pub fn calculate_checksum(data: &[u8], sum: u16) -> (result: u16)
    requires
        data@.len() <= 0x10000,
    ensures
        result == checksum_spec(data@, sum),
{
    let seed = sum;
    let ghost s = data@;
    let mut acc: u32 = sum as u32;
    let mut i: usize = 0;
    proof {
        lemma_words_sum_bounds(s);
        assert(s.skip(0) =~= s);
    }
    while i + 1 < data.len()
        invariant
            i <= data@.len() <= 0x10000,
            i % 2 == 0,
            data@ == s,
            seed == sum,
            acc == seed + words_sum(s) - words_sum(s.skip(i as int)),
            0 <= words_sum(s) <= 0xffff * ((s.len() + 1) / 2),
        decreases data@.len() - i,
    {
        let word: u32 = data[i] as u32 * 0x100 + data[i + 1] as u32;
        proof {
            let tail = s.skip(i as int);
            lemma_words_sum_bounds(tail);
            lemma_words_sum_bounds(s.skip(i + 2 as int));
            assert(tail.skip(2) =~= s.skip(i + 2 as int));
            assert(words_sum(tail) == word + words_sum(s.skip(i + 2 as int)));
        }
        acc = acc + word;
        i = i + 2;
    }
    if i < data.len() {
        proof {
            let tail = s.skip(i as int);
            assert(tail.len() == 1);
            assert(words_sum(tail) == s[i as int] * 0x100);
        }
        acc = acc + data[i] as u32 * 0x100;
        proof {
            assert(s.skip(s.len() as int) =~= Seq::<u8>::empty());
        }
    } else {
        proof {
            assert(s.skip(i as int).len() == 0);
            assert(words_sum(s.skip(i as int)) == 0);
        }
    }
    assert(acc == seed + words_sum(s));
    let ghost total = seed + words_sum(s);
    while acc >= 0x10000
        invariant
            0 <= total,
            fold_carries(acc as int) == fold_carries(total),
        decreases acc,
    {
        proof {
            lemma_fold_step(acc as int);
        }
        acc = acc % 0x10000 + acc / 0x10000;
    }
    proof {
        lemma_fold_small(acc as int);
    }
    let folded: u16 = acc as u16;
    let result: u16 = !folded;
    proof {
        assert(!folded == (0xffff - folded) as u16) by (bit_vector);
    }
    result
}

} // verus!
