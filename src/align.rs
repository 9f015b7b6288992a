use vstd::arithmetic::div_mod::{
    lemma_div_multiples_vanish, lemma_fundamental_div_mod, lemma_mod_breakdown,
    lemma_mod_multiples_basic, lemma_mod_pos_bound,
};
use vstd::arithmetic::mul::lemma_mul_is_commutative;
use vstd::arithmetic::power2::is_pow2;
use vstd::prelude::*;

verus! {

/// The largest multiple of `a` that is at most `size`.
pub open spec fn round_down(size: int, a: int) -> int {
    (size / a) * a
}

/// The smallest multiple of `a` that is at least `size`.
pub open spec fn round_up(size: int, a: int) -> int {
    round_down(size + a - 1, a)
}

/// What `next` returns: `size` rounded up to a multiple of `a`, where the
/// addition that rounds up stops at `usize::MAX` instead of wrapping.
pub open spec fn saturating_round_up(size: int, a: int) -> int {
    if size + a - 1 <= usize::MAX {
        round_up(size, a)
    } else {
        round_down(usize::MAX as int, a)
    }
}

/// A valid alignment: a non-zero power of two.
#[derive(Clone, Copy, PartialEq, Eq, Structural, Debug)]
pub struct Alignment {
    value: usize,
}

impl Alignment {
    #[verifier::type_invariant]
    spec fn valid(self) -> bool {
        is_pow2(self.value as int)
    }
}

impl View for Alignment {
    type V = nat;

    closed spec fn view(&self) -> nat {
        self.value as nat
    }
}

/// A power of two has no bit set below its single set bit.
proof fn lemma_pow2_single_bit(n: usize)
    requires
        is_pow2(n as int),
    ensures
        n != 0,
        n & (n - 1) as usize == 0,
    decreases n,
{
    reveal(is_pow2);
    if n == 1 {
        assert(1usize & 0usize == 0) by (bit_vector);
    } else {
        let m = (n / 2) as usize;
        lemma_pow2_single_bit(m);
        assert(n & (n - 1) as usize == 0) by (bit_vector)
            requires
                m != 0,
                m & (m - 1) as usize == 0,
                n == m * 2,
        ;
    }
}

/// A non-zero value with no bit set below its lowest set bit is a power of two.
proof fn lemma_single_bit_pow2(n: usize)
    requires
        n != 0,
        n & (n - 1) as usize == 0,
    ensures
        is_pow2(n as int),
    decreases n,
{
    reveal(is_pow2);
    if n != 1 {
        assert(n % 2 == 0 && (n / 2) as usize != 0
            && ((n / 2) as usize) & ((n / 2) as usize - 1) as usize == 0) by (bit_vector)
            requires
                n != 0,
                n != 1,
                n & (n - 1) as usize == 0,
        ;
        lemma_single_bit_pow2((n / 2) as usize);
    }
}

/// The bits below a power of two hold the remainder of a division by it.
proof fn lemma_low_bits_are_mod(x: usize, a: usize)
    requires
        is_pow2(a as int),
    ensures
        x & (a - 1) as usize == x % a,
    decreases a,
{
    reveal(is_pow2);
    if a == 1 {
        assert(x & 0usize == 0) by (bit_vector);
    } else {
        let m = (a / 2) as usize;
        lemma_low_bits_are_mod((x / 2) as usize, m);
        lemma_pow2_single_bit(m);
        assert(x & (a - 1) as usize == 2 * (((x / 2) as usize) & (m - 1) as usize) + x % 2)
            by (bit_vector)
            requires
                m != 0,
                a == m * 2,
        ;
        lemma_mod_breakdown(x as int, 2, m as int);
    }
}

/// Masking off the bits below a power of two rounds down to a multiple of it.
proof fn lemma_mask_rounds_down(x: usize, a: usize)
    requires
        is_pow2(a as int),
    ensures
        x & !((a - 1) as usize) == round_down(x as int, a as int),
{
    lemma_pow2_single_bit(a);
    lemma_low_bits_are_mod(x, a);
    assert(x & !((a - 1) as usize) == x - (x & (a - 1) as usize)) by (bit_vector);
    lemma_fundamental_div_mod(x as int, a as int);
}

impl Alignment {
    /// Creates an alignment from a value that must be a non-zero power of two.
    pub fn new(alignment: usize) -> (r: Self)
        requires
            is_pow2(alignment as int),
        ensures
            r@ == alignment,
    {
        Self::try_new(alignment).unwrap()
    }

    /// Creates an alignment, returning `None` unless `alignment` is a non-zero power of two.
    pub fn try_new(alignment: usize) -> (r: Option<Self>)
        ensures
            r.is_some() <==> is_pow2(alignment as int),
            r.is_some() ==> r.unwrap()@ == alignment,
    {
        if alignment != 0 && alignment & (alignment - 1) == 0 {
            proof {
                lemma_single_bit_pow2(alignment);
            }
            Some(Alignment { value: alignment })
        } else {
            proof {
                if is_pow2(alignment as int) {
                    lemma_pow2_single_bit(alignment);
                }
            }
            None
        }
    }

    /// Returns the value at or after `size` that is a multiple of the alignment.
    pub fn next(&self, size: usize) -> (r: usize)
        ensures
            r == saturating_round_up(size as int, self@ as int),
    {
        proof {
            use_type_invariant(self);
            lemma_pow2_single_bit(self.value);
        }
        let mask = self.value - 1;
        let r = size.saturating_add(mask) & !mask;
        proof {
            lemma_mask_rounds_down(size.saturating_add(mask), self.value);
        }
        r
    }

    /// Returns the value at or before `size` that is a multiple of the alignment.
    pub fn prev(&self, size: usize) -> (r: usize)
        ensures
            r == round_down(size as int, self@ as int),
    {
        proof {
            use_type_invariant(self);
            lemma_pow2_single_bit(self.value);
            lemma_mask_rounds_down(size, self.value);
        }
        let mask = self.value - 1;
        size & !mask
    }

    /// Returns the raw value.
    pub fn into_raw(&self) -> (r: usize)
        ensures
            r == self@,
            is_pow2(r as int),
    {
        proof {
            use_type_invariant(self);
        }
        self.value
    }
}

/// Rounding `usize::MAX` down to a power of two keeps the top bit set, so the
/// result lies above `isize::MAX`.
pub(crate) proof fn lemma_round_down_max(a: usize)
    requires
        is_pow2(a as int),
    ensures
        round_down(usize::MAX as int, a as int) > isize::MAX,
{
    lemma_pow2_single_bit(a);
    lemma_mask_rounds_down(usize::MAX, a);
    let m = usize::MAX;
    let h = isize::MAX as usize;
    if m == 0xffff_ffff {
        assert(h == 0x7fff_ffff);
        assert(m & !((a - 1) as usize) > h) by (bit_vector)
            requires
                a != 0,
                a & (a - 1) as usize == 0,
                a <= m,
                m == 0xffff_ffff,
                h == 0x7fff_ffff,
        ;
    } else {
        assert(m == 0xffff_ffff_ffff_ffff);
        assert(h == 0x7fff_ffff_ffff_ffff);
        assert(m & !((a - 1) as usize) > h) by (bit_vector)
            requires
                a != 0,
                a & (a - 1) as usize == 0,
                m == 0xffff_ffff_ffff_ffff,
                h == 0x7fff_ffff_ffff_ffff,
        ;
    }
}

/// Rounding laws of an alignment `a` (a power of two, as every `Alignment`
/// holds): what `next` returns is a multiple of `a` that `prev` leaves as it
/// is, and `prev(size) <= size`. Where rounding up does not reach past
/// `usize::MAX`, also `size <= next(size)`.
pub proof fn lemma_rounding(a: nat, size: usize)
    requires
        is_pow2(a as int),
    ensures
        round_down(saturating_round_up(size as int, a as int), a as int)
            == saturating_round_up(size as int, a as int),
        saturating_round_up(size as int, a as int) % (a as int) == 0,
        round_down(size as int, a as int) <= size,
        size + a - 1 <= usize::MAX ==> size <= saturating_round_up(size as int, a as int),
{
    reveal(is_pow2);
    let n = a as int;
    let y = if size + n - 1 <= usize::MAX { size + n - 1 } else { usize::MAX as int };
    lemma_div_multiples_vanish(y / n, n);
    lemma_mod_multiples_basic(y / n, n);
    lemma_fundamental_div_mod(size as int, n);
    lemma_fundamental_div_mod(size + n - 1, n);
    lemma_mod_pos_bound(size as int, n);
    lemma_mod_pos_bound(size + n - 1, n);
    lemma_mul_is_commutative(n, (size as int) / n);
    lemma_mul_is_commutative(n, (size + n - 1) / n);
}

} // verus!
