//! Address-alignment and binary-logarithm arithmetic, as the memory
//! allocator uses it to place blocks and pick size classes.

use vstd::prelude::*;

use vstd::arithmetic::div_mod::{
    lemma_fundamental_div_mod, lemma_mod_division_less_than_divisor, lemma_mod_multiples_basic,
};
use vstd::arithmetic::power2::{lemma_pow2_strictly_increases, pow2};

verus! {

/// Whether `n` is a power of two.
pub open spec fn is_power_of_two(n: int) -> bool
    decreases n,
{
    if n <= 0 {
        false
    } else if n == 1 {
        true
    } else {
        n % 2 == 0 && is_power_of_two(n / 2)
    }
}

/// `addr` aligned downwards to the nearest multiple of `align`.
pub open spec fn align_down_spec(addr: int, align: int) -> int {
    (addr / align) * align
}

/// `addr` aligned upwards to the nearest multiple of `align`.
pub open spec fn align_up_spec(addr: int, align: int) -> int {
    if addr % align == 0 {
        addr
    } else {
        align_down_spec(addr, align) + align
    }
}

/// Aligns `addr` downwards to the nearest multiple of `align`: the returned
/// address is the largest multiple of `align` that does not exceed `addr`.
///
/// `align` must be a power of two: no other alignment is meaningful here.
pub fn align_down(addr: usize, align: usize) -> (r: usize)
    requires
        is_power_of_two(align as int),
    ensures
        r == align_down_spec(addr as int, align as int),
        r % align == 0,
        r <= addr,
        addr - r < align,
{
    proof {
        lemma_fundamental_div_mod(addr as int, align as int);
        lemma_mod_division_less_than_divisor(addr as int, align as int);
        lemma_mod_multiples_basic(addr as int / align as int, align as int);
    }
    (addr / align) * align
}

/// Aligns `addr` upwards to the nearest multiple of `align`: the returned
/// address is the smallest multiple of `align` that is at least `addr`.
///
/// `align` must be a power of two, and the aligned address must fit in a
/// machine word.
pub fn align_up(addr: usize, align: usize) -> (r: usize)
    requires
        is_power_of_two(align as int),
        addr + align - 1 <= usize::MAX,
    ensures
        r == align_up_spec(addr as int, align as int),
        r % align == 0,
        addr <= r,
        r - addr < align,
{
    let down = align_down(addr, align);
    proof {
        let q = addr as int / align as int;
        lemma_fundamental_div_mod(addr as int, align as int);
        lemma_mod_multiples_basic(q, align as int);
        lemma_mod_multiples_basic(q + 1, align as int);
        assert((q + 1) * align == q * align + align && align as int * q == q * (align as int))
            by (nonlinear_arith);
    }
    if down == addr {
        down
    } else {
        down + align
    }
}

/// The floor of the binary logarithm of `number`: the unique `r` with
/// `pow2(r) <= number < pow2(r + 1)`.
///
/// `number` must be positive: zero has no logarithm.
#[verifier::loop_isolation(false)]
pub fn log2(number: usize) -> (r: usize)
    requires
        number >= 1,
    ensures
        pow2(r as nat) <= number < pow2(r as nat + 1),
{
    proof {
        vstd::arithmetic::power2::lemma2_to64();
    }
    let mut remaining = number;
    let mut log: usize = 0;
    while remaining > 1
        invariant
            1 <= remaining <= number,
            pow2(log as nat) * remaining <= number,
            number < pow2(log as nat) * (remaining + 1),
        decreases remaining,
    {
        proof {
            let p = pow2(log as nat) as int;
            assert(p <= p * (remaining as int)) by (nonlinear_arith)
                requires
                    p >= 0,
                    remaining >= 1,
            ;
            lemma_usize_below_pow2(log as nat, number as nat);
            lemma_log2_step(log as nat, remaining as int, number as int);
        }
        remaining = remaining / 2;
        log = log + 1;
    }
    proof {
        let p = pow2(log as nat) as int;
        assert(p * (remaining as int) == p && p * (remaining as int + 1) == 2 * p)
            by (nonlinear_arith)
            requires
                remaining == 1,
        ;
        vstd::arithmetic::power2::lemma_pow2_unfold(log as nat + 1);
    }
    log
}

/// One halving step of the logarithm loop: dividing the remaining value by
/// two while raising the power keeps the number bracketed.
proof fn lemma_log2_step(log: nat, remaining: int, number: int)
    requires
        remaining >= 2,
        pow2(log) * remaining <= number,
        number < pow2(log) * (remaining + 1),
    ensures
        pow2(log + 1) * (remaining / 2) <= number,
        number < pow2(log + 1) * (remaining / 2 + 1),
{
    vstd::arithmetic::power2::lemma_pow2_unfold(log + 1);
    vstd::arithmetic::power2::lemma_pow2_pos(log);
    let p = pow2(log) as int;
    let h = remaining / 2;
    assert(remaining == 2 * h || remaining == 2 * h + 1);
    assert(p * (2 * h) <= p * remaining && p * (remaining + 1) <= p * (2 * h + 2)) by (nonlinear_arith)
        requires
            p >= 1,
            remaining == 2 * h || remaining == 2 * h + 1,
    ;
    assert((2 * p) * h == p * (2 * h) && (2 * p) * (h + 1) == p * (2 * h + 2)) by (nonlinear_arith);
}

/// A power of two that fits below a machine word has a small exponent, so
/// the loop's counter cannot overflow.
proof fn lemma_usize_below_pow2(log: nat, bound: nat)
    requires
        pow2(log) <= bound,
        bound <= usize::MAX,
    ensures
        log < usize::MAX,
    decreases log,
{
    lemma_nat_below_own_pow2(log);
}

/// Every exponent is below its own power of two.
proof fn lemma_nat_below_own_pow2(e: nat)
    ensures
        e < pow2(e),
    decreases e,
{
    vstd::arithmetic::power2::lemma_pow2_pos(e);
    if e > 0 {
        lemma_nat_below_own_pow2((e - 1) as nat);
        vstd::arithmetic::power2::lemma_pow2_unfold(e);
        vstd::arithmetic::power2::lemma_pow2_pos((e - 1) as nat);
    }
}

/// The ceiling of the binary logarithm of `number`: the unique `r` with
/// `number <= pow2(r)`, and `pow2(r - 1) < number` unless `r` is zero.
///
/// `number` must be positive: zero has no logarithm.
pub fn log2_up(number: usize) -> (r: usize)
    requires
        number >= 1,
    ensures
        number <= pow2(r as nat),
        r > 0 ==> pow2((r - 1) as nat) < number,
{
    let log = log2(number);
    proof {
        lemma_usize_below_pow2(log as nat, number as nat);
    }
    if power_of_two_check(number) {
        proof {
            lemma_pow2_bracket_exact(number as nat, log as nat);
            if log > 0 {
                lemma_pow2_strictly_increases((log - 1) as nat, log as nat);
            }
        }
        log
    } else {
        proof {
            if number == pow2(log as nat) {
                lemma_pow2_is_power_of_two(log as nat);
            }
        }
        log + 1
    }
}

/// Reports whether `number` is a power of two.
pub fn power_of_two_check(number: usize) -> (r: bool)
    ensures
        r == is_power_of_two(number as int),
{
    if number == 0 {
        return false;
    }
    let mut m = number;
    while m > 1
        invariant
            m >= 1,
            is_power_of_two(number as int) == is_power_of_two(m as int),
        decreases m,
    {
        if m % 2 == 1 {
            return false;
        }
        m = m / 2;
    }
    true
}

/// A power of two bracketed by `pow2(r)` and `pow2(r + 1)` is exactly
/// `pow2(r)`.
proof fn lemma_pow2_bracket_exact(n: nat, r: nat)
    requires
        is_power_of_two(n as int),
        pow2(r) <= n < pow2(r + 1),
    ensures
        n == pow2(r),
    decreases n,
{
    vstd::arithmetic::power2::lemma2_to64();
    vstd::arithmetic::power2::lemma_pow2_unfold(r + 1);
    if n == 1 {
        if r > 0 {
            lemma_pow2_strictly_increases(0, r);
        }
    } else {
        vstd::arithmetic::power2::lemma_pow2_pos(r);
        if r == 0 {
        } else {
            vstd::arithmetic::power2::lemma_pow2_unfold(r);
            lemma_fundamental_div_mod(n as int, 2);
            assert(n == 2 * (n as int / 2));
            lemma_pow2_bracket_exact(n / 2, (r - 1) as nat);
        }
    }
}

/// Every `pow2(e)` is a power of two.
proof fn lemma_pow2_is_power_of_two(e: nat)
    ensures
        is_power_of_two(pow2(e) as int),
    decreases e,
{
    if e == 0 {
        vstd::arithmetic::power2::lemma2_to64();
    } else {
        lemma_pow2_is_power_of_two((e - 1) as nat);
        vstd::arithmetic::power2::lemma_pow2_unfold(e);
        vstd::arithmetic::power2::lemma_pow2_pos((e - 1) as nat);
    }
}

} // verus!
