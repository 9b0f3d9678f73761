//! Unsigned 256-bit intermediates for fixed-point arithmetic: a full
//! 128 x 128 bit product and the division of a 256-bit number by a
//! divisor of at most 2^255, a word at a time.
use vstd::prelude::*;
use vstd::arithmetic::power2::*;
use vstd::arithmetic::div_mod::*;
use vstd::bits::*;

verus! {

/// 2^64, the base of the half-words used by `mul_wide`.
#[verifier::inline]
pub open spec fn half_base() -> int {
    0x1_0000_0000_0000_0000
}

/// 2^128, the base of the words of a 256-bit number.
#[verifier::inline]
pub open spec fn word_base() -> int {
    0x1_0000_0000_0000_0000_0000_0000_0000_0000int
}

/// The number written by the two words `hi` and `lo`.
pub open spec fn wide_value(hi: u128, lo: u128) -> int {
    hi * word_base() + lo
}

proof fn lemma_half_split(x: u128)
    ensures
        x == (x / 0x1_0000_0000_0000_0000u128) * half_base() + x % 0x1_0000_0000_0000_0000u128,
        x / 0x1_0000_0000_0000_0000u128 < half_base(),
        x % 0x1_0000_0000_0000_0000u128 < half_base(),
{
    lemma_fundamental_div_mod(x as int, half_base());
}

proof fn lemma_product_expansion(x1: int, x0: int, y1: int, y0: int)
    ensures
        (x1 * half_base() + x0) * (y1 * half_base() + y0) == x1 * y1 * word_base() + (x1 * y0
            + x0 * y1) * half_base() + x0 * y0,
{
    assert((x1 * half_base() + x0) * (y1 * half_base() + y0) == x1 * y1 * (half_base()
        * half_base()) + (x1 * y0 + x0 * y1) * half_base() + x0 * y0) by (nonlinear_arith);
}

proof fn lemma_half_product_bound(a: int, b: int)
    requires
        0 <= a < half_base(),
        0 <= b < half_base(),
    ensures
        0 <= a * b <= (half_base() - 1) * (half_base() - 1),
{
    assert(0 <= a * b <= (half_base() - 1) * (half_base() - 1)) by (nonlinear_arith)
        requires
            0 <= a < half_base(),
            0 <= b < half_base(),
    ;
}

proof fn lemma_word_product_bound(x: int, y: int)
    requires
        0 <= x < word_base(),
        0 <= y < word_base(),
    ensures
        0 <= x * y < word_base() * word_base(),
{
    assert(0 <= x * y < word_base() * word_base()) by (nonlinear_arith)
        requires
            0 <= x < word_base(),
            0 <= y < word_base(),
    ;
}

/// The full product of two 128-bit numbers, as a high and a low word.
pub fn mul_wide(x: u128, y: u128) -> (res: (u128, u128))
    ensures
        wide_value(res.0, res.1) == x * y,
{
    let b: u128 = 0x1_0000_0000_0000_0000;
    let x1 = x / b;
    let x0 = x % b;
    let y1 = y / b;
    let y0 = y % b;
    proof {
        lemma_half_split(x);
        lemma_half_split(y);
        lemma_half_product_bound(x0 as int, y0 as int);
        lemma_half_product_bound(x0 as int, y1 as int);
        lemma_half_product_bound(x1 as int, y0 as int);
        lemma_half_product_bound(x1 as int, y1 as int);
    }
    let p00 = x0 * y0;
    let p01 = x0 * y1;
    let p10 = x1 * y0;
    let p11 = x1 * y1;
    proof {
        lemma_half_split(p00);
        lemma_half_split(p01);
        lemma_half_split(p10);
    }
    let t = p00 / b + p01 % b + p10 % b;
    proof {
        lemma_half_split(t);
    }
    let lo = p00 % b + (t % b) * b;
    let ghost h: int = p11 + p01 / b + p10 / b + t / b;
    proof {
        lemma_product_expansion(x1 as int, x0 as int, y1 as int, y0 as int);
        assert(x * y == p11 * word_base() + (p10 + p01) * half_base() + p00);
        assert(h * word_base() + lo == x * y) by (nonlinear_arith)
            requires
                h == p11 + p01 / b + p10 / b + t / b,
                lo == p00 % b + (t % b) * b,
                t == p00 / b + p01 % b + p10 % b,
                t == (t / b) * half_base() + t % b,
                p00 == (p00 / b) * half_base() + p00 % b,
                p01 == (p01 / b) * half_base() + p01 % b,
                p10 == (p10 / b) * half_base() + p10 % b,
                b == half_base(),
                word_base() == half_base() * half_base(),
                x * y == p11 * word_base() + (p10 + p01) * half_base() + p00,
        ;
        lemma_word_product_bound(x as int, y as int);
        assert(h < word_base()) by (nonlinear_arith)
            requires
                h * word_base() + lo == x * y,
                x * y < word_base() * word_base(),
                lo >= 0,
                word_base() > 0,
        ;
    }
    let hi = p11 + p01 / b + p10 / b + t / b;
    (hi, lo)
}

proof fn lemma_next_bit(x: int, p: int)
    requires
        x >= 0,
        p > 0,
    ensures
        x / p == 2 * (x / (2 * p)) + (x / p) % 2,
{
    lemma_div_denominator(x, p, 2);
    lemma_fundamental_div_mod(x / p, 2);
}

proof fn lemma_linear_step(p_new: int, p_old: int, a_new: int, a_old: int, l_new: int, l_old: int, bit: int)
    requires
        p_new == 2 * p_old + bit,
        p_old == a_old + l_old,
        a_new == 2 * a_old,
        l_new == 2 * l_old + bit,
    ensures
        p_new == a_new + l_new,
{
}

/// 2^127: the largest divisor that `div_step` takes is this many words.
#[verifier::inline]
pub open spec fn half_word() -> int {
    0x8000_0000_0000_0000_0000_0000_0000_0000
}

/// `a + b` as a carry of 0 or 1 and a word.
pub fn add_carry(a: u128, b: u128) -> (res: (u128, u128))
    ensures
        res.0 <= 1,
        res.0 * word_base() + res.1 == a + b,
{
    if a <= u128::MAX - b {
        (0, a + b)
    } else {
        (1, a - (u128::MAX - b) - 1)
    }
}

/// Whether the 256-bit number `(ah, al)` is at least `(bh, bl)`.
pub fn wide_ge(ah: u128, al: u128, bh: u128, bl: u128) -> (r: bool)
    ensures
        r == (wide_value(ah, al) >= wide_value(bh, bl)),
{
    ah > bh || (ah == bh && al >= bl)
}

/// The difference of two 256-bit numbers, the first being the larger.
pub fn wide_sub(ah: u128, al: u128, bh: u128, bl: u128) -> (res: (u128, u128))
    requires
        wide_value(ah, al) >= wide_value(bh, bl),
    ensures
        wide_value(res.0, res.1) == wide_value(ah, al) - wide_value(bh, bl),
{
    if al >= bl {
        (ah - bh, al - bl)
    } else {
        (ah - bh - 1, al + (u128::MAX - bl) + 1)
    }
}

/// Twice a 256-bit number plus one bit, where that fits in 256 bits.
fn wide_double_plus(h: u128, l: u128, bit: u128) -> (res: (u128, u128))
    requires
        bit <= 1,
        2 * wide_value(h, l) + bit < word_base() * word_base(),
    ensures
        wide_value(res.0, res.1) == 2 * wide_value(h, l) + bit,
{
    if l >= 0x8000_0000_0000_0000_0000_0000_0000_0000 {
        assert(2 * h + 1 < word_base()) by (nonlinear_arith)
            requires
                2 * (h * word_base() + l) + bit < word_base() * word_base(),
                l >= half_word(),
                2 * half_word() == word_base(),
                bit >= 0,
        ;
        (2 * h + 1, 2 * (l - 0x8000_0000_0000_0000_0000_0000_0000_0000) + bit)
    } else {
        assert(2 * h < word_base()) by (nonlinear_arith)
            requires
                2 * (h * word_base() + l) + bit < word_base() * word_base(),
                l >= 0,
                bit >= 0,
        ;
        (2 * h, 2 * l + bit)
    }
}

/// One step of long division by a 256-bit divisor `d`: the remainder `r`
/// so far, with the next word `w` brought down, divided by `d`. Since
/// `r < d` the quotient fits in a word.
pub fn div_step(r_hi: u128, r_lo: u128, w: u128, d_hi: u128, d_lo: u128) -> (res: (
    u128,
    u128,
    u128,
))
    requires
        0 < wide_value(d_hi, d_lo) <= half_word() * word_base(),
        wide_value(r_hi, r_lo) < wide_value(d_hi, d_lo),
    ensures
        res.0 * wide_value(d_hi, d_lo) + wide_value(res.1, res.2) == wide_value(r_hi, r_lo)
            * word_base() + w,
        wide_value(res.1, res.2) < wide_value(d_hi, d_lo),
{
    let ghost d: int = wide_value(d_hi, d_lo);
    let ghost r0: int = wide_value(r_hi, r_lo);
    let mut q: u128 = 0;
    let mut rh: u128 = r_hi;
    let mut rl: u128 = r_lo;
    let mut i: u128 = 0;
    proof {
        lemma_pow2_pos(128);
        lemma2_to64();
        lemma_pow2_adds(64, 64);
        assert(pow2(128) == word_base());
        lemma_basic_div(w as int, pow2(128) as int);
        lemma_pow2_unfold(128);
    }
    while i < 128
        invariant
            i <= 128,
            d == wide_value(d_hi, d_lo),
            0 < d <= half_word() * word_base(),
            wide_value(rh, rl) < d,
            q < pow2(i as nat),
            pow2(128) == word_base(),
            pow2(0) == 1,
            pow2(127) * 2 == word_base(),
            q * d + wide_value(rh, rl) == r0 * pow2(i as nat) + w as int / (pow2(
                (128 - i) as nat,
            ) as int),
        decreases 128 - i,
    {
        let s: u128 = 127 - i;
        let bit = (w >> s) % 2;
        let ghost pw: int = pow2(s as nat) as int;
        let ghost pw2: int = pow2((128 - i) as nat) as int;
        proof {
            lemma_u128_shr_is_div(w, s);
            lemma_pow2_pos(s as nat);
            lemma_pow2_unfold((128 - i) as nat);
            assert(pw2 == 2 * pw);
            lemma_next_bit(w as int, pw);
            assert(bit == (w as int / pw) % 2);
            lemma_pow2_unfold((i + 1) as nat);
            if i < 127 {
                lemma_pow2_strictly_increases(i as nat, 127);
            }
        }
        let ghost q_old: int = q as int;
        let ghost r_old: int = wide_value(rh, rl);
        let (th, tl) = wide_double_plus(rh, rl, bit);
        if wide_ge(th, tl, d_hi, d_lo) {
            let (nh, nl) = wide_sub(th, tl, d_hi, d_lo);
            rh = nh;
            rl = nl;
            q = 2 * q + 1;
            proof {
                assert(q * d + wide_value(rh, rl) == 2 * (q_old * d + r_old) + bit) by (
                nonlinear_arith)
                    requires
                        q == 2 * q_old + 1,
                        wide_value(rh, rl) == 2 * r_old + bit - d,
                ;
            }
        } else {
            rh = th;
            rl = tl;
            q = 2 * q;
            proof {
                assert(q * d + wide_value(rh, rl) == 2 * (q_old * d + r_old) + bit) by (
                nonlinear_arith)
                    requires
                        q == 2 * q_old,
                        wide_value(rh, rl) == 2 * r_old + bit,
                ;
            }
        }
        proof {
            assert(r0 * pow2((i + 1) as nat) == 2 * (r0 * pow2(i as nat))) by (nonlinear_arith)
                requires
                    pow2((i + 1) as nat) == 2 * pow2(i as nat),
            ;
            lemma_linear_step(
                q * d + wide_value(rh, rl),
                q_old * d + r_old,
                r0 * pow2((i + 1) as nat),
                r0 * pow2(i as nat),
                w as int / pw,
                w as int / pw2,
                bit as int,
            );
        }
        i = i + 1;
    }
    assert(w as int / (pow2(0) as int) == w);
    (q, rh, rl)
}

} // verus!
