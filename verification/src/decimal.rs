//! `Decimal`: a signed fixed-point amount with 18 decimal places, held as
//! a 256-bit two's-complement count of 10^-18 units ("attos"), written as
//! a signed high word and an unsigned low word.
use vstd::prelude::*;
use vstd::arithmetic::div_mod::*;
use crate::wide::{add_carry, div_step, half_word, mul_wide, wide_value, word_base};

verus! {

/// Number of attos in one whole unit: 10^18.
pub open spec fn attos_per_unit() -> int {
    1_000_000_000_000_000_000
}

pub open spec fn abs(x: int) -> int {
    if x < 0 {
        -x
    } else {
        x
    }
}

/// Integer division rounded toward zero, as Rust's `/` on signed integers.
pub open spec fn trunc_div(n: int, d: int) -> int {
    if (n < 0) == (d < 0) {
        abs(n) / abs(d)
    } else {
        -(abs(n) / abs(d))
    }
}

/// 2^255: a `Decimal` holds from -2^255 up to 2^255 - 1 attos.
#[verifier::inline]
pub open spec fn decimal_bound() -> int {
    0x8000_0000_0000_0000_0000_0000_0000_0000_0000_0000_0000_0000_0000_0000_0000_0000int
}

/// Whether `v` attos can be held by a `Decimal`.
pub open spec fn in_decimal_range(v: int) -> bool {
    -decimal_bound() <= v < decimal_bound()
}

/// The exact attos of the product of two amounts, rounded toward zero.
pub open spec fn mul_attos(a: int, b: int) -> int {
    trunc_div(a * b, attos_per_unit())
}

/// The exact attos of the quotient of two amounts, rounded toward zero.
pub open spec fn div_attos(a: int, b: int) -> int {
    trunc_div(a * attos_per_unit(), b)
}

/// A fixed-point amount of `hi * 2^128 + lo` attos, each atto standing
/// for 10^-18.
#[derive(Clone, Copy, PartialEq, Eq, Structural, Debug, Hash)]
pub struct Decimal {
    pub hi: i128,
    pub lo: u128,
}

/// 256^n.
pub open spec fn byte_power(n: nat) -> nat
    decreases n,
{
    if n == 0 {
        1
    } else {
        256 * byte_power((n - 1) as nat)
    }
}

/// `n` as `len` big-endian base-256 digits (the low `len` bytes of `n`).
pub open spec fn be_bytes(n: nat, len: nat) -> Seq<u8>
    decreases len,
{
    if len == 0 {
        seq![]
    } else {
        be_bytes(n / 256, (len - 1) as nat).push((n % 256) as u8)
    }
}

/// The two's-complement form of an amount of `v` attos, read as an
/// unsigned 256-bit number.
pub open spec fn twos_complement(v: int) -> nat {
    if v >= 0 {
        v as nat
    } else {
        (v + word_base() * word_base()) as nat
    }
}

impl Decimal {
    /// The amount in attos.
    pub open spec fn attos(self) -> int {
        self.hi * word_base() + self.lo
    }

    /// The 32 big-endian bytes of the amount's two's-complement form.
    pub open spec fn spec_to_be_bytes(self) -> Seq<u8> {
        be_bytes(twos_complement(self.attos()), 32)
    }

    pub fn zero() -> (r: Decimal)
        ensures
            r.attos() == 0,
    {
        Decimal { hi: 0, lo: 0 }
    }

    pub fn one() -> (r: Decimal)
        ensures
            r.attos() == attos_per_unit(),
    {
        Decimal { hi: 0, lo: 1_000_000_000_000_000_000 }
    }

    /// The largest amount.
    pub fn max_value() -> (r: Decimal)
        ensures
            r.attos() == decimal_bound() - 1,
    {
        Decimal { hi: i128::MAX, lo: u128::MAX }
    }

    /// The amount of `n` attos.
    pub fn from_attos(n: i128) -> (r: Decimal)
        ensures
            r.attos() == n,
    {
        if n >= 0 {
            Decimal { hi: 0, lo: n as u128 }
        } else {
            Decimal { hi: -1, lo: ((n - i128::MIN) as u128) + 0x8000_0000_0000_0000_0000_0000_0000_0000 }
        }
    }

    pub fn is_zero(&self) -> (r: bool)
        ensures
            r == (self.attos() == 0),
    {
        self.hi == 0 && self.lo == 0
    }

    pub fn is_positive(&self) -> (r: bool)
        ensures
            r == (self.attos() > 0),
    {
        self.hi > 0 || (self.hi == 0 && self.lo > 0)
    }

    pub fn is_negative(&self) -> (r: bool)
        ensures
            r == (self.attos() < 0),
    {
        self.hi < 0
    }

    pub fn checked_add(self, other: Decimal) -> (r: Option<Decimal>)
        ensures
            r is Some <==> in_decimal_range(self.attos() + other.attos()),
            r matches Some(v) ==> v.attos() == self.attos() + other.attos(),
    {
        let (carry, lo) = add_carry(self.lo, other.lo);
        match add_high(self.hi, other.hi, carry == 1) {
            Some(hi) => Some(Decimal { hi, lo }),
            None => None,
        }
    }

    pub fn checked_sub(self, other: Decimal) -> (r: Option<Decimal>)
        ensures
            r is Some <==> in_decimal_range(self.attos() - other.attos()),
            r matches Some(v) ==> v.attos() == self.attos() - other.attos(),
    {
        let borrow = self.lo < other.lo;
        let lo = if borrow {
            self.lo + (u128::MAX - other.lo) + 1
        } else {
            self.lo - other.lo
        };
        match sub_high(self.hi, other.hi, borrow) {
            Some(hi) => Some(Decimal { hi, lo }),
            None => None,
        }
    }

    /// The product, rounded toward zero; `None` where it does not fit.
    pub fn checked_mul(self, other: Decimal) -> (r: Option<Decimal>)
        ensures
            r is Some <==> in_decimal_range(mul_attos(self.attos(), other.attos())),
            r matches Some(v) ==> v.attos() == mul_attos(self.attos(), other.attos()),
    {
        let one: u128 = 1_000_000_000_000_000_000;
        let (ah, al) = magnitude(self);
        let (bh, bl) = magnitude(other);
        let negative = self.is_negative() != other.is_negative();
        let (n3, n2, n1, n0) = mul_words(ah, al, bh, bl);
        let (q3, r3h, r3l) = div_step(0, 0, n3, 0, one);
        let (q2, r2h, r2l) = div_step(r3h, r3l, n2, 0, one);
        let (q1, r1h, r1l) = div_step(r2h, r2l, n1, 0, one);
        let (q0, r0h, r0l) = div_step(r1h, r1l, n0, 0, one);
        let ghost n: int = quad_value(n3 as int, n2 as int, n1 as int, n0 as int);
        let ghost q: int = quad_value(q3 as int, q2 as int, q1 as int, q0 as int);
        proof {
            lemma_abs_mul(self.attos(), other.attos());
            lemma_chain4(
                n3 as int, n2 as int, n1 as int, n0 as int,
                q3 as int, q2 as int, q1 as int, q0 as int,
                wide_value(r3h, r3l), wide_value(r2h, r2l), wide_value(r1h, r1l),
                wide_value(r0h, r0l), one as int,
            );
            lemma_fundamental_div_mod_converse(n, one as int, q, wide_value(r0h, r0l));
        }
        if q3 != 0 || q2 != 0 {
            proof {
                lemma_trunc_div_magnitude(self.attos() * other.attos(), attos_per_unit());
            }
            return None;
        }
        proof {
            lemma_sign_of_product(self.attos(), other.attos());
        }
        signed(q1, q0, negative)
    }

    /// The quotient, rounded toward zero; `None` where `other` is zero or
    /// the quotient does not fit.
    pub fn checked_div(self, other: Decimal) -> (r: Option<Decimal>)
        ensures
            r is Some <==> other.attos() != 0 && in_decimal_range(
                div_attos(self.attos(), other.attos()),
            ),
            r matches Some(v) ==> v.attos() == div_attos(self.attos(), other.attos()),
    {
        if other.is_zero() {
            return None;
        }
        let one: u128 = 1_000_000_000_000_000_000;
        let (ah, al) = magnitude(self);
        let (bh, bl) = magnitude(other);
        let negative = self.is_negative() != other.is_negative();
        let (c1, c0) = mul_wide(al, one);
        let (e1, e0) = mul_wide(ah, one);
        let (k, n1) = add_carry(e0, c1);
        proof {
            lemma_scaled_words(ah as int, al as int, one as int, c1 as int, c0 as int, e1 as int, e0 as int);
        }
        let n2 = e1 + k;
        let (q2, r2h, r2l) = div_step(0, 0, n2, bh, bl);
        let (q1, r1h, r1l) = div_step(r2h, r2l, n1, bh, bl);
        let (q0, r0h, r0l) = div_step(r1h, r1l, c0, bh, bl);
        let ghost n: int = n2 * word_base() * word_base() + n1 * word_base() + c0;
        let ghost q: int = q2 * word_base() * word_base() + q1 * word_base() + q0;
        let ghost d: int = wide_value(bh, bl);
        proof {
            lemma_abs_mul(self.attos(), attos_per_unit());
            lemma_chain3(
                n2 as int, n1 as int, c0 as int,
                q2 as int, q1 as int, q0 as int,
                wide_value(r2h, r2l), wide_value(r1h, r1l), wide_value(r0h, r0l), d,
            );
            lemma_fundamental_div_mod_converse(n, d, q, wide_value(r0h, r0l));
        }
        if q2 != 0 {
            proof {
                lemma_trunc_div_magnitude(self.attos() * attos_per_unit(), other.attos());
            }
            return None;
        }
        proof {
            lemma_sign_of_product(self.attos(), attos_per_unit());
        }
        signed(q1, q0, negative)
    }

    /// The amount's two's-complement form as 32 big-endian bytes.
    pub fn to_be_bytes(&self) -> (r: Vec<u8>)
        ensures
            r@ == self.spec_to_be_bytes(),
    {
        let high: u128 = if self.hi >= 0 {
            self.hi as u128
        } else {
            ((self.hi - i128::MIN) as u128) + 0x8000_0000_0000_0000_0000_0000_0000_0000
        };
        let mut bytes = be_bytes_exec(high, 16);
        let mut low = be_bytes_exec(self.lo, 16);
        bytes.append(&mut low);
        proof {
            lemma_byte_power_16();
            assert(twos_complement(self.attos()) == high * word_base() + self.lo);
            lemma_be_bytes_concat(high as nat, self.lo as nat, 16, 16);
        }
        bytes
    }
}

/// Two amounts of the same attos are the same value.
pub proof fn lemma_attos_identifies(a: Decimal, b: Decimal)
    requires
        a.attos() == b.attos(),
    ensures
        a == b,
{
    assert(a.hi == b.hi) by (nonlinear_arith)
        requires
            a.hi * word_base() + a.lo == b.hi * word_base() + b.lo,
            0 <= a.lo < word_base(),
            0 <= b.lo < word_base(),
    ;
}

/// `x + y + carry` where it fits in an `i128`.
fn add_high(x: i128, y: i128, carry: bool) -> (r: Option<i128>)
    ensures
        r is Some <==> i128::MIN <= x + y + (if carry { 1int } else { 0 }) <= i128::MAX,
        r matches Some(v) ==> v == x + y + (if carry { 1int } else { 0 }),
{
    if !carry {
        x.checked_add(y)
    } else if x < i128::MAX {
        (x + 1).checked_add(y)
    } else if y < i128::MAX {
        (y + 1).checked_add(x)
    } else {
        None
    }
}

/// `x - y - borrow` where it fits in an `i128`.
fn sub_high(x: i128, y: i128, borrow: bool) -> (r: Option<i128>)
    ensures
        r is Some <==> i128::MIN <= x - y - (if borrow { 1int } else { 0 }) <= i128::MAX,
        r matches Some(v) ==> v == x - y - (if borrow { 1int } else { 0 }),
{
    if !borrow {
        x.checked_sub(y)
    } else if x > i128::MIN {
        (x - 1).checked_sub(y)
    } else if y < i128::MAX {
        x.checked_sub(y + 1)
    } else {
        None
    }
}

/// The number written by four words, the first the highest.
pub open spec fn quad_value(n3: int, n2: int, n1: int, n0: int) -> int {
    ((n3 * word_base() + n2) * word_base() + n1) * word_base() + n0
}

/// The full product of two 256-bit numbers as four words.
fn mul_words(ah: u128, al: u128, bh: u128, bl: u128) -> (res: (u128, u128, u128, u128))
    ensures
        quad_value(res.0 as int, res.1 as int, res.2 as int, res.3 as int) == wide_value(ah, al)
            * wide_value(bh, bl),
{
    let (p0h, p0l) = mul_wide(al, bl);
    let (p1h, p1l) = mul_wide(al, bh);
    let (p2h, p2l) = mul_wide(ah, bl);
    let (p3h, p3l) = mul_wide(ah, bh);
    let (c1a, s1) = add_carry(p0h, p1l);
    let (c1b, n1) = add_carry(s1, p2l);
    let c1 = c1a + c1b;
    let (c2a, s2) = add_carry(p1h, p2h);
    let (c2b, s3) = add_carry(s2, p3l);
    let (c2c, n2) = add_carry(s3, c1);
    let c2 = c2a + c2b + c2c;
    let ghost top: int = p3h + c2;
    proof {
        lemma_product_words(
            ah as int, al as int, bh as int, bl as int,
            wide_value(p0h, p0l), wide_value(p1h, p1l), wide_value(p2h, p2l), wide_value(p3h, p3l),
        );
        assert(quad_value(top, n2 as int, n1 as int, p0l as int) == wide_value(ah, al) * wide_value(bh, bl));
        lemma_wide_product_bound(wide_value(ah, al), wide_value(bh, bl));
        lemma_top_word(top, n2 as int, n1 as int, p0l as int);
    }
    (p3h + c2, n2, n1, p0l)
}

proof fn lemma_product_words(ah: int, al: int, bh: int, bl: int, p0: int, p1: int, p2: int, p3: int)
    requires
        p0 == al * bl,
        p1 == al * bh,
        p2 == ah * bl,
        p3 == ah * bh,
    ensures
        (ah * word_base() + al) * (bh * word_base() + bl) == (p3 * word_base() + p1 + p2)
            * word_base() + p0,
{
    assert((ah * word_base() + al) * (bh * word_base() + bl) == (p3 * word_base() + p1 + p2)
        * word_base() + p0) by (nonlinear_arith)
        requires
            p0 == al * bl,
            p1 == al * bh,
            p2 == ah * bl,
            p3 == ah * bh,
    ;
}

proof fn lemma_wide_product_bound(a: int, b: int)
    requires
        0 <= a < word_base() * word_base(),
        0 <= b < word_base() * word_base(),
    ensures
        0 <= a * b < word_base() * word_base() * word_base() * word_base(),
{
    let w2 = word_base() * word_base();
    assert(0 <= a * b < w2 * w2) by (nonlinear_arith)
        requires
            0 <= a < w2,
            0 <= b < w2,
    ;
}

proof fn lemma_top_word(n3: int, n2: int, n1: int, n0: int)
    requires
        n3 >= 0,
        0 <= n2 < word_base(),
        0 <= n1 < word_base(),
        0 <= n0 < word_base(),
        quad_value(n3, n2, n1, n0) < word_base() * word_base() * word_base() * word_base(),
    ensures
        n3 < word_base(),
{
}

/// `(ah * 2^128 + al) * one` as three words, from the products of `one`
/// with each word.
proof fn lemma_scaled_words(ah: int, al: int, one: int, c1: int, c0: int, e1: int, e0: int)
    requires
        0 <= ah <= half_word(),
        0 <= one < 0x1_0000_0000_0000_0000,
        c1 * word_base() + c0 == al * one,
        e1 * word_base() + e0 == ah * one,
        0 <= c0,
        0 <= e0,
    ensures
        e1 < 0x1_0000_0000_0000_0000,
        (ah * word_base() + al) * one == (e1 * word_base() + e0 + c1) * word_base() + c0,
{
    assert(e1 < 0x1_0000_0000_0000_0000) by (nonlinear_arith)
        requires
            0 <= ah <= half_word(),
            0 <= one < 0x1_0000_0000_0000_0000,
            e1 * word_base() + e0 == ah * one,
            0 <= e0,
    ;
    assert((ah * word_base() + al) * one == ah * one * word_base() + al * one) by (nonlinear_arith);
}

/// Long division carried over three words.
proof fn lemma_chain3(
    n2: int, n1: int, n0: int,
    q2: int, q1: int, q0: int,
    r2: int, r1: int, r0: int,
    d: int,
)
    requires
        q2 * d + r2 == n2,
        q1 * d + r1 == r2 * word_base() + n1,
        q0 * d + r0 == r1 * word_base() + n0,
    ensures
        (n2 * word_base() + n1) * word_base() + n0 == ((q2 * word_base() + q1) * word_base() + q0) * d + r0,
{
    assert((n2 * word_base() + n1) * word_base() + n0 == ((q2 * word_base() + q1) * word_base() + q0) * d + r0) by (nonlinear_arith)
        requires
            q2 * d + r2 == n2,
            q1 * d + r1 == r2 * word_base() + n1,
            q0 * d + r0 == r1 * word_base() + n0,
    ;
}

/// Long division carried over four words.
proof fn lemma_chain4(
    n3: int, n2: int, n1: int, n0: int,
    q3: int, q2: int, q1: int, q0: int,
    r3: int, r2: int, r1: int, r0: int,
    d: int,
)
    requires
        q3 * d + r3 == n3,
        q2 * d + r2 == r3 * word_base() + n2,
        q1 * d + r1 == r2 * word_base() + n1,
        q0 * d + r0 == r1 * word_base() + n0,
    ensures
        quad_value(n3, n2, n1, n0) == quad_value(q3, q2, q1, q0) * d + r0,
{
    lemma_chain3(n3, n2, n1, q3, q2, q1, r3, r2, r1, d);
    assert(quad_value(n3, n2, n1, n0) == quad_value(q3, q2, q1, q0) * d + r0) by (nonlinear_arith)
        requires
            (n3 * word_base() + n2) * word_base() + n1 == ((q3 * word_base() + q2) * word_base() + q1) * d + r1,
            q0 * d + r0 == r1 * word_base() + n0,
    ;
}

fn be_bytes_exec(n: u128, len: usize) -> (r: Vec<u8>)
    ensures
        r@ == be_bytes(n as nat, len as nat),
    decreases len,
{
    if len == 0 {
        Vec::new()
    } else {
        let mut v = be_bytes_exec(n / 256, len - 1);
        v.push((n % 256) as u8);
        v
    }
}

/// |x| of an amount, as a 256-bit number.
fn magnitude(x: Decimal) -> (r: (u128, u128))
    ensures
        wide_value(r.0, r.1) == abs(x.attos()),
        wide_value(r.0, r.1) <= decimal_bound(),
{
    if x.hi >= 0 {
        (x.hi as u128, x.lo)
    } else if x.lo == 0 {
        (((-(x.hi + 1)) as u128) + 1, 0)
    } else {
        ((-(x.hi + 1)) as u128, u128::MAX - x.lo + 1)
    }
}

/// The 256-bit number `(qh, ql)` with the sign given by `negative`, where
/// it fits.
fn signed(qh: u128, ql: u128, negative: bool) -> (r: Option<Decimal>)
    ensures
        r is Some <==> (if negative {
            wide_value(qh, ql) <= decimal_bound()
        } else {
            wide_value(qh, ql) < decimal_bound()
        }),
        r matches Some(v) ==> v.attos() == (if negative {
            -wide_value(qh, ql)
        } else {
            wide_value(qh, ql)
        }),
{
    if !negative {
        if qh <= 0x7fff_ffff_ffff_ffff_ffff_ffff_ffff_ffff {
            Some(Decimal { hi: qh as i128, lo: ql })
        } else {
            None
        }
    } else if ql == 0 {
        if qh < 0x8000_0000_0000_0000_0000_0000_0000_0000 {
            Some(Decimal { hi: -(qh as i128), lo: 0 })
        } else if qh == 0x8000_0000_0000_0000_0000_0000_0000_0000 {
            Some(Decimal { hi: i128::MIN, lo: 0 })
        } else {
            None
        }
    } else {
        if qh < 0x8000_0000_0000_0000_0000_0000_0000_0000 {
            Some(Decimal { hi: -(qh as i128) - 1, lo: u128::MAX - ql + 1 })
        } else {
            None
        }
    }
}

proof fn lemma_abs_mul(a: int, b: int)
    ensures
        abs(a) * abs(b) == abs(a * b),
{
    if a < 0 && b < 0 {
        assert(abs(a) * abs(b) == a * b) by (nonlinear_arith)
            requires
                a < 0,
                b < 0,
        ;
        assert(a * b > 0) by (nonlinear_arith)
            requires
                a < 0,
                b < 0,
        ;
    } else if a < 0 {
        assert(abs(a) * abs(b) == -(a * b)) by (nonlinear_arith)
            requires
                a < 0,
                b >= 0,
        ;
        assert(a * b <= 0) by (nonlinear_arith)
            requires
                a < 0,
                b >= 0,
        ;
    } else if b < 0 {
        assert(abs(a) * abs(b) == -(a * b)) by (nonlinear_arith)
            requires
                a >= 0,
                b < 0,
        ;
        assert(a * b <= 0) by (nonlinear_arith)
            requires
                a >= 0,
                b < 0,
        ;
    } else {
        assert(a * b >= 0) by (nonlinear_arith)
            requires
                a >= 0,
                b >= 0,
        ;
    }
}

/// The product is negative only when exactly one factor is, and is zero
/// when it is not negative yet exactly one factor is.
proof fn lemma_sign_of_product(a: int, b: int)
    ensures
        (a * b < 0) ==> ((a < 0) != (b < 0)),
        ((a < 0) != (b < 0)) ==> a * b <= 0,
{
    if a < 0 && b < 0 {
        assert(a * b > 0) by (nonlinear_arith)
            requires
                a < 0,
                b < 0,
        ;
    } else if a < 0 {
        assert(a * b <= 0) by (nonlinear_arith)
            requires
                a < 0,
                b >= 0,
        ;
    } else if b < 0 {
        assert(a * b <= 0) by (nonlinear_arith)
            requires
                a >= 0,
                b < 0,
        ;
    } else {
        assert(a * b >= 0) by (nonlinear_arith)
            requires
                a >= 0,
                b >= 0,
        ;
    }
}

/// A rounded quotient of magnitude above 2^255 does not fit.
proof fn lemma_trunc_div_magnitude(n: int, d: int)
    requires
        d != 0,
    ensures
        abs(n) / abs(d) > decimal_bound() ==> !in_decimal_range(trunc_div(n, d)),
{
}

pub proof fn lemma_be_bytes_len(x: nat, n: nat)
    ensures
        be_bytes(x, n).len() == n,
    decreases n,
{
    if n > 0 {
        lemma_be_bytes_len(x / 256, (n - 1) as nat);
    }
}

pub proof fn lemma_shift_below_power(y: nat, n: nat)
    requires
        n > 0,
        y < byte_power(n),
    ensures
        y / 256 < byte_power((n - 1) as nat),
{
    let p = byte_power((n - 1) as nat);
    assert(y / 256 < p) by (nonlinear_arith)
        requires
            y < 256 * p,
            y >= 0,
    ;
}

pub proof fn lemma_byte_power_16()
    ensures
        byte_power(16) == word_base(),
{
    reveal_with_fuel(byte_power, 17);
}

/// The big-endian bytes of `x * 256^k + y`, for `y` below `256^k`, are
/// those of `x` followed by the `k` bytes of `y`.
pub proof fn lemma_be_bytes_concat(x: nat, y: nat, m: nat, k: nat)
    requires
        y < byte_power(k),
    ensures
        be_bytes(x * byte_power(k) + y, m + k) == be_bytes(x, m) + be_bytes(y, k),
    decreases k,
{
    if k == 0 {
        assert(be_bytes(x, m) + be_bytes(y, k) =~= be_bytes(x, m));
        assert(x * byte_power(k) + y == x);
    } else {
        let p = byte_power((k - 1) as nat);
        let n = x * byte_power(k) + y;
        lemma_shift_below_power(y, k);
        lemma_be_bytes_concat(x, y / 256, m, (k - 1) as nat);
        assert(n / 256 == x * p + y / 256 && n % 256 == y % 256) by (nonlinear_arith)
            requires
                n == x * (256 * p) + y,
                y >= 0,
                x >= 0,
                p >= 0,
        ;
        assert((m + k - 1) as nat == m + (k - 1) as nat);
        assert(be_bytes(n, m + k) == be_bytes(n / 256, (m + k - 1) as nat).push((n % 256) as u8));
        assert(be_bytes(y, k) == be_bytes(y / 256, (k - 1) as nat).push((y % 256) as u8));
        assert(be_bytes(n, m + k) =~= be_bytes(x, m) + be_bytes(y, k));
    }
}

/// The product of two amounts is rounded toward zero: its magnitude in
/// units of 10^-18 is the largest whole number of attos not above the
/// exact product, and it never has the opposite sign to the product.
pub proof fn lemma_product_rounds_toward_zero(a: int, b: int)
    ensures
        ({
            let q = mul_attos(a, b);
            &&& abs(q) * 1_000_000_000_000_000_000 <= abs(a * b)
            &&& abs(a * b) < (abs(q) + 1) * 1_000_000_000_000_000_000
            &&& (a * b > 0 ==> q >= 0)
            &&& (a * b < 0 ==> q <= 0)
        }),
{
    lemma_rounded_quotient(a * b, 1_000_000_000_000_000_000);
}

/// The quotient of two amounts is rounded toward zero: its magnitude in
/// attos, times the divisor, is the largest such multiple not above the
/// exact scaled dividend, and it never has the opposite sign to it.
pub proof fn lemma_quotient_rounds_toward_zero(a: int, b: int)
    requires
        b != 0,
    ensures
        ({
            let q = div_attos(a, b);
            let n = a * 1_000_000_000_000_000_000;
            &&& abs(q) * abs(b) <= abs(n)
            &&& abs(n) < (abs(q) + 1) * abs(b)
            &&& ((n > 0) == (b > 0) && n != 0 ==> q >= 0)
            &&& ((n > 0) != (b > 0) && n != 0 ==> q <= 0)
        }),
{
    lemma_rounded_quotient(a * 1_000_000_000_000_000_000, b);
}

proof fn lemma_rounded_quotient(n: int, d: int)
    requires
        d != 0,
    ensures
        abs(trunc_div(n, d)) == abs(n) / abs(d),
        abs(n) / abs(d) * abs(d) <= abs(n) < (abs(n) / abs(d) + 1) * abs(d),
        n > 0 && d > 0 ==> trunc_div(n, d) >= 0,
        n < 0 && d < 0 ==> trunc_div(n, d) >= 0,
        n > 0 && d < 0 ==> trunc_div(n, d) <= 0,
        n < 0 && d > 0 ==> trunc_div(n, d) <= 0,
{
    let m = abs(n);
    let e = abs(d);
    lemma_fundamental_div_mod(m, e);
    lemma_div_pos_is_pos(m, e);
    assert(m / e * e <= m < (m / e + 1) * e) by (nonlinear_arith)
        requires
            m == e * (m / e) + m % e,
            0 <= m % e < e,
    ;
}

} // verus!
