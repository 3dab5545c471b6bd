use vstd::prelude::*;
use vstd::arithmetic::mul::{lemma_mul_inequality, lemma_mul_strict_inequality};

verus! {

// ---------------------------------------------------------------------------
// Decimal text of integers
// ---------------------------------------------------------------------------

/// `10` to the power `e`.
pub open spec fn exp10(e: nat) -> nat
    decreases e,
{
    if e == 0 {
        1
    } else {
        10 * exp10((e - 1) as nat)
    }
}

/// The character of a decimal digit.
pub open spec fn digit_char(d: nat) -> char {
    if d == 0 {
        '0'
    } else if d == 1 {
        '1'
    } else if d == 2 {
        '2'
    } else if d == 3 {
        '3'
    } else if d == 4 {
        '4'
    } else if d == 5 {
        '5'
    } else if d == 6 {
        '6'
    } else if d == 7 {
        '7'
    } else if d == 8 {
        '8'
    } else {
        '9'
    }
}

/// The decimal digits of `n`, without leading zeros (`0` for zero).
pub open spec fn decimal(n: nat) -> Seq<char>
    decreases n,
{
    if n < 10 {
        seq![digit_char(n)]
    } else {
        decimal(n / 10).push(digit_char(n % 10))
    }
}

/// The last `width` decimal digits of `n`, padded with leading zeros.
pub open spec fn padded_decimal(n: nat, width: nat) -> Seq<char>
    decreases width,
{
    if width == 0 {
        seq![]
    } else {
        padded_decimal(n / 10, (width - 1) as nat).push(digit_char(n % 10))
    }
}

/// How Rust writes an `i64`: a minus sign for negative numbers, then the
/// decimal digits of the magnitude.
pub open spec fn int_text(x: int) -> Seq<char> {
    if x < 0 {
        seq!['-'] + decimal((-x) as nat)
    } else {
        decimal(x as nat)
    }
}

/// The text of `r` hundredths, tenths or units (`decimals` places): the whole
/// part, then a point and exactly `decimals` digits when `decimals > 0`.
pub open spec fn fixed_text(r: nat, decimals: nat) -> Seq<char> {
    if decimals == 0 {
        decimal(r)
    } else {
        decimal(r / exp10(decimals)) + seq!['.'] + padded_decimal(r % exp10(decimals), decimals)
    }
}

fn digit_str(d: u8) -> (res: &'static str)
    requires
        d < 10,
    ensures
        res@ == seq![digit_char(d as nat)],
{
    proof {
        reveal_strlit("0");
        reveal_strlit("1");
        reveal_strlit("2");
        reveal_strlit("3");
        reveal_strlit("4");
        reveal_strlit("5");
        reveal_strlit("6");
        reveal_strlit("7");
        reveal_strlit("8");
        reveal_strlit("9");
    }
    match d {
        0 => "0",
        1 => "1",
        2 => "2",
        3 => "3",
        4 => "4",
        5 => "5",
        6 => "6",
        7 => "7",
        8 => "8",
        _ => "9",
    }
}

/// Appends the decimal digits of `n`.
pub fn push_decimal(s: &mut String, n: u128)
    ensures
        final(s)@ == old(s)@ + decimal(n as nat),
    decreases n,
{
    if n >= 10 {
        push_decimal(s, n / 10);
    }
    s.append(digit_str((n % 10) as u8));
    proof {
        if n >= 10 {
            assert(decimal(n as nat) == decimal((n / 10) as nat).push(digit_char((n % 10) as nat)));
        }
    }
    assert(final(s)@ =~= old(s)@ + decimal(n as nat));
}

/// Appends the last `width` decimal digits of `n`, padded with leading zeros.
pub fn push_padded_decimal(s: &mut String, n: u128, width: u32)
    ensures
        final(s)@ == old(s)@ + padded_decimal(n as nat, width as nat),
    decreases width,
{
    if width > 0 {
        push_padded_decimal(s, n / 10, width - 1);
        s.append(digit_str((n % 10) as u8));
    }
    assert(final(s)@ =~= old(s)@ + padded_decimal(n as nat, width as nat));
}

/// The text of an `i64`, as Rust writes it.
pub fn int_to_text(x: i64) -> (res: String)
    ensures
        res@ == int_text(x as int),
{
    let mut s = String::new();
    if x < 0 {
        proof {
            reveal_strlit("-");
        }
        s.append("-");
        let magnitude: u128 = (0i128 - x as i128) as u128;
        push_decimal(&mut s, magnitude);
    } else {
        push_decimal(&mut s, x as u128);
    }
    assert(s@ =~= int_text(x as int));
    s
}


// ---------------------------------------------------------------------------
// Binary floating point, for the values that the game writes
// ---------------------------------------------------------------------------

/// `2` to the power `e`.
pub open spec fn exp2(e: nat) -> nat
    decreases e,
{
    if e == 0 {
        1
    } else {
        2 * exp2((e - 1) as nat)
    }
}

/// The number of binary digits of `x` (zero for zero).
pub open spec fn bit_len(x: nat) -> nat
    decreases x,
{
    if x == 0 {
        0
    } else {
        1 + bit_len(x / 2)
    }
}

/// `a / b` rounded to the nearest integer, ties to the even one.
pub open spec fn round_half_even(a: nat, b: nat) -> nat
    recommends
        b > 0,
{
    let q = a / b;
    let r = a % b;
    if 2 * r > b {
        q + 1
    } else if 2 * r < b {
        q
    } else if q % 2 == 0 {
        q
    } else {
        q + 1
    }
}

/// How many low bits of `x` a float with `bits` significant bits drops.
pub open spec fn int_shift(x: nat, bits: nat) -> nat {
    if bit_len(x) > bits {
        (bit_len(x) - bits) as nat
    } else {
        0
    }
}

/// The value of the integer `x` converted to a float with `bits` significant
/// bits, rounding to nearest, ties to even (`bits` is 24 for `f32` and 53
/// for `f64`).
pub open spec fn float_of_int(x: nat, bits: nat) -> nat {
    round_half_even(x, exp2(int_shift(x, bits))) * exp2(int_shift(x, bits))
}

/// The numerator of `num / (den * 2^e)` brought to integers.
pub open spec fn scaled_num(num: nat, e: int) -> nat {
    if e < 0 {
        num * exp2((-e) as nat)
    } else {
        num
    }
}

/// The denominator of `num / (den * 2^e)` brought to integers.
pub open spec fn scaled_den(den: nat, e: int) -> nat {
    if e > 0 {
        den * exp2(e as nat)
    } else {
        den
    }
}

/// `num / (den * 2^e)` lies in `[2^(bits-1), 2^bits)`: `e` is the exponent of
/// a float with `bits` significant bits that is near `num / den`.
pub open spec fn exp_in_range(num: nat, den: nat, e: int, bits: nat) -> bool {
    exp2((bits - 1) as nat) * scaled_den(den, e) <= scaled_num(num, e) < exp2(bits)
        * scaled_den(den, e)
}

/// The exponent of the float with `bits` significant bits nearest to
/// `num / den`: `bit_len(num) - bit_len(den) - bits`, or one more where the
/// quotient is too large for it.
pub open spec fn quotient_exp(num: nat, den: nat, bits: nat) -> int {
    let e1 = bit_len(num) - bit_len(den) - bits;
    if scaled_num(num, e1) < exp2(bits) * scaled_den(den, e1) {
        e1
    } else {
        e1 + 1
    }
}

/// The significand of the float with `bits` significant bits nearest to
/// `num / den` (rounding ties to even); the float is this times
/// `2^quotient_exp(num, den, bits)`.
pub open spec fn quotient_mant(num: nat, den: nat, bits: nat) -> nat {
    let e = quotient_exp(num, den, bits);
    round_half_even(scaled_num(num, e), scaled_den(den, e))
}

/// The float `m * 2^e` written with `decimals` decimal places, as an integer
/// number of `10^-decimals`, rounding ties to even.
pub open spec fn fixed_point(m: nat, e: int, decimals: nat) -> nat {
    if e >= 0 {
        m * exp2(e as nat) * exp10(decimals)
    } else {
        round_half_even(m * exp10(decimals), exp2((-e) as nat))
    }
}

/// What a program gets when it converts the positive integer `x` to a float
/// with `bits` significant bits, divides it by `10^k` in that float type and
/// writes the quotient with `decimals` places: the digits, as an integer
/// number of `10^-decimals`.
pub open spec fn float_quotient_fixed(x: nat, k: nat, bits: nat, decimals: nat) -> nat {
    let v = float_of_int(x, bits);
    let den = exp10(k);
    fixed_point(quotient_mant(v, den, bits), quotient_exp(v, den, bits), decimals)
}

pub proof fn lemma_exp2_pos(e: nat)
    ensures
        exp2(e) >= 1,
    decreases e,
{
    if e > 0 {
        lemma_exp2_pos((e - 1) as nat);
    }
}

pub proof fn lemma_exp2_add(a: nat, b: nat)
    ensures
        exp2(a + b) == exp2(a) * exp2(b),
    decreases a,
{
    if a == 0 {
        assert(exp2(0) == 1);
        assert(a + b == b);
    } else {
        let a1 = (a - 1) as nat;
        lemma_exp2_add(a1, b);
        assert(exp2(a) == 2 * exp2(a1));
        assert(a + b == (a1 + b) + 1);
        assert(exp2((a1 + b) + 1) == 2 * exp2(a1 + b));
        assert(2 * (exp2(a1) * exp2(b)) == (2 * exp2(a1)) * exp2(b)) by (nonlinear_arith);
    }
}

pub proof fn lemma_exp2_mono(a: nat, b: nat)
    requires
        a <= b,
    ensures
        exp2(a) <= exp2(b),
    decreases b,
{
    if a < b {
        lemma_exp2_mono(a, (b - 1) as nat);
        lemma_exp2_pos((b - 1) as nat);
    }
}

/// `x` has `bit_len(x)` binary digits.
pub proof fn lemma_bit_len(x: nat)
    ensures
        x > 0 ==> bit_len(x) >= 1 && exp2((bit_len(x) - 1) as nat) <= x < exp2(bit_len(x)),
        x == 0 ==> bit_len(x) == 0,
    decreases x,
{
    if x > 1 {
        let h = x / 2;
        lemma_bit_len(h);
        let b = bit_len(h);
        assert(bit_len(x) == 1 + b);
        assert(exp2(b + 1) == 2 * exp2(b));
        assert(b >= 1);
        assert(exp2(b) == 2 * exp2((b - 1) as nat));
        assert(exp2((bit_len(x) - 1) as nat) == exp2(b));
    } else if x == 1 {
        assert(bit_len(0) == 0);
        assert(bit_len(1) == 1);
        assert(exp2(0) == 1);
        assert(exp2(1) == 2 * exp2(0));
    }
}

proof fn lemma_scaled_pos(num: nat, den: nat, e: int)
    ensures
        num > 0 ==> scaled_num(num, e) > 0,
        den > 0 ==> scaled_den(den, e) > 0,
{
    if e < 0 {
        lemma_exp2_pos((-e) as nat);
        assert(num > 0 ==> num * exp2((-e) as nat) > 0) by (nonlinear_arith)
            requires
                exp2((-e) as nat) >= 1,
        ;
    }
    if e > 0 {
        lemma_exp2_pos(e as nat);
        assert(den > 0 ==> den * exp2(e as nat) > 0) by (nonlinear_arith)
            requires
                exp2(e as nat) >= 1,
        ;
    }
}

/// Rounding `a / b` gives at most `a / b + 1` and at least `a / b`.
pub proof fn lemma_round_half_even_bounds(a: nat, b: nat)
    requires
        b > 0,
    ensures
        a / b <= round_half_even(a, b) <= a / b + 1,
        round_half_even(a, b) * b <= a + b,
{
    let q = a / b;
    let r = a % b;
    assert(a == q * b + r) by (nonlinear_arith)
        requires
            b > 0,
            q == a / b,
            r == a % b,
    ;
    assert((q + 1) * b == q * b + b) by (nonlinear_arith);
}

/// At `e1 = bit_len(num) - bit_len(den) - bits` the quotient
/// `num / (den * 2^e1)` lies strictly between `2^(bits-1)` and `2^(bits+1)`.
proof fn lemma_first_exp_bounds(num: nat, den: nat, bits: nat)
    requires
        num > 0,
        den > 0,
        bits >= 1,
    ensures
        ({
            let e1 = bit_len(num) - bit_len(den) - bits;
            &&& exp2((bits - 1) as nat) * scaled_den(den, e1) < scaled_num(num, e1)
            &&& scaled_num(num, e1) < exp2(bits + 1) * scaled_den(den, e1)
        }),
{
    let l = bit_len(num);
    let m = bit_len(den);
    lemma_bit_len(num);
    lemma_bit_len(den);
    let e1 = l - m - bits;
    let lo = exp2((bits - 1) as nat);
    let top = exp2(bits + 1);
    lemma_exp2_pos((bits - 1) as nat);
    lemma_exp2_pos(bits + 1);
    if e1 >= 0 {
        let d = e1 as nat;
        let p = exp2(d);
        lemma_exp2_pos(d);
        assert(scaled_den(den, e1) == den * p) by {
            if d == 0 {
                assert(exp2(0) == 1);
                assert(p == 1);
                assert(den * p == den) by (nonlinear_arith)
                    requires
                        p == 1,
                ;
            }
        }
        assert(scaled_num(num, e1) == num);
        // lower bound: lo * den * p < lo * 2^m * p == 2^(l - 1) <= num
        lemma_exp2_add(m, d);
        lemma_exp2_add((bits - 1) as nat, m + d);
        assert((bits - 1) as nat + (m + d) == (l - 1) as nat);
        assert(lo * (den * p) < lo * (exp2(m) * p)) by (nonlinear_arith)
            requires
                den < exp2(m),
                p >= 1,
                lo >= 1,
        ;
        assert(lo * (exp2(m) * p) == exp2((l - 1) as nat));
        // upper bound: num < 2^l == top * 2^(m - 1) * p <= top * den * p
        lemma_exp2_add((m - 1) as nat, d);
        lemma_exp2_add(bits + 1, (m - 1) as nat + d);
        assert(bits + 1 + ((m - 1) as nat + d) == l);
        assert(top * (exp2((m - 1) as nat) * p) <= top * (den * p)) by (nonlinear_arith)
            requires
                exp2((m - 1) as nat) <= den,
                p >= 1,
                top >= 1,
        ;
    } else {
        let u = (-e1) as nat;
        let p = exp2(u);
        lemma_exp2_pos(u);
        assert(scaled_num(num, e1) == num * p);
        assert(scaled_den(den, e1) == den);
        // lower bound: lo * den < lo * 2^m == 2^(l - 1) * p <= num * p
        lemma_exp2_add((l - 1) as nat, u);
        lemma_exp2_add((bits - 1) as nat, m);
        assert((l - 1) as nat + u == (bits - 1) as nat + m);
        assert(lo * den < lo * exp2(m)) by (nonlinear_arith)
            requires
                den < exp2(m),
                lo >= 1,
        ;
        assert(exp2((l - 1) as nat) * p <= num * p) by (nonlinear_arith)
            requires
                exp2((l - 1) as nat) <= num,
                p >= 1,
        ;
        // upper bound: num * p < 2^l * p == top * 2^(m - 1) <= top * den
        lemma_exp2_add(l, u);
        lemma_exp2_add(bits + 1, (m - 1) as nat);
        assert(l + u == bits + 1 + (m - 1) as nat);
        assert(num * p < exp2(l) * p) by (nonlinear_arith)
            requires
                num < exp2(l),
                p >= 1,
        ;
        assert(top * exp2((m - 1) as nat) <= top * den) by (nonlinear_arith)
            requires
                exp2((m - 1) as nat) <= den,
                top >= 1,
        ;
    }
}

/// Raising the exponent by one halves the scaled quotient.
proof fn lemma_scaled_step(num: nat, den: nat, e: int)
    ensures
        scaled_num(num, e) * scaled_den(den, e + 1) == 2 * scaled_num(num, e + 1) * scaled_den(
            den,
            e,
        ),
{
    if e > 0 {
        assert(exp2((e + 1) as nat) == 2 * exp2(e as nat));
        assert(scaled_den(den, e + 1) == den * (2 * exp2(e as nat)));
        assert(num * (den * (2 * exp2(e as nat))) == 2 * num * (den * exp2(e as nat)))
            by (nonlinear_arith);
    } else if e == 0 {
        assert(exp2(1) == 2 * exp2(0));
        assert(exp2(0) == 1);
        assert(scaled_den(den, 1) == den * 2);
        assert(num * (den * 2) == 2 * num * den) by (nonlinear_arith);
    } else if e == -1 {
        assert(exp2(1) == 2) by {
            assert(exp2(0) == 1);
        }
        assert(num * 2 * den == 2 * num * den) by (nonlinear_arith);
    } else {
        let u = (-e) as nat;
        assert(exp2(u) == 2 * exp2((u - 1) as nat));
        assert((-(e + 1)) as nat == (u - 1) as nat);
        assert(num * (2 * exp2((u - 1) as nat)) * den == 2 * (num * exp2((u - 1) as nat)) * den)
            by (nonlinear_arith);
    }
}

/// `quotient_exp` is the exponent that brings `num / den` into
/// `[2^(bits-1), 2^bits)`.
pub proof fn lemma_quotient_exp_in_range(num: nat, den: nat, bits: nat)
    requires
        num > 0,
        den > 0,
        bits >= 1,
    ensures
        exp_in_range(num, den, quotient_exp(num, den, bits), bits),
{
    let e1 = bit_len(num) - bit_len(den) - bits;
    lemma_first_exp_bounds(num, den, bits);
    let lo = exp2((bits - 1) as nat);
    let hi = exp2(bits);
    assert(hi == 2 * lo);
    assert(exp2(bits + 1) == 2 * hi);
    lemma_scaled_pos(num, den, e1);
    lemma_scaled_pos(num, den, e1 + 1);
    if scaled_num(num, e1) < hi * scaled_den(den, e1) {
    } else {
        let n0 = scaled_num(num, e1);
        let d0 = scaled_den(den, e1);
        let n1 = scaled_num(num, e1 + 1);
        let d1 = scaled_den(den, e1 + 1);
        lemma_scaled_step(num, den, e1);
        // n0 * d1 == 2 * n1 * d0, with hi * d0 <= n0 < 2 * hi * d0
        assert(lo * d1 <= n1 < hi * d1) by (nonlinear_arith)
            requires
                n0 * d1 == 2 * n1 * d0,
                hi * d0 <= n0,
                n0 < 2 * hi * d0,
                hi == 2 * lo,
                d0 > 0,
                d1 > 0,
        {
            // from hi * d0 <= n0: hi * d0 * d1 <= n0 * d1 == 2 * n1 * d0
            assert(hi * d0 * d1 <= n0 * d1);
            assert(n0 * d1 < 2 * hi * d0 * d1);
        }
    }
}


/// `2^64`, and `2^128` is one more than the largest `u128`.
pub proof fn lemma_exp2_64_128()
    ensures
        exp2(64) == 0x10000000000000000,
        exp2(128) == u128::MAX + 1,
{
    assert(exp2(64) == 0x10000000000000000) by {
        reveal_with_fuel(exp2, 65);
    }
    lemma_exp2_add(64, 64);
}

/// An integer with at most `bits` binary digits converts to a float with
/// `bits` significant bits exactly.
pub proof fn lemma_float_of_small_int(x: nat, bits: nat)
    requires
        x < exp2(bits),
    ensures
        float_of_int(x, bits) == x,
{
    lemma_bit_len_bound(x, bits);
    assert(int_shift(x, bits) == 0);
    assert(exp2(0) == 1);
    assert(round_half_even(x, 1) == x);
}

/// `2^53`, the first integer from which `f64` loses precision.
pub proof fn lemma_exp2_53()
    ensures
        exp2(53) == 0x20000000000000,
{
    assert(exp2(53) == 0x20000000000000) by {
        reveal_with_fuel(exp2, 54);
    }
}

/// A number below `2^k` has at most `k` binary digits.
pub proof fn lemma_bit_len_bound(x: nat, k: nat)
    requires
        x < exp2(k),
    ensures
        bit_len(x) <= k,
{
    lemma_bit_len(x);
    if bit_len(x) > k {
        lemma_exp2_mono(k, (bit_len(x) - 1) as nat);
    }
}

fn bit_len_exec(x: u128) -> (n: u32)
    ensures
        n as nat == bit_len(x as nat),
        n <= 128,
{
    proof {
        lemma_exp2_64_128();
        lemma_bit_len_bound(x as nat, 128);
    }
    let mut y = x;
    let mut n: u32 = 0;
    while y > 0
        invariant
            bit_len(x as nat) == n + bit_len(y as nat),
            n + bit_len(y as nat) <= 128,
        decreases y,
    {
        proof {
            lemma_bit_len(y as nat);
            lemma_bit_len(x as nat);
        }
        y = y / 2;
        n = n + 1;
    }
    n
}

fn exp2_exec(e: u32) -> (r: u128)
    requires
        e < 128,
    ensures
        r == exp2(e as nat),
{
    proof {
        lemma_exp2_64_128();
        assert(exp2(128) == 2 * exp2(127));
    }
    let mut r: u128 = 1;
    let mut i: u32 = 0;
    while i < e
        invariant
            i <= e < 128,
            r == exp2(i as nat),
            exp2(127) * 2 == u128::MAX + 1,
        decreases e - i,
    {
        proof {
            lemma_exp2_mono((i + 1) as nat, 127);
        }
        r = r * 2;
        i = i + 1;
    }
    r
}

fn exp10_exec(e: u32) -> (r: u128)
    requires
        e <= 9,
    ensures
        r == exp10(e as nat),
        r <= 1_000_000_000,
{
    let mut r: u128 = 1;
    let mut i: u32 = 0;
    assert(exp10(0) * exp10(9) == 1_000_000_000) by {
        reveal_with_fuel(exp10, 10);
    }
    while i < e
        invariant
            i <= e <= 9,
            r == exp10(i as nat),
            r <= exp10(i as nat),
            exp10(i as nat) * exp10((9 - i) as nat) == 1_000_000_000,
        decreases e - i,
    {
        proof {
            assert(exp10((9 - i) as nat) == 10 * exp10((9 - i - 1) as nat));
            assert(exp10((9 - i - 1) as nat) >= 1) by {
                lemma_exp10_pos((9 - i - 1) as nat);
            }
            assert(exp10((i + 1) as nat) * exp10((9 - (i + 1)) as nat) == 1_000_000_000)
                by (nonlinear_arith)
                requires
                    exp10((i + 1) as nat) == 10 * exp10(i as nat),
                    exp10((9 - i) as nat) == 10 * exp10((9 - (i + 1)) as nat),
                    exp10(i as nat) * exp10((9 - i) as nat) == 1_000_000_000,
            ;
            assert(r <= 100_000_000) by (nonlinear_arith)
                requires
                    r == exp10(i as nat),
                    exp10(i as nat) * (10 * exp10((9 - i - 1) as nat)) == 1_000_000_000,
                    exp10((9 - i - 1) as nat) >= 1,
            ;
        }
        r = r * 10;
        i = i + 1;
    }
    proof {
        lemma_exp10_pos((9 - e) as nat);
        assert(r <= 1_000_000_000) by (nonlinear_arith)
            requires
                r * exp10((9 - e) as nat) == 1_000_000_000,
                exp10((9 - e) as nat) >= 1,
                r >= 0,
        ;
    }
    r
}

pub proof fn lemma_exp10_pos(e: nat)
    ensures
        exp10(e) >= 1,
    decreases e,
{
    if e > 0 {
        lemma_exp10_pos((e - 1) as nat);
    }
}

fn round_half_even_exec(a: u128, b: u128) -> (r: u128)
    requires
        b > 0,
    ensures
        r == round_half_even(a as nat, b as nat),
{
    let q = a / b;
    let rem = a % b;
    if rem > b - rem {
        proof {
            assert(b >= 2);
            assert(q <= a / 2) by (nonlinear_arith)
                requires
                    b >= 2,
                    q == a / b,
            ;
        }
        q + 1
    } else if rem < b - rem {
        q
    } else if q % 2 == 0 {
        q
    } else {
        proof {
            assert(b >= 2);
            assert(q <= a / 2) by (nonlinear_arith)
                requires
                    b >= 2,
                    q == a / b,
            ;
        }
        q + 1
    }
}


/// `a / b < k` whenever `a < k * b`.
proof fn lemma_div_below(a: nat, b: nat, k: nat)
    requires
        b > 0,
        a < k * b,
    ensures
        a / b < k,
{
    assert((a / b) * b <= a) by (nonlinear_arith)
        requires
            b > 0,
    ;
    assert(a / b < k) by (nonlinear_arith)
        requires
            (a / b) * b <= a,
            a < k * b,
            b > 0,
    ;
}

pub(crate) fn float_of_int_exec(x: u64, bits: u32) -> (v: u128)
    requires
        x > 0,
        1 <= bits <= 64,
    ensures
        v == float_of_int(x as nat, bits as nat),
        0 < v < exp2(65),
{
    proof {
        lemma_exp2_64_128();
        lemma_bit_len_bound(x as nat, 64);
        lemma_bit_len(x as nat);
    }
    let l = bit_len_exec(x as u128);
    let shift: u32 = if l > bits {
        l - bits
    } else {
        0
    };
    let p = exp2_exec(shift);
    proof {
        lemma_exp2_pos(shift as nat);
    }
    let a = round_half_even_exec(x as u128, p);
    proof {
        lemma_round_half_even_bounds(x as nat, p as nat);
        // p <= 2^(l - 1) <= x
        lemma_exp2_mono(shift as nat, (l - 1) as nat);
        assert(x as nat / p as nat >= 1) by (nonlinear_arith)
            requires
                p >= 1,
                x >= p,
        ;
        lemma_exp2_mono(shift as nat, 63);
        // a * p <= x + p < 2^l + 2^(l - 1) < 2^65
        lemma_exp2_mono(l as nat, 64);
        assert(exp2(65) == 2 * exp2(64));
        assert(a * p >= 1) by (nonlinear_arith)
            requires
                a >= 1,
                p >= 1,
        ;
    }
    a * p
}

/// The value of the integer `x` converted to `f64` (`x as f64`).
pub open spec fn f64_value(x: int) -> int {
    if x >= 0 {
        float_of_int(x as nat, 53) as int
    } else {
        -(float_of_int((-x) as nat, 53) as int)
    }
}

/// `float_of_int(|x|, 53)`, zero for zero.
fn f64_magnitude(x: i64) -> (v: u128)
    ensures
        v == (if x >= 0 { float_of_int(x as nat, 53) } else { float_of_int((-x) as nat, 53) }),
        x != 0 ==> v > 0,
{
    if x == 0 {
        proof {
            assert(bit_len(0) == 0);
            assert(int_shift(0, 53) == 0);
            assert(exp2(0) == 1);
            assert(round_half_even(0, 1) == 0);
            assert(float_of_int(0, 53) == 0);
        }
        0
    } else if x > 0 {
        float_of_int_exec(x as u64, 53)
    } else {
        let m: u64 = (-(x as i128)) as u64;
        assert(m as nat == (-x) as nat);
        float_of_int_exec(m, 53)
    }
}

/// Whether `a as f64 >= b as f64`.
pub fn f64_at_least(a: i64, b: i64) -> (res: bool)
    ensures
        res == (f64_value(a as int) >= f64_value(b as int)),
{
    let ma = f64_magnitude(a);
    let mb = f64_magnitude(b);
    if a >= 0 {
        if b >= 0 {
            ma >= mb
        } else {
            true
        }
    } else {
        if b >= 0 {
            false
        } else {
            mb >= ma
        }
    }
}

fn scaled_exec(num: u128, den: u128, e: i32) -> (res: (u128, u128))
    requires
        -128 < e < 128,
        scaled_num(num as nat, e as int) <= u128::MAX,
        scaled_den(den as nat, e as int) <= u128::MAX,
    ensures
        res.0 == scaled_num(num as nat, e as int),
        res.1 == scaled_den(den as nat, e as int),
{
    if e < 0 {
        let p = exp2_exec((0 - e) as u32);
        (num * p, den)
    } else if e > 0 {
        let p = exp2_exec(e as u32);
        (num, den * p)
    } else {
        (num, den)
    }
}

fn float_quotient_exec(num: u128, den: u128, bits: u32) -> (res: (u128, i32))
    requires
        0 < num < exp2(65),
        0 < den < exp2(30),
        1 <= bits <= 53,
    ensures
        res.1 == quotient_exp(num as nat, den as nat, bits as nat),
        res.0 == quotient_mant(num as nat, den as nat, bits as nat),
        res.0 <= exp2(bits as nat),
        -84 <= res.1 <= 65,
        res.1 >= 0 ==> res.0 * exp2(res.1 as nat) <= exp2(65),
{
    proof {
        lemma_exp2_64_128();
        lemma_exp2_mono(65, 128);
        lemma_bit_len_bound(num as nat, 65);
        lemma_bit_len_bound(den as nat, 30);
        lemma_bit_len(num as nat);
        lemma_bit_len(den as nat);
        lemma_first_exp_bounds(num as nat, den as nat, bits as nat);
        lemma_quotient_exp_in_range(num as nat, den as nat, bits as nat);
        lemma_exp2_pos((bits - 1) as nat);
        assert(exp2(bits as nat) == 2 * exp2((bits - 1) as nat));
        assert(exp2((bits + 1) as nat) == 2 * exp2(bits as nat));
        lemma_exp2_mono((bits + 1) as nat, 54);
        lemma_exp2_add(54, 30);
        lemma_exp2_mono(84, 128);
        lemma_exp2_mono(66, 128);
        assert(exp2(66) == 2 * exp2(65));
    }
    let l = bit_len_exec(num);
    let m = bit_len_exec(den);
    let e1: i32 = l as i32 - m as i32 - bits as i32;
    let ghost lo = exp2((bits - 1) as nat);
    let ghost hi = exp2(bits as nat);
    proof {
        let sn = scaled_num(num as nat, e1 as int);
        let sd = scaled_den(den as nat, e1 as int);
        lemma_scaled_pos(num as nat, den as nat, e1 as int);
        lemma_exp2_mono(65, 84);
        lemma_exp2_mono(66, 84);
        lemma_exp2_mono(30, 84);
        lemma_exp2_mono(30, 65);
        lemma_exp2_mono(bits as nat, 53);
        lemma_exp2_add(53, 30);
        lemma_exp2_mono(83, 84);
        // the pair at e1 fits: either the numerator is `num` or the denominator is `den`
        if e1 >= 0 {
            assert(sn == num);
            assert(sd <= lo * sd) by (nonlinear_arith)
                requires
                    lo >= 1,
            ;
            assert(hi * sd == 2 * (lo * sd)) by (nonlinear_arith)
                requires
                    hi == 2 * lo,
            ;
        } else {
            assert(sd == den);
            assert(hi * sd <= exp2(53) * exp2(30)) by (nonlinear_arith)
                requires
                    hi <= exp2(53),
                    sd < exp2(30),
            ;
            assert(2 * hi * sd <= exp2(54) * exp2(30)) by (nonlinear_arith)
                requires
                    2 * hi <= exp2(54),
                    sd < exp2(30),
            ;
        }
        assert(exp2(84) == 2 * exp2(83));
        assert(sn < exp2(84));
        assert(sd < exp2(65));
        assert(hi * sd < exp2(84));
    }
    let (sn, sd) = scaled_exec(num, den, e1);
    let hi_exec = exp2_exec(bits);
    let ghost e = quotient_exp(num as nat, den as nat, bits as nat);
    let (sn, sd, e) = if sn < hi_exec * sd {
        (sn, sd, e1)
    } else {
        proof {
            let e2 = e1 + 1;
            lemma_scaled_pos(num as nat, den as nat, e2 as int);
            let sn2 = scaled_num(num as nat, e2 as int);
            let sd2 = scaled_den(den as nat, e2 as int);
            if e2 > 0 {
                // the numerator stays `num`; the denominator doubles, and hi * sd <= num
                assert(exp2(e2 as nat) == 2 * exp2(e1 as nat));
                assert(sd2 == 2 * sd) by {
                    if e1 == 0 {
                        assert(exp2(0) == 1);
                        assert(den * (2 * 1) == 2 * den) by (nonlinear_arith);
                    } else {
                        assert(den * (2 * exp2(e1 as nat)) == 2 * (den * exp2(e1 as nat)))
                            by (nonlinear_arith);
                    }
                }
                assert(sd <= hi * sd) by (nonlinear_arith)
                    requires
                        hi >= 1,
                ;
                assert(sn2 == num);
            } else {
                // the denominator stays `den`; the numerator halves
                assert(sd2 == den);
                let u2 = (-e2) as nat;
                assert(exp2(u2 + 1) == 2 * exp2(u2));
                assert(sn == 2 * sn2) by {
                    if u2 == 0 {
                        assert(exp2(0) == 1);
                        assert(exp2(1) == 2);
                        assert(num * 2 == 2 * num) by (nonlinear_arith);
                    } else {
                        assert((-e1) as nat == u2 + 1);
                        assert(num * (2 * exp2(u2)) == 2 * (num * exp2(u2))) by (nonlinear_arith);
                    }
                }
            }
            assert(sn2 < exp2(84) && sd2 < exp2(84));
        }
        let (sn2, sd2) = scaled_exec(num, den, e1 + 1);
        (sn2, sd2, e1 + 1)
    };
    let mant = round_half_even_exec(sn, sd);
    proof {
        lemma_scaled_pos(num as nat, den as nat, e as int);
        lemma_div_below(sn as nat, sd as nat, hi);
        lemma_round_half_even_bounds(sn as nat, sd as nat);
        if e >= 0 {
            // mant * 2^e <= 2^bits * 2^e == 2^(bits + e) <= 2^65
            lemma_exp2_add(bits as nat, e as nat);
            lemma_exp2_mono((bits + e) as nat, 65);
            lemma_exp2_pos(e as nat);
            assert(mant * exp2(e as nat) <= hi * exp2(e as nat)) by (nonlinear_arith)
                requires
                    mant <= hi,
                    exp2(e as nat) >= 1,
            ;
        }
    }
    (mant, e)
}

fn fixed_point_exec(m: u128, e: i32, decimals: u32) -> (r: u128)
    requires
        m <= exp2(53),
        -84 <= e <= 65,
        e >= 0 ==> m * exp2(e as nat) <= exp2(65),
        decimals <= 2,
    ensures
        r == fixed_point(m as nat, e as int, decimals as nat),
{
    proof {
        lemma_exp2_64_128();
        lemma_exp2_mono(65, 127);
        lemma_exp2_mono(53, 64);
        assert(exp2(128) == 2 * exp2(127));
    }
    let ten = exp10_exec(decimals);
    proof {
        assert(exp10(2) == 100) by {
            reveal_with_fuel(exp10, 3);
        }
        assert(ten <= 100) by {
            if decimals == 0 {
            } else if decimals == 1 {
                assert(exp10(1) == 10 * exp10(0));
            } else {
            }
        }
    }
    if e >= 0 {
        let p = exp2_exec(e as u32);
        proof {
            assert(m * p * ten <= exp2(65) * 100) by (nonlinear_arith)
                requires
                    m * p <= exp2(65),
                    ten <= 100,
            ;
        }
        m * p * ten
    } else {
        let p = exp2_exec((0 - e) as u32);
        proof {
            lemma_exp2_pos((0 - e) as nat);
            assert(m * ten <= exp2(64) * 100) by (nonlinear_arith)
                requires
                    m <= exp2(64),
                    ten <= 100,
            ;
        }
        round_half_even_exec(m * ten, p)
    }
}

/// The digits of `x / 10^k` computed in a float type with `bits` significant
/// bits and written with `decimals` places, as an integer number of
/// `10^-decimals`.
pub fn float_quotient_fixed_exec(x: u64, k: u32, bits: u32, decimals: u32) -> (r: u128)
    requires
        x > 0,
        k <= 9,
        1 <= bits <= 53,
        decimals <= 2,
    ensures
        r == float_quotient_fixed(x as nat, k as nat, bits as nat, decimals as nat),
{
    let v = float_of_int_exec(x, bits);
    let den = exp10_exec(k);
    proof {
        lemma_exp10_pos(k as nat);
        assert(exp2(30) == 1073741824) by {
            reveal_with_fuel(exp2, 31);
        }
        lemma_exp2_mono(bits as nat, 53);
    }
    let (m, e) = float_quotient_exec(v, den, bits);
    fixed_point_exec(m, e, decimals)
}


/// The text of `r` units of `10^-decimals`, with exactly `decimals` digits
/// after the point.
pub fn fixed_to_text(r: u128, decimals: u32) -> (res: String)
    requires
        decimals <= 2,
    ensures
        res@ == fixed_text(r as nat, decimals as nat),
{
    let mut s = String::new();
    if decimals == 0 {
        push_decimal(&mut s, r);
    } else {
        let ten = exp10_exec(decimals);
        proof {
            lemma_exp10_pos(decimals as nat);
            reveal_strlit(".");
        }
        push_decimal(&mut s, r / ten);
        s.append(".");
        push_padded_decimal(&mut s, r % ten, decimals);
    }
    assert(s@ =~= fixed_text(r as nat, decimals as nat));
    s
}

} // verus!
