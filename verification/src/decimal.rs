//! Integers in decimal notation, and the rounding of quotients to a fixed
//! number of decimal places.
use crate::text::chars_of;
use vstd::arithmetic::power2::{lemma2_to64, lemma_pow2_pos, lemma_pow2_unfold, pow2};
use vstd::prelude::*;
use vstd::string::*;

verus! {

/// The character of a decimal digit.
pub open spec fn digit_char(d: nat) -> char {
    if d == 0 {
        '0'
    } else if d == 1 {
        '1'
    } else if d == 2 {
        '2'
    } else if d == 3 {
        '3'
    } else if d == 4 {
        '4'
    } else if d == 5 {
        '5'
    } else if d == 6 {
        '6'
    } else if d == 7 {
        '7'
    } else if d == 8 {
        '8'
    } else {
        '9'
    }
}

/// The decimal notation of a natural number, without leading zeros.
pub open spec fn decimal(n: nat) -> Seq<char>
    decreases n,
{
    if n < 10 {
        seq![digit_char(n)]
    } else {
        decimal(n / 10).push(digit_char(n % 10))
    }
}

/// The decimal notation of an integer.
pub open spec fn decimal_int(n: int) -> Seq<char> {
    if n < 0 {
        seq!['-'] + decimal((-n) as nat)
    } else {
        decimal(n as nat)
    }
}

fn digit(d: u64) -> (c: char)
    requires
        d < 10,
    ensures
        c == digit_char(d as nat),
{
    match d {
        0 => '0',
        1 => '1',
        2 => '2',
        3 => '3',
        4 => '4',
        5 => '5',
        6 => '6',
        7 => '7',
        8 => '8',
        _ => '9',
    }
}

/// Writes `n` in decimal notation.
pub(crate) fn show_u64(n: u64) -> (r: String)
    ensures
        r@ == decimal(n as nat),
    decreases n,
{
    if n < 10 {
        let mut out = String::new();
        out.push(digit(n));
        assert(out@ =~= seq![digit_char(n as nat)]);
        out
    } else {
        let mut out = show_u64(n / 10);
        out.push(digit(n % 10));
        out
    }
}

/// Writes `n` in decimal notation.
pub(crate) fn show_usize(n: usize) -> (r: String)
    ensures
        r@ == decimal(n as nat),
{
    show_u64(n as u64)
}

/// Writes `n` in decimal notation.
pub(crate) fn show_i64(n: i64) -> (r: String)
    ensures
        r@ == decimal_int(n as int),
{
    if n < 0 {
        let mut out = String::new();
        out.push('-');
        let m: u64 = (-(n as i128)) as u64;
        let rest = show_u64(m);
        out.append(&rest);
        assert(out@ =~= seq!['-'] + decimal(m as nat));
        out
    } else {
        show_u64(n as u64)
    }
}

/// Whether `c` is one of the ASCII digits.
pub open spec fn is_digit(c: char) -> bool {
    '0' <= c <= '9'
}

/// The value of an ASCII digit.
pub open spec fn digit_value(c: char) -> nat {
    (c as u32 - '0' as u32) as nat
}

/// Whether `s` is a non-empty run of ASCII digits.
pub open spec fn all_digits(s: Seq<char>) -> bool {
    s.len() > 0 && forall|i: int| 0 <= i < s.len() ==> is_digit(#[trigger] s[i])
}

/// The number that a run of ASCII digits denotes.
pub open spec fn digits_value(s: Seq<char>) -> nat
    decreases s.len(),
{
    if s.len() == 0 {
        0
    } else {
        digits_value(s.drop_last()) * 10 + digit_value(s.last())
    }
}

/// What an unsigned parse reads: digits, which one `+` may precede, of a value
/// of at most `max`.
pub open spec fn parse_unsigned(s: Seq<char>, max: nat) -> Option<nat> {
    let body = if s.len() > 0 && s[0] == '+' {
        s.skip(1)
    } else {
        s
    };
    if all_digits(body) && digits_value(body) <= max {
        Some(digits_value(body))
    } else {
        None
    }
}

/// What a signed 64-bit parse reads: digits, which one sign may precede, of a
/// value that fits.
pub open spec fn parse_signed(s: Seq<char>) -> Option<int> {
    let negative = s.len() > 0 && s[0] == '-';
    let body = if s.len() > 0 && (s[0] == '+' || s[0] == '-') {
        s.skip(1)
    } else {
        s
    };
    let value = if negative {
        -(digits_value(body) as int)
    } else {
        digits_value(body) as int
    };
    if all_digits(body) && i64::MIN <= value <= i64::MAX {
        Some(value)
    } else {
        None
    }
}

/// A longer run of digits denotes no smaller number.
proof fn digits_value_prefix(s: Seq<char>, i: int)
    requires
        0 <= i <= s.len(),
    ensures
        digits_value(s.take(i)) <= digits_value(s),
    decreases s.len(),
{
    if i < s.len() {
        assert(s.drop_last().take(i) =~= s.take(i));
        digits_value_prefix(s.drop_last(), i);
    } else {
        assert(s.take(i) =~= s);
    }
}

/// Reads `chars[from..]` as a run of digits of a value of at most `max`.
pub(crate) fn read_digits(chars: &Vec<char>, from: usize, max: u64) -> (r: Option<u64>)
    requires
        from <= chars@.len(),
    ensures
        ({
            let body = chars@.skip(from as int);
            match r {
                Some(v) => all_digits(body) && digits_value(body) == v && v <= max,
                None => !(all_digits(body) && digits_value(body) <= max),
            }
        }),
{
    let ghost body = chars@.skip(from as int);
    if from == chars.len() {
        return None;
    }
    let mut acc: u64 = 0;
    let mut i: usize = from;
    assert(body.take(0) =~= Seq::<char>::empty());
    while i < chars.len()
        invariant
            from <= i <= chars@.len(),
            from < chars@.len(),
            body == chars@.skip(from as int),
            acc == digits_value(body.take(i - from)),
            acc <= max,
            forall|j: int| 0 <= j < i - from ==> is_digit(#[trigger] body[j]),
        decreases chars@.len() - i,
    {
        let c = chars[i];
        assert(body[i - from] == c);
        if c < '0' || c > '9' {
            assert(!all_digits(body));
            return None;
        }
        let d: u64 = (c as u32 - '0' as u32) as u64;
        let wide: u128 = acc as u128 * 10 + d as u128;
        proof {
            let next = body.take(i - from + 1);
            assert(next.drop_last() =~= body.take(i - from));
            assert(next.last() == c);
            assert(digits_value(next) == wide);
            digits_value_prefix(body, i - from + 1);
        }
        if wide > max as u128 {
            return None;
        }
        acc = wide as u64;
        i += 1;
    }
    assert(body.take(i - from) =~= body);
    Some(acc)
}

/// Reads a `u64` as `str::parse` does.
pub(crate) fn read_u64(s: &str) -> (r: Option<u64>)
    ensures
        match r {
            Some(v) => parse_unsigned(s@, u64::MAX as nat) == Some(v as nat),
            None => parse_unsigned(s@, u64::MAX as nat) is None,
        },
{
    let chars = chars_of(s);
    if chars.len() > 0 && chars[0] == '+' {
        read_digits(&chars, 1, u64::MAX)
    } else {
        assert(chars@.skip(0) =~= s@);
        read_digits(&chars, 0, u64::MAX)
    }
}

/// Reads an `i64` as `str::parse` does.
pub(crate) fn read_i64(s: &str) -> (r: Option<i64>)
    ensures
        match r {
            Some(v) => parse_signed(s@) == Some(v as int),
            None => parse_signed(s@) is None,
        },
{
    let chars = chars_of(s);
    let max: u64 = i64::MAX as u64;
    if chars.len() > 0 && chars[0] == '-' {
        match read_digits(&chars, 1, max + 1) {
            None => None,
            Some(v) => {
                let wide: i128 = -(v as i128);
                Some(wide as i64)
            },
        }
    } else if chars.len() > 0 && chars[0] == '+' {
        match read_digits(&chars, 1, max) {
            None => None,
            Some(v) => Some(v as i64),
        }
    } else {
        assert(chars@.skip(0) =~= s@);
        match read_digits(&chars, 0, max) {
            None => None,
            Some(v) => Some(v as i64),
        }
    }
}


// ─── Rounded quotients ──────────────────────────────────────────────────────

/// The integer nearest to `num / den`, the even one of two that are equally near.
pub open spec fn half_even(num: nat, den: nat) -> nat {
    let q = num / den;
    let r = num % den;
    if 2 * r > den || (2 * r == den && q % 2 == 1) {
        q + 1
    } else {
        q
    }
}

/// The first exponent from `e` on with which `num` reaches `den * 2^52`.
pub open spec fn scale_exponent(num: nat, den: nat, e: nat) -> nat
    decreases 64 - e,
{
    if e >= 64 || num * pow2(e) >= den * pow2(52) {
        e
    } else {
        scale_exponent(num, den, e + 1)
    }
}

/// The number nearest to `n` with at most 53 significant bits.
pub open spec fn nearest_53_bits(n: nat) -> nat {
    if n < pow2(53) {
        n
    } else if n < pow2(54) {
        half_even(n, 2) * 2
    } else if n < pow2(55) {
        half_even(n, 4) * 4
    } else if n < pow2(56) {
        half_even(n, 8) * 8
    } else if n < pow2(57) {
        half_even(n, 16) * 16
    } else if n < pow2(58) {
        half_even(n, 32) * 32
    } else if n < pow2(59) {
        half_even(n, 64) * 64
    } else if n < pow2(60) {
        half_even(n, 128) * 128
    } else if n < pow2(61) {
        half_even(n, 256) * 256
    } else if n < pow2(62) {
        half_even(n, 512) * 512
    } else if n < pow2(63) {
        half_even(n, 1024) * 1024
    } else {
        half_even(n, 2048) * 2048
    }
}

/// The quotient `num / den` in tenths. The quotient is first rounded to 53
/// significant bits, as binary64 arithmetic does, and then to tenths.
pub open spec fn quotient_tenths(num: nat, den: nat) -> nat {
    let e = scale_exponent(num, den, 0);
    half_even(10 * half_even(num * pow2(e), den), pow2(e))
}

/// A number of tenths, with one decimal place.
pub open spec fn tenths_text(t: nat) -> Seq<char> {
    decimal(t / 10) + "."@ + decimal(t % 10)
}

/// A number of hundredths, with two decimal places.
pub open spec fn hundredths_text(h: nat) -> Seq<char> {
    decimal(h / 100) + "."@ + decimal((h % 100) / 10) + decimal(h % 10)
}

fn half_even_u128(num: u128, den: u128) -> (r: u128)
    requires
        0 < den < 0x4000_0000_0000_0000_0000_0000_0000_0000,
    ensures
        r == half_even(num as nat, den as nat),
{
    let q: u128 = num / den;
    let rem: u128 = num % den;
    proof {
        vstd::arithmetic::div_mod::lemma_mod_bound(num as int, den as int);
        vstd::arithmetic::div_mod::lemma_fundamental_div_mod(num as int, den as int);
        assert(q <= num) by (nonlinear_arith)
            requires
                num == den * q + rem,
                den >= 1,
                q >= 0,
                rem >= 0,
        ;
        if 2 * rem >= den {
            assert(q < num) by (nonlinear_arith)
                requires
                    num == den * q + rem,
                    2 * rem >= den,
                    den >= 1,
                    q >= 0,
                    rem >= 0,
            ;
        }
    }
    if 2 * rem > den || (2 * rem == den && q % 2 == 1) {
        q + 1
    } else {
        q
    }
}

proof fn scale_step(num: nat, den: nat, e: nat)
    requires
        e < 64,
        num * pow2(e) < den * pow2(52),
    ensures
        scale_exponent(num, den, e) == scale_exponent(num, den, e + 1),
{
}

fn quotient_in_tenths(num: u128, den: u64) -> (r: u128)
    requires
        0 < den <= 1_000_000,
        den <= num <= 0x1_0000_0000_0000_0000,
    ensures
        r == quotient_tenths(num as nat, den as nat),
{
    let goal: u128 = den as u128 * 0x10_0000_0000_0000;
    let mut x: u128 = num;
    let mut p: u128 = 1;
    let mut e: u32 = 0;
    proof {
        lemma2_to64();
        vstd::arithmetic::power2::lemma2_to64_rest();
        assert(num * 1 == num);
        assert(pow2(52) == 0x10_0000_0000_0000);
    }
    while x < goal
        invariant
            0 < den <= 1_000_000,
            den <= num <= 0x1_0000_0000_0000_0000,
            goal == den * pow2(52),
            pow2(52) == 0x10_0000_0000_0000,
            e <= 52,
            p == pow2(e as nat),
            x == num * p,
            p <= 0x10_0000_0000_0000,
            scale_exponent(num as nat, den as nat, 0) == scale_exponent(
                num as nat,
                den as nat,
                e as nat,
            ),
        decreases 52 - e,
    {
        proof {
            lemma_pow2_unfold((e + 1) as nat);
            assert(num * p < 0x10_0000_0000_0000 * 1_000_000) by {
                assert(den * pow2(52) <= 1_000_000 * 0x10_0000_0000_0000) by (nonlinear_arith)
                    requires
                        den <= 1_000_000,
                        pow2(52) == 0x10_0000_0000_0000,
                ;
            }
            if e >= 52 {
                vstd::arithmetic::power2::lemma_pow2_strictly_increases(0, 52);
                assert(e == 52);
                assert(num * p >= den * p) by (nonlinear_arith)
                    requires
                        den <= num,
                        p >= 0,
                ;
                assert(false);
            }
            scale_step(num as nat, den as nat, e as nat);
            assert(num * (2 * p) == 2 * (num * p)) by (nonlinear_arith);
            if p * 2 > 0x10_0000_0000_0000 {
                vstd::arithmetic::power2::lemma_pow2_strictly_increases((e + 1) as nat, 53);
                if e + 1 < 52 {
                    vstd::arithmetic::power2::lemma_pow2_strictly_increases((e + 1) as nat, 52);
                }
            }
        }
        x = x * 2;
        p = p * 2;
        e = e + 1;
    }
    proof {
        assert(x >= goal);
        assert(scale_exponent(num as nat, den as nat, e as nat) == e);
        assert(p >= 1) by {
            lemma_pow2_pos(e as nat);
        }
        assert(x <= 0x1_0000_0000_0000_0000 * 0x10_0000_0000_0000) by (nonlinear_arith)
            requires
                x == num * p,
                num <= 0x1_0000_0000_0000_0000,
                p <= 0x10_0000_0000_0000,
                num >= 0,
        ;
    }
    let m: u128 = half_even_u128(x, den as u128);
    proof {
        assert(m <= x + 1) by (nonlinear_arith)
            requires
                m == half_even(x as nat, den as nat),
                den >= 1,
                x >= 0,
        {
            assert(x as nat / den as nat <= x) by (nonlinear_arith)
                requires
                    den >= 1,
                    x >= 0,
            ;
        }
    }
    half_even_u128(10 * m, p)
}

/// Rounds `n` to 53 significant bits.
fn round_to_53_bits(n: u64) -> (r: u128)
    ensures
        r == nearest_53_bits(n as nat),
        n < 0x20_0000_0000_0000 ==> r == n,
        r <= 0x1_0000_0000_0000_0000,
        n >= 1_000_000 ==> r >= 1_000_000,
{
    proof {
        lemma2_to64();
        vstd::arithmetic::power2::lemma2_to64_rest();
    }
    let d: u128 = if n < 0x20_0000_0000_0000 {
        1
    } else if n < 0x40_0000_0000_0000 {
        2
    } else if n < 0x80_0000_0000_0000 {
        4
    } else if n < 0x100_0000_0000_0000 {
        8
    } else if n < 0x200_0000_0000_0000 {
        16
    } else if n < 0x400_0000_0000_0000 {
        32
    } else if n < 0x800_0000_0000_0000 {
        64
    } else if n < 0x1000_0000_0000_0000 {
        128
    } else if n < 0x2000_0000_0000_0000 {
        256
    } else if n < 0x4000_0000_0000_0000 {
        512
    } else if n < 0x8000_0000_0000_0000 {
        1024
    } else {
        2048
    };
    let q: u128 = half_even_u128(n as u128, d);
    proof {
        vstd::arithmetic::div_mod::lemma_fundamental_div_mod(n as int, d as int);
        assert(q * d <= 0x1_0000_0000_0000_0000) by (nonlinear_arith)
            requires
                q == half_even(n as nat, d as nat),
                n as int == d * (n as int / d as int) + n as int % d as int,
                n <= 0xffff_ffff_ffff_ffff,
                d == 1 || d == 2 || d == 4 || d == 8 || d == 16 || d == 32 || d == 64 || d == 128
                    || d == 256 || d == 512 || d == 1024 || d == 2048,
        ;
    }
    q * d
}


/// A count of tokens in short form: `-` for none, thousands as `K` and millions
/// as `M` with one decimal place.
pub open spec fn tokens_text(n: nat) -> Seq<char> {
    if n == 0 {
        "-"@
    } else if n < 1_000 {
        decimal(n)
    } else if n < 1_000_000 {
        tenths_text(quotient_tenths(n, 1_000)) + "K"@
    } else {
        tenths_text(quotient_tenths(nearest_53_bits(n), 1_000_000)) + "M"@
    }
}

fn show_u128(n: u128) -> (r: String)
    ensures
        r@ == decimal(n as nat),
    decreases n,
{
    if n < 10 {
        show_u64(n as u64)
    } else {
        let mut out = show_u128(n / 10);
        out.push(digit((n % 10) as u64));
        out
    }
}

/// Writes `n` in decimal notation.
pub(crate) fn show_i128(n: i128) -> (r: String)
    ensures
        r@ == decimal_int(n as int),
{
    if n >= 0 {
        show_u128(n as u128)
    } else {
        let m: u128 = (-(n + 1)) as u128 + 1;
        let mut out = String::new();
        out.push('-');
        let rest = show_u128(m);
        out.append(&rest);
        assert(out@ =~= seq!['-'] + decimal(m as nat));
        out
    }
}

fn show_tenths(t: u128) -> (r: String)
    ensures
        r@ == tenths_text(t as nat),
{
    let mut out = show_u128(t / 10);
    out.append(".");
    let last = show_u128(t % 10);
    out.append(&last);
    out
}

/// Writes a count of tokens in short form.
pub(crate) fn show_tokens(n: u64) -> (r: String)
    ensures
        r@ == tokens_text(n as nat),
{
    if n == 0 {
        String::from_str("-")
    } else if n < 1_000 {
        show_u64(n)
    } else if n < 1_000_000 {
        let mut out = show_tenths(quotient_in_tenths(n as u128, 1_000));
        out.append("K");
        out
    } else {
        let mut out = show_tenths(quotient_in_tenths(round_to_53_bits(n), 1_000_000));
        out.append("M");
        out
    }
}

/// Writes `num / den` with two decimal places.
pub(crate) fn show_hundredths(num: u64, den: u64) -> (r: String)
    requires
        den > 0,
    ensures
        r@ == hundredths_text(half_even((num * 100) as nat, den as nat)),
{
    let h: u128 = half_even_u128(num as u128 * 100, den as u128);
    let mut out = show_u128(h / 100);
    out.append(".");
    let a = show_u128((h % 100) / 10);
    let b = show_u128(h % 10);
    out.append(&a);
    out.append(&b);
    out
}

// ─── What the notation denotes ──────────────────────────────────────────────

proof fn decimal_digits(n: nat)
    ensures
        all_digits(decimal(n)),
        digits_value(decimal(n)) == n,
    decreases n,
{
    if n < 10 {
        let s = decimal(n);
        assert(s.drop_last() =~= Seq::<char>::empty());
        assert(digits_value(s.drop_last()) == 0);
    } else {
        decimal_digits(n / 10);
        let head = decimal(n / 10);
        let s = decimal(n);
        assert(s.drop_last() =~= head);
        assert forall|i: int| 0 <= i < s.len() implies is_digit(#[trigger] s[i]) by {
            if i < head.len() {
                assert(s[i] == head[i]);
            }
        }
    }
}

/// The decimal notation of a number is read as that number.
pub proof fn decimal_is_read_back(n: nat, max: nat)
    requires
        n <= max,
    ensures
        parse_unsigned(decimal(n), max) == Some(n),
{
    decimal_digits(n);
    let s = decimal(n);
    assert(is_digit(s[0]));
}

/// The decimal notation of a signed number is read as that number.
pub proof fn signed_decimal_is_read_back(n: i64)
    ensures
        parse_signed(decimal_int(n as int)) == Some(n as int),
{
    let m: nat = if n < 0 {
        (-(n as int)) as nat
    } else {
        n as nat
    };
    decimal_digits(m);
    let d = decimal(m);
    assert(is_digit(d[0]));
    if n < 0 {
        let s = decimal_int(n as int);
        assert(s[0] == '-');
        assert(s.skip(1) =~= d);
    }
}

/// Different numbers have different notations.
pub proof fn decimals_differ(a: nat, b: nat)
    requires
        decimal(a) == decimal(b),
    ensures
        a == b,
{
    decimal_digits(a);
    decimal_digits(b);
}

/// Few tokens are written in full, and none as a dash; whole thousands and whole millions
/// are written with their letter.
pub proof fn tokens_are_written_by_size(n: nat, k: nat)
    ensures
        0 < n < 1_000 ==> tokens_text(n) == decimal(n),
        tokens_text(0) == "-"@,
        1 <= k < 1_000 ==> tokens_text(1_000 * k) == decimal(k) + ".0"@ + "K"@,
        1 <= k < 1_000_000_000 ==> tokens_text(1_000_000 * k) == decimal(k) + ".0"@ + "M"@,
{
    reveal_strlit(".0");
    reveal_strlit(".");
    assert(decimal(0) =~= seq!['0']);
    assert("."@ + decimal(0) =~= ".0"@);
    if 1 <= k < 1_000 {
        whole_quotient(k, 1_000);
        assert(tenths_text(10 * k) =~= decimal(k) + ".0"@);
    }
    if 1 <= k < 1_000_000_000 {
        whole_quotient(k, 1_000_000);
        assert(tenths_text(10 * k) =~= decimal(k) + ".0"@);
        assert(1_000_000 * k < pow2(53)) by {
            vstd::arithmetic::power2::lemma2_to64_rest();
            vstd::arithmetic::power2::lemma2_to64();
        }
    }
}

proof fn whole_quotient(k: nat, den: nat)
    requires
        den > 0,
    ensures
        quotient_tenths(k * den, den) == 10 * k,
        quotient_tenths(den * k, den) == 10 * k,
{
    assert(k * den == den * k) by (nonlinear_arith);
    let e = scale_exponent(k * den, den, 0);
    let p = pow2(e);
    vstd::arithmetic::power2::lemma_pow2_pos(e);
    assert(k * den * p == (k * p) * den) by (nonlinear_arith);
    vstd::arithmetic::div_mod::lemma_div_multiples_vanish((k * p) as int, den as int);
    vstd::arithmetic::div_mod::lemma_mod_multiples_basic((k * p) as int, den as int);
    assert((k * p) * den == den * (k * p)) by (nonlinear_arith);
    assert(half_even(k * den * p, den) == k * p);
    assert(10 * (k * p) == (10 * k) * p) by (nonlinear_arith);
    assert((10 * k) * p == p * (10 * k)) by (nonlinear_arith);
    vstd::arithmetic::div_mod::lemma_div_multiples_vanish((10 * k) as int, p as int);
    vstd::arithmetic::div_mod::lemma_mod_multiples_basic((10 * k) as int, p as int);
    assert(half_even(10 * (k * p), p) == 10 * k);
}

/// A rounded quotient is no further than half from the quotient, and even where two integers
/// are that far.
pub proof fn rounding_goes_to_the_nearest(num: nat, den: nat)
    requires
        den > 0,
    ensures
        -(den as int) <= 2 * (half_even(num, den) * den - num) <= den,
        2 * (half_even(num, den) * den - num) == den || 2 * (num - half_even(num, den) * den) == den
            ==> half_even(num, den) % 2 == 0,
{
    let q = num / den;
    let r = num % den;
    vstd::arithmetic::div_mod::lemma_fundamental_div_mod(num as int, den as int);
    assert(q * den == den * q) by (nonlinear_arith);
    assert((q + 1) * den == q * den + den) by (nonlinear_arith);
    assert(r < den);
}

/// Tenths are no further than one tenth from the quotient that they tell.
pub proof fn tenths_are_near(num: nat, den: nat)
    requires
        den > 0,
        0 < num < den * 0x1_0000_0000_0000,
    ensures
        -(den as int) <= quotient_tenths(num, den) * den - 10 * num <= den,
{
    let e = scale_exponent(num, den, 0);
    let p = pow2(e);
    scale_is_reached(num, den, 0);
    lemma_pow2_pos(e);
    lemma2_to64();
    vstd::arithmetic::power2::lemma2_to64_rest();
    assert(p >= 16) by {
        if e < 64 && p < 16 {
            assert(num * p <= num * 16) by (nonlinear_arith)
                requires
                    p < 16,
            ;
        }
    }
    let x = half_even(num * p, den);
    let t = half_even(10 * x, p);
    rounding_goes_to_the_nearest(num * p, den);
    rounding_goes_to_the_nearest(10 * x, p);
    let a: int = t * p - 10 * x;
    let b: int = x * den - num * p;
    let d: int = t * den - 10 * num;
    assert(d * p == a * den + 10 * b) by (nonlinear_arith)
        requires
            a == t * p - 10 * x,
            b == x * den - num * p,
            d == t * den - 10 * num,
    ;
    assert(2 * (a * den) <= p * den && 2 * (a * den) >= -(p * den)) by (nonlinear_arith)
        requires
            -(p as int) <= 2 * a <= p,
            den > 0,
    ;
    assert(10 * den <= p * den) by (nonlinear_arith)
        requires
            p >= 16,
    ;
    assert(-(den as int) <= d <= den) by (nonlinear_arith)
        requires
            -(2 * (p * den)) <= 2 * (d * p) <= 2 * (p * den),
            p > 0,
    ;
}

proof fn scale_is_reached(num: nat, den: nat, e: nat)
    requires
        e <= 64,
    ensures
        scale_exponent(num, den, e) <= 64,
        scale_exponent(num, den, e) == 64 || num * pow2(scale_exponent(num, den, e)) >= den * pow2(
            52,
        ),
    decreases 64 - e,
{
    if e < 64 && num * pow2(e) < den * pow2(52) {
        scale_is_reached(num, den, e + 1);
    }
}

/// A text in tenths has one digit behind the point, and one in hundredths two.
pub proof fn fractions_are_written_by_digit(whole: nat, tenth: nat, hundredth: nat)
    requires
        tenth < 10,
        hundredth < 10,
    ensures
        tenths_text(10 * whole + tenth) == decimal(whole) + "."@ + decimal(tenth),
        hundredths_text(100 * whole + 10 * tenth + hundredth) == decimal(whole) + "."@ + decimal(
            tenth,
        ) + decimal(hundredth),
{
}

} // verus!
