//! Decimal numbers: reading an unsigned integer (`str::parse`) and writing
//! integers, and the two-decimal size texts of package reports.
use vstd::prelude::*;
use vstd::string::*;
use crate::text::push_char;

verus! {

/// `c` is one of `0`..`9`.
pub open spec fn is_digit(c: char) -> bool {
    '0' <= c && c <= '9'
}

/// The value of a decimal digit.
pub open spec fn digit_val(c: char) -> nat {
    ((c as u32) - 48) as nat
}

/// The value of the decimal digits `s`.
pub open spec fn dec_value(s: Seq<char>) -> nat
    decreases s.len(),
{
    if s.len() == 0 {
        0
    } else {
        dec_value(s.drop_last()) * 10 + digit_val(s.last())
    }
}

/// `str::parse` of an unsigned integer type whose largest value is `max`:
/// an optional `+`, then one or more decimal digits, of value at most `max`.
pub open spec fn parse_uint(s: Seq<char>, max: nat) -> Option<nat> {
    let d = unsigned_digits(s);
    if d.len() > 0 && all_digits(d) && dec_value(d) <= max {
        Some(dec_value(d))
    } else {
        None
    }
}

/// `s` without one leading `+`.
pub open spec fn unsigned_digits(s: Seq<char>) -> Seq<char> {
    if s.len() > 0 && s[0] == '+' {
        s.drop_first()
    } else {
        s
    }
}

/// Every character of `d` is a decimal digit.
pub open spec fn all_digits(d: Seq<char>) -> bool {
    forall|i: int| 0 <= i < d.len() ==> is_digit(#[trigger] d[i])
}

/// The character of the digit `d`.
pub open spec fn digit_char(d: nat) -> char {
    ((d + 48) as u8) as char
}

/// The decimal text of `n`.
pub open spec fn dec(n: nat) -> Seq<char>
    decreases n,
{
    if n < 10 {
        seq![digit_char(n)]
    } else {
        dec(n / 10).push(digit_char(n % 10))
    }
}

proof fn lemma_dec_value_prefix(s: Seq<char>, i: int)
    requires
        0 <= i <= s.len(),
    ensures
        dec_value(s.take(i)) <= dec_value(s),
    decreases s.len() - i,
{
    if i < s.len() {
        lemma_dec_value_prefix(s, i + 1);
        assert(s.take(i + 1).drop_last() =~= s.take(i));
    } else {
        assert(s.take(i) =~= s);
    }
}

/// `parse_uint` in code, for a largest value `max` below 2^127.
pub fn parse_uint_slice(s: &[char], max: u128) -> (r: Option<u128>)
    requires
        max < 0x8000_0000_0000_0000_0000_0000_0000_0000u128,
    ensures
        r matches Some(n) ==> parse_uint(s@, max as nat) == Some(n as nat),
        r is None ==> parse_uint(s@, max as nat) is None,
{
    let start: usize = if s.len() > 0 && s[0] == '+' {
        1
    } else {
        0
    };
    let ghost d = unsigned_digits(s@);
    assert(d =~= s@.skip(start as int));
    if start >= s.len() {
        return None;
    }
    let mut acc: u128 = 0;
    let mut i: usize = start;
    assert(d.take(0) =~= Seq::<char>::empty());
    while i < s.len()
        invariant
            start <= i <= s@.len(),
            d =~= s@.skip(start as int),
            d == unsigned_digits(s@),
            max < 0x8000_0000_0000_0000_0000_0000_0000_0000u128,
            acc as nat == dec_value(d.take(i - start)),
            acc <= max,
            forall|t: int| 0 <= t < i - start ==> is_digit(#[trigger] d[t]),
        decreases s@.len() - i,
    {
        let c = s[i];
        if !('0' <= c && c <= '9') {
            assert(d[i - start] == c);
            assert(!is_digit(d[i - start]));
            assert(!all_digits(d));
            return None;
        }
        let dv = (c as u32 - 48) as u128;
        assert(d.take(i - start + 1).drop_last() =~= d.take(i - start));
        assert(d.take(i - start + 1).last() == c);
        if dv > max || acc > (max - dv) / 10 {
            proof {
                if dv <= max {
                    assert(acc * 10 + dv > max) by (nonlinear_arith)
                        requires
                            acc > (max - dv) / 10,
                            dv <= max,
                    ;
                }
                lemma_dec_value_prefix(d, i - start + 1);
            }
            return None;
        }
        assert(acc * 10 + dv <= max) by (nonlinear_arith)
            requires
                acc <= (max - dv) / 10,
                dv <= 9,
                dv <= max,
        ;
        acc = acc * 10 + dv;
        i = i + 1;
    }
    assert(d.take(d.len() as int) =~= d);
    Some(acc)
}

/// Appends the decimal digits of `n` to `s`.
pub fn push_decimal(s: &mut String, n: u128)
    ensures
        final(s)@ == old(s)@ + dec(n as nat),
    decreases n,
{
    if n >= 10 {
        push_decimal(s, n / 10);
    }
    let d = (n % 10) as u8;
    push_digit(s, d);
    assert(dec(n as nat) == if n < 10 { seq![digit_char(n as nat)] } else { dec((n / 10) as nat).push(digit_char((n % 10) as nat)) });
}

/// Appends the digit `d` to `s`.
fn push_digit(s: &mut String, d: u8)
    requires
        d < 10,
    ensures
        final(s)@ == old(s)@.push(digit_char(d as nat)),
{
    let c = (d + 48) as char;
    push_char(s, c);
}

/// The decimal text of `n`.
pub fn decimal_string(n: u128) -> (s: String)
    ensures
        s@ == dec(n as nat),
{
    let mut s = String::new();
    push_decimal(&mut s, n);
    s
}


/// 2 to the power `k`.
pub open spec fn two_pow(k: nat) -> nat
    decreases k,
{
    if k == 0 {
        1
    } else {
        2 * two_pow((k - 1) as nat)
    }
}

/// The number of binary digits of `n`.
pub open spec fn bit_len(n: nat) -> nat
    decreases n,
{
    if n == 0 {
        0
    } else {
        1 + bit_len(n / 2)
    }
}

/// `a / b` rounded to the nearest integer, halves to the even neighbour.
pub open spec fn div_round_even(a: nat, b: nat) -> nat {
    let q = a / b;
    let r = a % b;
    if 2 * r > b || (2 * r == b && q % 2 == 1) {
        q + 1
    } else {
        q
    }
}

/// The value that an `f64` holds after `n as f64`: `n` rounded to 53
/// significant binary digits, halves to even.
pub open spec fn as_f64(n: nat) -> nat {
    let k: nat = if bit_len(n) > 53 {
        (bit_len(n) - 53) as nat
    } else {
        0
    };
    div_round_even(n, two_pow(k)) * two_pow(k)
}

/// `h` hundredths written with two decimals, as `{:.2}` writes them.
pub open spec fn fixed2(h: nat) -> Seq<char> {
    dec(h / 100) + "."@ + seq![digit_char((h % 100) / 10), digit_char(h % 10)]
}

/// The size text of a byte count: mebibytes or kibibytes with two decimals
/// above 1 MiB and 1 KiB, else whole bytes.
pub open spec fn size_text(bytes: nat) -> Seq<char> {
    if bytes > 1048576 {
        fixed2(div_round_even(as_f64(bytes) * 100, 1048576)) + " MB"@
    } else if bytes > 1024 {
        fixed2(div_round_even(bytes * 100, 1024)) + " KB"@
    } else {
        dec(bytes) + " B"@
    }
}

proof fn lemma_two_pow_pos(k: nat)
    ensures
        two_pow(k) >= 1,
    decreases k,
{
    if k > 0 {
        lemma_two_pow_pos((k - 1) as nat);
    }
}

proof fn lemma_bit_len_bound(m: nat, j: nat)
    requires
        m < two_pow(j),
    ensures
        bit_len(m) <= j,
    decreases j,
{
    if m > 0 {
        if j == 0 {
        } else {
            lemma_bit_len_bound(m / 2, (j - 1) as nat);
        }
    }
}

/// `div_round_even` in code.
fn div_round_even_exec(a: u128, b: u128) -> (r: u128)
    requires
        b > 0,
        a < 0x1000_0000_0000_0000_0000_0000_0000_0000u128,
    ensures
        r as nat == div_round_even(a as nat, b as nat),
{
    let q = a / b;
    let rem = a % b;
    assert(q <= a) by (nonlinear_arith)
        requires
            q == a / b,
            b > 0,
    ;
    if rem > b - rem || (rem == b - rem && q % 2 == 1) {
        q + 1
    } else {
        q
    }
}

/// `as_f64` in code, for a value below 2^64.
fn as_f64_exec(n: u128) -> (r: u128)
    requires
        n <= 0xffff_ffff_ffff_ffffu128,
    ensures
        r as nat == as_f64(n as nat),
        r <= 0x1_0000_0000_0000_0000u128,
{
    let mut len: u128 = 0;
    let mut m: u128 = n;
    proof {
        lemma_two_pow_64();
        lemma_bit_len_bound(n as nat, 64);
    }
    while m > 0
        invariant
            len + bit_len(m as nat) == bit_len(n as nat),
            bit_len(n as nat) <= 64,
        decreases m,
    {
        m = m / 2;
        len = len + 1;
    }
    let k: u128 = if len > 53 {
        len - 53
    } else {
        0
    };
    let mut p: u128 = 1;
    let mut i: u128 = 0;
    while i < k
        invariant
            i <= k <= 11,
            p as nat == two_pow(i as nat),
            p <= 2048,
        decreases k - i,
    {
        proof {
            lemma_two_pow_11();
            lemma_two_pow_mono(i as nat + 1, 11);
        }
        p = p * 2;
        i = i + 1;
    }
    proof {
        lemma_two_pow_pos(k as nat);
    }
    let q = div_round_even_exec(n, p);
    proof {
        lemma_as_f64_bound(n as nat, k as nat, p as nat, q as nat);
    }
    q * p
}

proof fn lemma_two_pow_mono(a: nat, b: nat)
    requires
        a <= b,
    ensures
        two_pow(a) <= two_pow(b),
    decreases b,
{
    if a < b {
        lemma_two_pow_mono(a, (b - 1) as nat);
    }
}

proof fn lemma_as_f64_bound(n: nat, k: nat, p: nat, q: nat)
    requires
        n <= 0xffff_ffff_ffff_ffff,
        p == two_pow(k),
        p >= 1,
        p <= 2048,
        k <= 11,
        q == div_round_even(n, p),
    ensures
        q * p <= 0x1_0000_0000_0000_0000,
{
    assert((n / p) * p <= n) by (nonlinear_arith)
        requires
            p >= 1,
    ;
    assert(q * p <= (n / p) * p + p) by (nonlinear_arith)
        requires
            q <= n / p + 1,
            p >= 1,
    ;
    assert(q * p <= 0x1_0000_0000_0000_0000) by {
        // q * p is a multiple of p at most n + p and n < 2^64 while p divides 2^64
        lemma_round_multiple(n, p, q, k);
    }
}

proof fn lemma_round_multiple(n: nat, p: nat, q: nat, k: nat)
    requires
        n <= 0xffff_ffff_ffff_ffff,
        p == two_pow(k),
        p >= 1,
        p <= 2048,
        k <= 11,
        q == div_round_even(n, p),
    ensures
        q * p <= 0x1_0000_0000_0000_0000,
{
    let t: nat = (0x1_0000_0000_0000_0000nat / p) as nat;
    lemma_two_pow_divides(k, 64);
    assert(t * p == 0x1_0000_0000_0000_0000nat);
    assert(n / p < t) by (nonlinear_arith)
        requires
            n < t * p,
            p >= 1,
    ;
    assert(q <= t);
    assert(q * p <= t * p) by (nonlinear_arith)
        requires
            q <= t,
            p >= 1,
    ;
}

proof fn lemma_two_pow_11()
    ensures
        two_pow(11) == 2048,
{
    reveal_with_fuel(two_pow, 12);
}

proof fn lemma_two_pow_64()
    ensures
        two_pow(64) == 0x1_0000_0000_0000_0000nat,
{
    reveal_with_fuel(two_pow, 65);
}

proof fn lemma_two_pow_mult(a: nat, b: nat)
    ensures
        two_pow(a) * two_pow(b) == two_pow(a + b),
    decreases a,
{
    if a > 0 {
        lemma_two_pow_mult((a - 1) as nat, b);
        assert(two_pow(a) * two_pow(b) == 2 * (two_pow((a - 1) as nat) * two_pow(b))) by (nonlinear_arith)
            requires
                two_pow(a) == 2 * two_pow((a - 1) as nat),
        ;
        assert(two_pow(a + b) == 2 * two_pow((a + b - 1) as nat));
        assert((a - 1) as nat + b == (a + b - 1) as nat);
        assert(two_pow((a - 1) as nat) * two_pow(b) == two_pow((a + b - 1) as nat));
    } else {
        assert(two_pow(0) == 1);
        assert(a == 0);
        assert(two_pow(a) == 1);
        assert(1 * two_pow(b) == two_pow(b)) by (nonlinear_arith);
    }
}

proof fn lemma_two_pow_divides(k: nat, j: nat)
    requires
        k <= 11,
        j == 64,
    ensures
        (0x1_0000_0000_0000_0000nat / two_pow(k)) * two_pow(k) == 0x1_0000_0000_0000_0000nat,
{
    lemma_two_pow_pos(k);
    lemma_two_pow_11();
    lemma_two_pow_64();
    lemma_two_pow_mult(k, (64 - k) as nat);
    assert(0x1_0000_0000_0000_0000nat / two_pow(k) == two_pow((64 - k) as nat)) by (nonlinear_arith)
        requires
            two_pow(k) * two_pow((64 - k) as nat) == 0x1_0000_0000_0000_0000nat,
            two_pow(k) >= 1,
    ;
}

/// Appends `fixed2(h)` to `s`.
fn push_fixed2(s: &mut String, h: u128)
    ensures
        final(s)@ == old(s)@ + fixed2(h as nat),
{
    push_decimal(s, h / 100);
    s.append(".");
    push_digit(s, ((h % 100) / 10) as u8);
    push_digit(s, (h % 10) as u8);
    assert(final(s)@ =~= old(s)@ + fixed2(h as nat));
}

/// `size_text` in code.
pub fn size_string(bytes: u64) -> (s: String)
    ensures
        s@ == size_text(bytes as nat),
{
    let mut s = String::new();
    if bytes > 1048576 {
        let v = as_f64_exec(bytes as u128);
        let h = div_round_even_exec(v * 100, 1048576);
        push_fixed2(&mut s, h);
        s.append(" MB");
    } else if bytes > 1024 {
        let h = div_round_even_exec(bytes as u128 * 100, 1024);
        push_fixed2(&mut s, h);
        s.append(" KB");
    } else {
        push_decimal(&mut s, bytes as u128);
        s.append(" B");
    }
    s
}


/// A byte count in mebibytes with two decimals (`{:.2} MB` of `bytes as f64 / 1048576.0`).
pub open spec fn mb_text(bytes: nat) -> Seq<char> {
    fixed2(div_round_even(as_f64(bytes) * 100, 1048576)) + " MB"@
}

/// `mb_text` in code.
pub fn mb_string(bytes: u64) -> (s: String)
    ensures
        s@ == mb_text(bytes as nat),
{
    let mut s = String::new();
    let v = as_f64_exec(bytes as u128);
    let h = div_round_even_exec(v * 100, 1048576);
    push_fixed2(&mut s, h);
    s.append(" MB");
    s
}

proof fn lemma_digit_char(k: nat)
    requires
        k < 10,
    ensures
        is_digit(digit_char(k)),
        digit_val(digit_char(k)) == k,
{
    assert((k + 48) as u8 == k + 48);
    assert(((k + 48) as u8) as char as u32 == k + 48) by {
        let b = (k + 48) as u8;
        assert(b as char as u32 == b as u32);
    }
}

/// The decimal text of `n` is made of digits, has at least one, and reads back as `n`.
pub proof fn lemma_dec_digits(n: nat)
    ensures
        dec(n).len() > 0,
        all_digits(dec(n)),
        dec_value(dec(n)) == n,
    decreases n,
{
    lemma_digit_char(n % 10);
    if n >= 10 {
        lemma_dec_digits(n / 10);
        let d = dec(n);
        assert(d.drop_last() =~= dec(n / 10));
        assert(d.last() == digit_char(n % 10));
        assert((n / 10) * 10 + n % 10 == n) by (nonlinear_arith);
        assert(dec_value(d) == dec_value(d.drop_last()) * 10 + digit_val(d.last()));
        assert forall|i: int| 0 <= i < d.len() implies is_digit(#[trigger] d[i]) by {
            if i < d.len() - 1 {
                assert(d[i] == dec(n / 10)[i]);
            }
        }
    } else {
        assert(dec(n)[0] == digit_char(n));
        assert(dec(n).drop_last() =~= Seq::<char>::empty());
        assert(dec_value(dec(n)) == dec_value(dec(n).drop_last()) * 10 + digit_val(dec(n).last()));
    }
}

/// Law: reading the decimal text of a number gives the number back, for any
/// number within the type's range.
pub proof fn law_parse_decimal(n: nat, max: nat)
    requires
        n <= max,
    ensures
        parse_uint(dec(n), max) == Some(n),
{
    lemma_dec_digits(n);
    assert(is_digit(dec(n)[0]));
    assert(unsigned_digits(dec(n)) == dec(n));
}

} // verus!
