use vstd::prelude::*;

verus! {

/// The character for digit `d` (`0`-`9`, then `a`-`f`).
pub open spec fn digit_char(d: nat) -> char {
    if d == 0 { '0' }
    else if d == 1 { '1' }
    else if d == 2 { '2' }
    else if d == 3 { '3' }
    else if d == 4 { '4' }
    else if d == 5 { '5' }
    else if d == 6 { '6' }
    else if d == 7 { '7' }
    else if d == 8 { '8' }
    else if d == 9 { '9' }
    else if d == 10 { 'a' }
    else if d == 11 { 'b' }
    else if d == 12 { 'c' }
    else if d == 13 { 'd' }
    else if d == 14 { 'e' }
    else { 'f' }
}

/// The digits of `n` in base `base`, most significant first, without
/// leading zeros (`0` is written as a single `0`).
pub open spec fn spec_digits(n: nat, base: nat) -> Seq<char>
    recommends
        2 <= base <= 16,
    decreases n,
{
    if base < 2 || n < base {
        seq![digit_char(n)]
    } else {
        proof {
            vstd::arithmetic::div_mod::lemma_div_decreases(n as int, base as int);
        }
        spec_digits(n / base, base).push(digit_char(n % base))
    }
}

/// `n` in decimal, as `format!("{}", n)` writes it.
pub open spec fn spec_decimal(n: nat) -> Seq<char> {
    spec_digits(n, 10)
}

/// `n` in lower-case hexadecimal, as `format!("{:x}", n)` writes it.
pub open spec fn spec_hex(n: nat) -> Seq<char> {
    spec_digits(n, 16)
}

/// `count` copies of `'0'`.
pub open spec fn zeros(count: nat) -> Seq<char> {
    Seq::new(count, |i: int| '0')
}

/// `n` in decimal, left-padded with zeros to at least `width` characters,
/// as `format!("{:0width$}", n)` writes it.
pub open spec fn spec_zero_padded(n: nat, width: nat) -> Seq<char> {
    let d = spec_decimal(n);
    if d.len() < width {
        zeros((width - d.len()) as nat) + d
    } else {
        d
    }
}

pub(crate) fn digit_str(d: u128) -> (s: &'static str)
    requires
        d < 16,
    ensures
        s@ == seq![digit_char(d as nat)],
{
    match d {
        0 => { proof { reveal_strlit("0"); } "0" },
        1 => { proof { reveal_strlit("1"); } "1" },
        2 => { proof { reveal_strlit("2"); } "2" },
        3 => { proof { reveal_strlit("3"); } "3" },
        4 => { proof { reveal_strlit("4"); } "4" },
        5 => { proof { reveal_strlit("5"); } "5" },
        6 => { proof { reveal_strlit("6"); } "6" },
        7 => { proof { reveal_strlit("7"); } "7" },
        8 => { proof { reveal_strlit("8"); } "8" },
        9 => { proof { reveal_strlit("9"); } "9" },
        10 => { proof { reveal_strlit("a"); } "a" },
        11 => { proof { reveal_strlit("b"); } "b" },
        12 => { proof { reveal_strlit("c"); } "c" },
        13 => { proof { reveal_strlit("d"); } "d" },
        14 => { proof { reveal_strlit("e"); } "e" },
        _ => { proof { reveal_strlit("f"); } "f" },
    }
}

fn digits(n: u128, base: u128) -> (s: String)
    requires
        2 <= base <= 16,
    ensures
        s@ == spec_digits(n as nat, base as nat),
    decreases n,
{
    if n < base {
        String::from_str(digit_str(n))
    } else {
        proof {
            vstd::arithmetic::div_mod::lemma_div_decreases(n as int, base as int);
        }
        let mut s = digits(n / base, base);
        s.append(digit_str(n % base));
        s
    }
}

/// Writes `n` in decimal.
pub fn format_decimal(n: u128) -> (s: String)
    ensures
        s@ == spec_decimal(n as nat),
{
    digits(n, 10)
}

/// Writes `n` in lower-case hexadecimal.
pub fn format_hex(n: u128) -> (s: String)
    ensures
        s@ == spec_hex(n as nat),
{
    digits(n, 16)
}

/// Writes `n` in decimal, left-padded with zeros to at least `width` characters.
pub fn format_zero_padded(n: u128, width: usize) -> (s: String)
    ensures
        s@ == spec_zero_padded(n as nat, width as nat),
{
    let d = format_decimal(n);
    let len = d.as_str().unicode_len();
    if len >= width {
        return d;
    }
    let mut out = String::new();
    let fill = width - len;
    for i in 0..fill
        invariant
            out@ == zeros(i as nat),
    {
        proof { reveal_strlit("0"); }
        out.append("0");
        assert(out@ =~= zeros((i + 1) as nat));
    }
    out.append(d.as_str());
    out
}

} // verus!

verus! {

/// The value of a digit character (`0`-`9`, `a`-`f`); other characters count as 0.
pub open spec fn digit_value(c: char) -> nat {
    if c == '0' { 0 }
    else if c == '1' { 1 }
    else if c == '2' { 2 }
    else if c == '3' { 3 }
    else if c == '4' { 4 }
    else if c == '5' { 5 }
    else if c == '6' { 6 }
    else if c == '7' { 7 }
    else if c == '8' { 8 }
    else if c == '9' { 9 }
    else if c == 'a' { 10 }
    else if c == 'b' { 11 }
    else if c == 'c' { 12 }
    else if c == 'd' { 13 }
    else if c == 'e' { 14 }
    else if c == 'f' { 15 }
    else { 0 }
}

/// The number that a string of digits in base `base` denotes.
pub open spec fn digits_value(s: Seq<char>, base: nat) -> nat
    decreases s.len(),
{
    if s.len() == 0 {
        0
    } else {
        digits_value(s.drop_last(), base) * base + digit_value(s.last())
    }
}

proof fn lemma_digit_roundtrip(d: nat)
    requires
        d < 16,
    ensures
        digit_value(digit_char(d)) == d,
{
}

/// Reading back the digits written for `n` gives `n`.
pub proof fn lemma_digits_value(n: nat, base: nat)
    requires
        2 <= base <= 16,
    ensures
        digits_value(spec_digits(n, base), base) == n,
    decreases n,
{
    if n < base {
        lemma_digit_roundtrip(n);
        let s = seq![digit_char(n)];
        assert(s.drop_last() =~= Seq::<char>::empty());
        assert(digits_value(s.drop_last(), base) == 0);
        assert(s.last() == digit_char(n));
        assert(spec_digits(n, base) == s);
        assert(digits_value(s, base) == 0 * base + n);
        assert(0 * base == 0);
    } else {
        vstd::arithmetic::div_mod::lemma_div_decreases(n as int, base as int);
        vstd::arithmetic::div_mod::lemma_fundamental_div_mod(n as int, base as int);
        vstd::arithmetic::div_mod::lemma_mod_bound(n as int, base as int);
        lemma_digits_value(n / base, base);
        lemma_digit_roundtrip(n % base);
        let s = spec_digits(n / base, base).push(digit_char(n % base));
        assert(s.drop_last() =~= spec_digits(n / base, base));
        assert(s.last() == digit_char(n % base));
        assert(spec_digits(n, base) == s);
        assert(digits_value(s, base) == (n / base) * base + n % base);
        assert((n / base) * base == base * (n / base)) by (nonlinear_arith);
    }
}

proof fn lemma_zeros_value(count: nat, base: nat)
    ensures
        digits_value(zeros(count), base) == 0,
    decreases count,
{
    if count > 0 {
        assert(zeros(count).drop_last() =~= zeros((count - 1) as nat));
        assert(zeros(count).last() == '0');
        lemma_zeros_value((count - 1) as nat, base);
        assert(digits_value(zeros(count), base) == 0 * base + 0);
    }
}

proof fn lemma_leading_zeros_value(count: nat, s: Seq<char>, base: nat)
    ensures
        digits_value(zeros(count) + s, base) == digits_value(s, base),
    decreases s.len(),
{
    if s.len() == 0 {
        assert(zeros(count) + s =~= zeros(count));
        lemma_zeros_value(count, base);
    } else {
        assert((zeros(count) + s).drop_last() =~= zeros(count) + s.drop_last());
        lemma_leading_zeros_value(count, s.drop_last(), base);
    }
}

/// Zero padding does not change the number that is written.
pub proof fn lemma_zero_padded_value(n: nat, width: nat)
    ensures
        digits_value(spec_zero_padded(n, width), 10) == n,
{
    lemma_digits_value(n, 10);
    let d = spec_decimal(n);
    if d.len() < width {
        lemma_leading_zeros_value((width - d.len()) as nat, d, 10);
    }
}

/// Different numbers are written differently, padded or not, in decimal or hex.
pub proof fn lemma_formatting_injective(m: nat, n: nat, width: nat)
    requires
        m != n,
    ensures
        spec_decimal(m) != spec_decimal(n),
        spec_hex(m) != spec_hex(n),
        spec_zero_padded(m, width) != spec_zero_padded(n, width),
{
    lemma_digits_value(m, 10);
    lemma_digits_value(n, 10);
    lemma_digits_value(m, 16);
    lemma_digits_value(n, 16);
    lemma_zero_padded_value(m, width);
    lemma_zero_padded_value(n, width);
}

} // verus!

verus! {

/// `10` to the power `k`.
pub open spec fn pow10(k: nat) -> nat
    decreases k,
{
    if k == 0 { 1 } else { 10 * pow10((k - 1) as nat) }
}

/// A number below `10^k` (`k >= 1`) takes at most `k` decimal digits.
pub proof fn lemma_decimal_len(n: nat, k: nat)
    requires
        k >= 1,
        n < pow10(k),
    ensures
        spec_decimal(n).len() <= k,
    decreases k,
{
    if n >= 10 {
        vstd::arithmetic::div_mod::lemma_fundamental_div_mod(n as int, 10);
        vstd::arithmetic::div_mod::lemma_mod_bound(n as int, 10);
        assert(k >= 2) by {
            if k == 1 {
                assert(pow10(1) == 10 * pow10(0));
            }
        }
        assert(n / 10 < pow10((k - 1) as nat));
        lemma_decimal_len(n / 10, (k - 1) as nat);
        vstd::arithmetic::div_mod::lemma_div_decreases(n as int, 10);
    }
}

/// Zero padding to `k` places writes a number below `10^k` in exactly `k`
/// characters that read back as the number.
pub proof fn lemma_zero_padded_exact(n: nat, k: nat)
    requires
        k >= 1,
        n < pow10(k),
    ensures
        spec_zero_padded(n, k).len() == k,
        digits_value(spec_zero_padded(n, k), 10) == n,
{
    lemma_decimal_len(n, k);
    lemma_zero_padded_value(n, k);
}

} // verus!
