//! Decimal rendering and parsing of integers and fixed-point credit
//! amounts (see the scale constants in the crate root).
use vstd::prelude::*;
use vstd::string::*;
use crate::strutil::{find_char_from, last_not_char};

verus! {

/// Character for a single decimal digit.
pub open spec fn spec_digit(d: int) -> char {
    if d == 0 {
        '0'
    } else if d == 1 {
        '1'
    } else if d == 2 {
        '2'
    } else if d == 3 {
        '3'
    } else if d == 4 {
        '4'
    } else if d == 5 {
        '5'
    } else if d == 6 {
        '6'
    } else if d == 7 {
        '7'
    } else if d == 8 {
        '8'
    } else {
        '9'
    }
}

/// Decimal rendering of a non-negative integer, without leading zeros.
pub open spec fn spec_dec(n: int) -> Seq<char>
    decreases n,
{
    if n < 10 {
        seq![spec_digit(n)]
    } else {
        spec_dec(n / 10).push(spec_digit(n % 10))
    }
}

/// Decimal rendering of a non-negative integer, zero-padded to `k` digits;
/// digits above the `k`-th are dropped.
pub open spec fn spec_pad(n: int, k: int) -> Seq<char>
    decreases k,
{
    if k <= 0 {
        Seq::empty()
    } else {
        spec_pad(n / 10, k - 1).push(spec_digit(n % 10))
    }
}

/// Value of a digit character; -1 for any other character.
pub open spec fn spec_char_digit(c: char) -> int {
    if c == '0' {
        0
    } else if c == '1' {
        1
    } else if c == '2' {
        2
    } else if c == '3' {
        3
    } else if c == '4' {
        4
    } else if c == '5' {
        5
    } else if c == '6' {
        6
    } else if c == '7' {
        7
    } else if c == '8' {
        8
    } else if c == '9' {
        9
    } else {
        -1
    }
}

pub open spec fn all_digits(s: Seq<char>) -> bool {
    forall|j: int| 0 <= j < s.len() ==> spec_char_digit(s[j]) >= 0
}

/// Value of a digit string read in base ten.
pub open spec fn digits_val(s: Seq<char>) -> int
    decreases s.len(),
{
    if s.len() == 0 {
        0
    } else {
        digits_val(s.drop_last()) * 10 + spec_char_digit(s.last())
    }
}

pub open spec fn pow10(k: int) -> int
    decreases k,
{
    if k <= 0 {
        1
    } else {
        10 * pow10(k - 1)
    }
}

fn digit_str(d: u64) -> (r: &'static str)
    requires
        d < 10,
    ensures
        r@ == seq![spec_digit(d as int)],
{
    proof {
        reveal_strlit("0");
        reveal_strlit("1");
        reveal_strlit("2");
        reveal_strlit("3");
        reveal_strlit("4");
        reveal_strlit("5");
        reveal_strlit("6");
        reveal_strlit("7");
        reveal_strlit("8");
        reveal_strlit("9");
    }
    if d == 0 {
        "0"
    } else if d == 1 {
        "1"
    } else if d == 2 {
        "2"
    } else if d == 3 {
        "3"
    } else if d == 4 {
        "4"
    } else if d == 5 {
        "5"
    } else if d == 6 {
        "6"
    } else if d == 7 {
        "7"
    } else if d == 8 {
        "8"
    } else {
        "9"
    }
}

/// Renders a non-negative integer in decimal.
pub fn format_u64(n: u64) -> (r: String)
    ensures
        r@ == spec_dec(n as int),
    decreases n,
{
    if n < 10 {
        digit_str(n).to_owned()
    } else {
        let mut s = format_u64(n / 10);
        s.append(digit_str(n % 10));
        proof {
            assert(s@ =~= spec_dec(n as int));
        }
        s
    }
}

/// Renders a non-negative integer in decimal, zero-padded to `k` digits.
pub fn format_pad(n: u64, k: usize) -> (r: String)
    ensures
        r@ == spec_pad(n as int, k as int),
    decreases k,
{
    if k == 0 {
        String::new()
    } else {
        let mut s = format_pad(n / 10, k - 1);
        s.append(digit_str(n % 10));
        proof {
            assert(s@ =~= spec_pad(n as int, k as int));
        }
        s
    }
}

pub proof fn lemma_pow10_pos(k: int)
    ensures
        pow10(k) >= 1,
    decreases k,
{
    if k > 0 {
        lemma_pow10_pos(k - 1);
    }
}

pub proof fn lemma_digits_val_nonneg(s: Seq<char>)
    requires
        all_digits(s),
    ensures
        digits_val(s) >= 0,
    decreases s.len(),
{
    if s.len() > 0 {
        assert(all_digits(s.drop_last()));
        lemma_digits_val_nonneg(s.drop_last());
    }
}

pub proof fn lemma_digits_val_upper(s: Seq<char>)
    requires
        all_digits(s),
    ensures
        digits_val(s) < pow10(s.len() as int),
    decreases s.len(),
{
    if s.len() == 0 {
    } else {
        assert(all_digits(s.drop_last()));
        lemma_digits_val_upper(s.drop_last());
        lemma_digits_val_nonneg(s.drop_last());
        assert(digits_val(s.drop_last()) * 10 + spec_char_digit(s.last()) < pow10(
            s.len() as int,
        )) by (nonlinear_arith)
            requires
                0 <= digits_val(s.drop_last()),
                digits_val(s.drop_last()) < pow10(s.len() - 1),
                spec_char_digit(s.last()) <= 9,
                pow10(s.len() as int) == 10 * pow10(s.len() - 1),
        ;
    }
}

/// A digit string's value splits at any position `i` into the value of the
/// prefix, shifted past the suffix, plus the value of the suffix.
pub proof fn lemma_digits_split(s: Seq<char>, i: int)
    requires
        0 <= i <= s.len(),
    ensures
        digits_val(s) == digits_val(s.subrange(0, i)) * pow10(s.len() - i) + digits_val(
            s.subrange(i, s.len() as int),
        ),
    decreases s.len(),
{
    if i == s.len() {
        assert(s.subrange(0, i) =~= s);
        assert(s.subrange(i, s.len() as int) =~= Seq::<char>::empty());
    } else {
        let t = s.drop_last();
        lemma_digits_split(t, i);
        assert(t.subrange(0, i) =~= s.subrange(0, i));
        assert(t.subrange(i, t.len() as int) =~= s.subrange(i, s.len() as int).drop_last());
        let a = digits_val(s.subrange(0, i));
        let b = digits_val(t.subrange(i, t.len() as int));
        let d = spec_char_digit(s.last());
        let p = pow10(t.len() - i);
        assert(s.subrange(i, s.len() as int).last() == s.last());
        assert(digits_val(s) == (a * p + b) * 10 + d);
        assert((a * p + b) * 10 + d == a * (10 * p) + (b * 10 + d)) by (nonlinear_arith);
        assert(pow10(s.len() - i) == 10 * p);
    }
}

/// Fractional digits after the decimal point, read as units of 10^-9:
/// only the first nine digits count.
pub open spec fn frac_val(f: Seq<char>) -> int {
    if f.len() >= 9 {
        digits_val(f.subrange(0, 9))
    } else {
        digits_val(f) * pow10(9 - f.len())
    }
}

/// First index at or after `from` holding `c`, or `s.len()` if none does.
pub open spec fn first_char(s: Seq<char>, c: char, from: int) -> int
    decreases s.len() - from when 0 <= from <= s.len()
{
    if from >= s.len() {
        s.len() as int
    } else if s[from] == c {
        from
    } else {
        first_char(s, c, from + 1)
    }
}

proof fn lemma_first_char_at(s: Seq<char>, c: char, from: int, i: int)
    requires
        0 <= from <= i <= s.len(),
        forall|j: int| from <= j < i ==> s[j] != c,
        i < s.len() ==> s[i] == c,
    ensures
        first_char(s, c, from) == i,
    decreases i - from,
{
    if from < i {
        lemma_first_char_at(s, c, from + 1, i);
    }
}

/// A credit amount written in decimal: an optional sign, an integer part,
/// and an optional fractional part, at least one digit in all. Fractional
/// digits beyond the ninth are dropped. `None` when the text has another
/// shape or the amount does not fit the fixed-point range.
pub open spec fn spec_parse_credit(s: Seq<char>) -> Option<int> {
    let neg = s.len() > 0 && s[0] == '-';
    let body = if neg {
        s.subrange(1, s.len() as int)
    } else {
        s
    };
    let d = first_char(body, '.', 0);
    let intpart = body.subrange(0, d);
    let frac = if d == body.len() {
        Seq::<char>::empty()
    } else {
        body.subrange(d + 1, body.len() as int)
    };
    if all_digits(intpart) && all_digits(frac) && intpart.len() + frac.len() >= 1 && digits_val(
        intpart,
    ) * 1_000_000_000 + frac_val(frac) <= i64::MAX {
        if neg {
            Some(-(digits_val(intpart) * 1_000_000_000 + frac_val(frac)))
        } else {
            Some(digits_val(intpart) * 1_000_000_000 + frac_val(frac))
        }
    } else {
        None
    }
}

fn char_digit(c: char) -> (r: Option<u64>)
    ensures
        match r {
            Some(d) => spec_char_digit(c) == d && d < 10,
            None => spec_char_digit(c) < 0,
        },
{
    if c == '0' {
        Some(0)
    } else if c == '1' {
        Some(1)
    } else if c == '2' {
        Some(2)
    } else if c == '3' {
        Some(3)
    } else if c == '4' {
        Some(4)
    } else if c == '5' {
        Some(5)
    } else if c == '6' {
        Some(6)
    } else if c == '7' {
        Some(7)
    } else if c == '8' {
        Some(8)
    } else if c == '9' {
        Some(9)
    } else {
        None
    }
}

/// Reads a digit string in base ten.
#[verifier::loop_isolation(false)]
pub fn parse_digits(s: &str) -> (r: Option<u64>)
    ensures
        match r {
            Some(v) => all_digits(s@) && digits_val(s@) == v,
            None => !all_digits(s@) || digits_val(s@) > u64::MAX,
        },
{
    let ls = s.unicode_len();
    let mut acc: u64 = 0;
    let mut i: usize = 0;
    while i < ls
        invariant
            0 <= i <= ls,
            all_digits(s@.subrange(0, i as int)),
            acc == digits_val(s@.subrange(0, i as int)),
        decreases ls - i,
    {
        let c = s.get_char(i);
        proof {
            assert(s@.subrange(0, i + 1).drop_last() =~= s@.subrange(0, i as int));
            assert(s@.subrange(0, i + 1).last() == s@[i as int]);
        }
        match char_digit(c) {
            None => {
                proof {
                    assert(spec_char_digit(s@[i as int]) < 0);
                }
                return None;
            },
            Some(d) => {
                let next = overflow_guard(acc, d);
                match next {
                    None => {
                        proof {
                            overflow_means_too_big(s@, i as int, acc as int, d as int);
                        }
                        return None;
                    },
                    Some(a2) => {
                        acc = a2;
                    },
                }
            },
        }
        i += 1;
    }
    proof {
        assert(s@.subrange(0, ls as int) =~= s@);
    }
    Some(acc)
}

/// Computes `acc * 10 + d` unless it leaves `u64`.
fn overflow_guard(acc: u64, d: u64) -> (r: Option<u64>)
    requires
        d < 10,
    ensures
        match r {
            Some(v) => v == acc * 10 + d,
            None => acc * 10 + d > u64::MAX,
        },
{
    match acc.checked_mul(10) {
        None => None,
        Some(m) => m.checked_add(d),
    }
}

proof fn overflow_means_too_big(s: Seq<char>, i: int, acc: int, d: int)
    requires
        0 <= i < s.len(),
        all_digits(s.subrange(0, i)),
        spec_char_digit(s[i]) == d,
        d >= 0,
        acc == digits_val(s.subrange(0, i)),
        acc * 10 + d > u64::MAX,
    ensures
        !all_digits(s) || digits_val(s) > u64::MAX,
{
    if all_digits(s) {
        assert(s.subrange(0, i + 1).drop_last() =~= s.subrange(0, i));
        assert(s.subrange(0, i + 1).last() == s[i]);
        let pre = digits_val(s.subrange(0, i + 1));
        assert(pre == acc * 10 + d);
        lemma_digits_split(s, i + 1);
        let rest = s.subrange(i + 1, s.len() as int);
        assert(all_digits(rest));
        lemma_digits_val_nonneg(rest);
        lemma_pow10_pos(s.len() - (i + 1));
        assert(pre * pow10(s.len() - (i + 1)) >= pre) by (nonlinear_arith)
            requires
                pre >= 0,
                pow10(s.len() - (i + 1)) >= 1,
        ;
    }
}

/// Reads a non-negative integer in decimal.
pub open spec fn spec_parse_u64(s: Seq<char>) -> Option<int> {
    if s.len() >= 1 && all_digits(s) && digits_val(s) <= u64::MAX {
        Some(digits_val(s))
    } else {
        None
    }
}

pub fn parse_u64(s: &str) -> (r: Option<u64>)
    ensures
        match r {
            Some(v) => spec_parse_u64(s@) == Some(v as int),
            None => spec_parse_u64(s@) is None,
        },
{
    let ls = s.unicode_len();
    if ls == 0 {
        return None;
    }
    parse_digits(s)
}

/// Rendering of a non-negative credit amount (in units of 10^-9): the
/// whole part, then, unless zero, the fractional digits with trailing
/// zeros dropped. This matches how the platform shows a balance.
pub open spec fn spec_credit_mag(u: int) -> Seq<char> {
    let whole = u / 1_000_000_000;
    let frac = u % 1_000_000_000;
    if frac == 0 {
        spec_dec(whole)
    } else {
        let padded = spec_pad(frac, 9);
        spec_dec(whole) + seq!['.'] + padded.subrange(0, last_not_char(padded, '0') + 1)
    }
}

/// Rendering of a signed credit amount at full precision.
pub open spec fn spec_credit_display(v: int) -> Seq<char> {
    if v < 0 {
        seq!['-'] + spec_credit_mag(-v)
    } else {
        spec_credit_mag(v)
    }
}

/// Rendering of a signed credit amount with exactly three digits after the
/// decimal point, truncated toward zero.
pub open spec fn spec_credit_display_3(v: int) -> Seq<char> {
    let u = if v < 0 {
        -v
    } else {
        v
    };
    let sign: Seq<char> = if v < 0 {
        seq!['-']
    } else {
        Seq::empty()
    };
    sign + spec_dec(u / 1_000_000_000) + seq!['.'] + spec_pad(u % 1_000_000_000 / 1_000_000, 3)
}

/// Drops every trailing `'0'`.
#[verifier::loop_isolation(false)]
fn strip_zeros(s: &str) -> (r: &str)
    ensures
        r@ == s@.subrange(0, last_not_char(s@, '0') + 1),
{
    let ls = s.unicode_len();
    let mut b: usize = ls;
    proof {
        assert(s@.subrange(0, ls as int) =~= s@);
    }
    while b > 0 && s.get_char(b - 1) == '0'
        invariant
            0 <= b <= ls,
            last_not_char(s@.subrange(0, b as int), '0') == last_not_char(s@, '0'),
        decreases b,
    {
        proof {
            assert(s@.subrange(0, b as int).drop_last() =~= s@.subrange(0, b - 1));
        }
        b -= 1;
    }
    proof {
        if b > 0 {
            assert(s@.subrange(0, b as int).last() == s@[b - 1]);
            assert(last_not_char(s@.subrange(0, b as int), '0') == b - 1);
        }
    }
    s.substring_char(0, b)
}

/// Renders a non-negative credit amount at full precision.
fn format_credit_mag(u: u64) -> (r: String)
    ensures
        r@ == spec_credit_mag(u as int),
{
    let whole = u / 1_000_000_000;
    let frac = u % 1_000_000_000;
    let mut s = format_u64(whole);
    if frac != 0 {
        proof {
            reveal_strlit(".");
        }
        s.append(".");
        let padded = format_pad(frac, 9);
        s.append(strip_zeros(padded.as_str()));
        proof {
            assert(s@ =~= spec_credit_mag(u as int));
        }
    }
    s
}

/// Renders a signed credit amount at full precision, as the platform
/// shows a balance.
pub fn format_credit(v: i64) -> (r: String)
    requires
        v != i64::MIN,
    ensures
        r@ == spec_credit_display(v as int),
{
    if v < 0 {
        proof {
            reveal_strlit("-");
        }
        let mut s = String::from_str("-");
        let mag = format_credit_mag((-v) as u64);
        s.append(mag.as_str());
        proof {
            assert(s@ =~= spec_credit_display(v as int));
        }
        s
    } else {
        format_credit_mag(v as u64)
    }
}

/// Renders a signed credit amount with exactly three digits after the
/// decimal point, truncated toward zero.
pub fn format_credit_3(v: i64) -> (r: String)
    requires
        v != i64::MIN,
    ensures
        r@ == spec_credit_display_3(v as int),
{
    proof {
        reveal_strlit("-");
        reveal_strlit(".");
    }
    let u: u64 = if v < 0 {
        (-v) as u64
    } else {
        v as u64
    };
    let mut s = if v < 0 {
        String::from_str("-")
    } else {
        String::new()
    };
    let whole = format_u64(u / 1_000_000_000);
    s.append(whole.as_str());
    s.append(".");
    let frac = format_pad(u % 1_000_000_000 / 1_000_000, 3);
    s.append(frac.as_str());
    proof {
        assert(s@ =~= spec_credit_display_3(v as int));
    }
    s
}

/// Reads a credit amount written in decimal (see `spec_parse_credit`).
pub fn parse_credit(s: &str) -> (r: Option<i64>)
    ensures
        match r {
            Some(v) => spec_parse_credit(s@) == Some(v as int),
            None => spec_parse_credit(s@) is None,
        },
{
    let ls = s.unicode_len();
    let neg = ls > 0 && s.get_char(0) == '-';
    let body = if neg {
        s.substring_char(1, ls)
    } else {
        s
    };
    let lb = body.unicode_len();
    let dot = match find_char_from(body, 0, '.') {
        Some(i) => {
            proof {
                lemma_first_char_at(body@, '.', 0, i as int);
            }
            i
        },
        None => {
            proof {
                lemma_first_char_at(body@, '.', 0, body@.len() as int);
            }
            lb
        },
    };
    let intpart = body.substring_char(0, dot);
    let frac = if dot == lb {
        body.substring_char(lb, lb)
    } else {
        body.substring_char(dot + 1, lb)
    };
    proof {
        if dot == lb {
            assert(frac@ =~= Seq::<char>::empty());
        }
    }
    let li = intpart.unicode_len();
    let lf = frac.unicode_len();
    if li == 0 && lf == 0 {
        return None;
    }
    if !all_digits_exec(frac) {
        return None;
    }
    let iv = match parse_digits(intpart) {
        None => {
            proof {
                if all_digits(intpart@) {
                    int_too_big(intpart@, frac@);
                }
            }
            return None;
        },
        Some(v) => v,
    };
    if iv > 9_223_372_036 {
        proof {
            int_too_big_small(iv as int, frac@);
        }
        return None;
    }
    let ftrunc = if lf >= 9 {
        frac.substring_char(0, 9)
    } else {
        frac
    };
    let fv_raw = match parse_digits(ftrunc) {
        None => {
            proof {
                lemma_digits_val_upper(ftrunc@);
                pow10_values();
                lemma_pow10_le(ftrunc@.len() as int, 9);
            }
            return None;  // unreachable: at most nine digits always fit
        },
        Some(v) => v,
    };
    let fv: u64 = if lf >= 9 {
        fv_raw
    } else {
        proof {
            lemma_digits_val_upper(ftrunc@);
            lemma_digits_val_nonneg(ftrunc@);
            pow10_values();
            pow10_mul(lf as int, 9 - lf as int);
            assert(digits_val(ftrunc@) * pow10(9 - lf as int) < 1_000_000_000) by (nonlinear_arith)
                requires
                    0 <= digits_val(ftrunc@),
                    digits_val(ftrunc@) < pow10(lf as int),
                    pow10(lf as int) * pow10(9 - lf as int) == 1_000_000_000,
                    pow10(9 - lf as int) >= 1,
            ;
        }
        fv_raw * pow10_exec(9 - lf)
    };
    proof {
        lemma_digits_val_nonneg(intpart@);
        lemma_digits_val_nonneg(ftrunc@);
        lemma_pow10_pos(9 - lf as int);
        assert(fv == frac_val(frac@));
        assert(0 <= fv < 1_000_000_000) by {
            if lf >= 9 {
                lemma_digits_val_upper(ftrunc@);
                pow10_values();
            } else {
                assert(fv >= 0) by (nonlinear_arith)
                    requires
                        digits_val(ftrunc@) >= 0,
                        pow10(9 - lf as int) >= 1,
                        fv == digits_val(ftrunc@) * pow10(9 - lf as int),
                ;
            }
        }
    }
    let total: u64 = iv * 1_000_000_000 + fv;
    if total > 9_223_372_036_854_775_807 {
        return None;
    }
    if neg {
        Some(-(total as i64))
    } else {
        Some(total as i64)
    }
}

/// `pow10` for small exponents.
fn pow10_exec(k: usize) -> (r: u64)
    requires
        k <= 9,
    ensures
        r == pow10(k as int),
    decreases k,
{
    if k == 0 {
        1
    } else {
        let p = pow10_exec(k - 1);
        proof {
            pow10_values();
            lemma_pow10_le(k - 1, 8);
        }
        10 * p
    }
}

proof fn pow10_values()
    ensures
        pow10(0) == 1,
        pow10(1) == 10,
        pow10(2) == 100,
        pow10(3) == 1000,
        pow10(4) == 10000,
        pow10(5) == 100000,
        pow10(6) == 1000000,
        pow10(7) == 10000000,
        pow10(8) == 100000000,
        pow10(9) == 1_000_000_000,
{
    assert(pow10(0) == 1);
    assert(pow10(1) == 10);
    assert(pow10(2) == 100);
    assert(pow10(3) == 1000);
    assert(pow10(4) == 10000);
    assert(pow10(5) == 100000);
    assert(pow10(6) == 1000000);
    assert(pow10(7) == 10000000);
    assert(pow10(8) == 100000000);
    assert(pow10(9) == 1_000_000_000);
}

proof fn lemma_pow10_le(a: int, b: int)
    requires
        0 <= a <= b,
    ensures
        pow10(a) <= pow10(b),
    decreases b,
{
    if a < b {
        lemma_pow10_le(a, b - 1);
        lemma_pow10_pos(b - 1);
        assert(pow10(a) <= 10 * pow10(b - 1)) by (nonlinear_arith)
            requires
                pow10(a) <= pow10(b - 1),
                pow10(b - 1) >= 1,
        ;
    }
}

proof fn pow10_mul(m: int, k: int)
    requires
        0 <= m,
        0 <= k,
    ensures
        pow10(m) * pow10(k) == pow10(m + k),
    decreases k,
{
    if k == 0 {
        assert(pow10(m) * 1 == pow10(m)) by (nonlinear_arith);
    } else {
        pow10_mul(m, k - 1);
        assert(pow10(m) * (10 * pow10(k - 1)) == 10 * (pow10(m) * pow10(k - 1)))
            by (nonlinear_arith);
    }
}

proof fn int_too_big(intpart: Seq<char>, frac: Seq<char>)
    requires
        all_digits(intpart),
        all_digits(frac),
        digits_val(intpart) > u64::MAX,
    ensures
        digits_val(intpart) * 1_000_000_000 + frac_val(frac) > i64::MAX,
{
    int_too_big_small(digits_val(intpart), frac);
}

proof fn int_too_big_small(iv: int, frac: Seq<char>)
    requires
        all_digits(frac),
        iv > 9_223_372_036,
    ensures
        iv * 1_000_000_000 + frac_val(frac) > i64::MAX,
{
    lemma_frac_val_nonneg(frac);
    assert(iv * 1_000_000_000 >= 9_223_372_037_000_000_000) by (nonlinear_arith)
        requires
            iv >= 9_223_372_037,
    ;
}

proof fn lemma_frac_val_nonneg(frac: Seq<char>)
    requires
        all_digits(frac),
    ensures
        frac_val(frac) >= 0,
{
    if frac.len() >= 9 {
        assert(all_digits(frac.subrange(0, 9)));
        lemma_digits_val_nonneg(frac.subrange(0, 9));
    } else {
        lemma_digits_val_nonneg(frac);
        lemma_pow10_pos(9 - frac.len());
        assert(digits_val(frac) * pow10(9 - frac.len()) >= 0) by (nonlinear_arith)
            requires
                digits_val(frac) >= 0,
                pow10(9 - frac.len()) >= 1,
        ;
    }
}

/// Tests whether every character is a decimal digit.
#[verifier::loop_isolation(false)]
pub fn all_digits_exec(s: &str) -> (r: bool)
    ensures
        r == all_digits(s@),
{
    let ls = s.unicode_len();
    let mut i: usize = 0;
    while i < ls
        invariant
            0 <= i <= ls,
            forall|j: int| 0 <= j < i ==> spec_char_digit(s@[j]) >= 0,
        decreases ls - i,
    {
        match char_digit(s.get_char(i)) {
            None => {
                return false;
            },
            Some(_) => {
            },
        }
        i += 1;
    }
    true
}

/// Reads `true` or `false`.
pub fn parse_bool(s: &str) -> (r: Option<bool>)
    ensures
        match r {
            Some(b) => (b && s@ == "true"@) || (!b && s@ == "false"@),
            None => s@ != "true"@ && s@ != "false"@,
        },
{
    if crate::strutil::str_eq(s, "true") {
        Some(true)
    } else if crate::strutil::str_eq(s, "false") {
        Some(false)
    } else {
        None
    }
}

} // verus!
