//! Decimal rendering of integers and of exact fractions.
//!
//! Reports show counts and sizes as text. Fractions are rendered from the
//! exact rational value, rounded half to even at the last shown place.

use vstd::prelude::*;

verus! {

/// The character of a decimal digit.
pub open spec fn digit_char(d: nat) -> char {
    if d == 0 { '0' }
    else if d == 1 { '1' }
    else if d == 2 { '2' }
    else if d == 3 { '3' }
    else if d == 4 { '4' }
    else if d == 5 { '5' }
    else if d == 6 { '6' }
    else if d == 7 { '7' }
    else if d == 8 { '8' }
    else { '9' }
}

/// Decimal text of a natural number, without leading zeros.
pub open spec fn dec(n: nat) -> Seq<char>
    decreases n,
{
    if n < 10 {
        seq![digit_char(n)]
    } else {
        dec(n / 10).push(digit_char(n % 10))
    }
}

/// Decimal text of an integer, with a leading `-` when negative.
pub open spec fn dec_int(n: int) -> Seq<char> {
    if n < 0 {
        seq!['-'] + dec((-n) as nat)
    } else {
        dec(n as nat)
    }
}

/// Ten to the power `p`.
pub open spec fn pow10(p: nat) -> nat
    decreases p,
{
    if p == 0 { 1 } else { 10 * pow10((p - 1) as nat) }
}

/// `num / den` rounded to the nearest integer, ties to the even one.
pub open spec fn round_half_even(num: nat, den: nat) -> nat
    recommends
        den > 0,
{
    let q = num / den;
    let r = num % den;
    if 2 * r > den {
        q + 1
    } else if 2 * r < den {
        q
    } else if q % 2 == 0 {
        q
    } else {
        q + 1
    }
}

/// `s` padded on the left with `0` up to length `width`.
pub open spec fn zero_pad(s: Seq<char>, width: nat) -> Seq<char> {
    if s.len() >= width {
        s
    } else {
        Seq::new((width - s.len()) as nat, |i: int| '0') + s
    }
}

/// Text of `value / 10^places` with exactly `places` digits after the point
/// (no point when `places` is 0).
pub open spec fn scaled_text(value: nat, places: nat) -> Seq<char> {
    if places == 0 {
        dec(value)
    } else {
        dec(value / pow10(places)) + seq!['.'] + zero_pad(dec(value % pow10(places)), places)
    }
}

/// Text of the fraction `num / den` shown with `places` digits after the
/// point, rounded half to even.
pub open spec fn fraction_text(num: nat, den: nat, places: nat) -> Seq<char> {
    scaled_text(round_half_even(num * pow10(places), den), places)
}

fn digit_str(d: u64) -> (s: &'static str)
    requires
        d < 10,
    ensures
        s@ == seq![digit_char(d as nat)],
{
    proof {
        reveal_strlit("0");
        reveal_strlit("1");
        reveal_strlit("2");
        reveal_strlit("3");
        reveal_strlit("4");
        reveal_strlit("5");
        reveal_strlit("6");
        reveal_strlit("7");
        reveal_strlit("8");
        reveal_strlit("9");
    }
    if d == 0 { "0" }
    else if d == 1 { "1" }
    else if d == 2 { "2" }
    else if d == 3 { "3" }
    else if d == 4 { "4" }
    else if d == 5 { "5" }
    else if d == 6 { "6" }
    else if d == 7 { "7" }
    else if d == 8 { "8" }
    else { "9" }
}

/// Decimal text of an unsigned 128-bit value.
pub fn u128_text(n: u128) -> (s: String)
    ensures
        s@ == dec(n as nat),
    decreases n,
{
    if n < 10 {
        String::from_str(digit_str(n as u64))
    } else {
        let mut s = u128_text(n / 10);
        s.append(digit_str((n % 10) as u64));
        s
    }
}

/// Decimal text of an unsigned 64-bit value.
pub fn u64_text(n: u64) -> (s: String)
    ensures
        s@ == dec(n as nat),
{
    u128_text(n as u128)
}

/// Decimal text of a signed 64-bit value.
pub fn i64_text(n: i64) -> (s: String)
    ensures
        s@ == dec_int(n as int),
{
    if n < 0 {
        let mag: u128 = (0i128 - (n as i128)) as u128;
        let mut s = String::from_str("-");
        let digits = u128_text(mag);
        s.append(digits.as_str());
        proof {
            reveal_strlit("-");
        }
        s
    } else {
        u128_text(n as u128)
    }
}

/// Ten to the power `p`, for the few places that reports show.
pub fn pow10_u128(p: u32) -> (r: u128)
    requires
        p <= 18,
    ensures
        r == pow10(p as nat),
        r <= 1_000_000_000_000_000_000,
    decreases p,
{
    proof {
        lemma_pow10_monotone(p as nat, 18);
        reveal_with_fuel(pow10, 19);
        assert(pow10(18) == 1_000_000_000_000_000_000);
    }
    if p == 0 {
        1
    } else {
        let r = pow10_u128(p - 1);
        proof {
            assert(pow10(p as nat) == 10 * pow10((p - 1) as nat));
        }
        10 * r
    }
}

proof fn lemma_pow10_monotone(a: nat, b: nat)
    requires
        a <= b,
    ensures
        pow10(a) <= pow10(b),
        pow10(a) >= 1,
    decreases b,
{
    if b > a {
        lemma_pow10_monotone(a, (b - 1) as nat);
    } else if a > 0 {
        lemma_pow10_monotone((a - 1) as nat, (a - 1) as nat);
    }
}

pub fn zero_pad_text(s: String, width: u32) -> (r: String)
    ensures
        r@ == zero_pad(s@, width as nat),
{
    let len = s.unicode_len();
    if len >= width as usize {
        s
    } else {
        let missing = width as usize - len;
        let mut p = String::new();
        let mut i: usize = 0;
        proof {
            reveal_strlit("0");
        }
        while i < missing
            invariant
                i <= missing,
                p@ =~= Seq::new(i as nat, |j: int| '0'),
            decreases missing - i,
        {
            proof {
                reveal_strlit("0");
            }
            p.append("0");
            i = i + 1;
        }
        p.append(s.as_str());
        p
    }
}

/// Text of `value / 10^places` with `places` digits after the point.
pub fn scaled_value_text(value: u128, places: u32) -> (s: String)
    requires
        places <= 18,
    ensures
        s@ == scaled_text(value as nat, places as nat),
{
    if places == 0 {
        u128_text(value)
    } else {
        let p = pow10_u128(places);
        proof {
            lemma_pow10_monotone(0, places as nat);
        }
        let mut s = u128_text(value / p);
        s.append(".");
        let frac = zero_pad_text(u128_text(value % p), places);
        s.append(frac.as_str());
        proof {
            reveal_strlit(".");
            assert(s@ =~= dec((value / p) as nat) + seq!['.'] + zero_pad(dec((value % p) as nat), places as nat));
        }
        s
    }
}

/// `num / den` rounded half to even.
pub fn round_half_even_u128(num: u128, den: u128) -> (r: u128)
    requires
        den > 0,
    ensures
        r == round_half_even(num as nat, den as nat),
{
    let q = num / den;
    let rem = num % den;
    proof {
        assert(q * den + rem == num) by (nonlinear_arith)
            requires q == num / den, rem == num % den, den > 0;
        assert(q <= num) by (nonlinear_arith)
            requires q == num / den, den > 0;
    }
    let twice: u128 = if rem > den - rem { 2 } else if rem < den - rem { 0 } else { 1 };
    if twice == 2 {
        assert(q < u128::MAX) by (nonlinear_arith)
            requires q * den + rem == num, rem > 0, den > 0, num <= u128::MAX;
        q + 1
    } else if twice == 0 {
        q
    } else if q % 2 == 0 {
        q
    } else {
        assert(q < u128::MAX) by (nonlinear_arith)
            requires q * den + rem == num, rem > 0, den > 0, num <= u128::MAX;
        q + 1
    }
}

/// Text of the fraction `num / den` with `places` digits after the point,
/// rounded half to even.
pub fn fraction_value_text(num: u128, den: u128, places: u32) -> (s: String)
    requires
        den > 0,
        places <= 18,
        num * pow10(places as nat) <= u128::MAX,
    ensures
        s@ == fraction_text(num as nat, den as nat, places as nat),
{
    let p = pow10_u128(places);
    let scaled = num * p;
    let r = round_half_even_u128(scaled, den);
    scaled_value_text(r, places)
}

} // verus!

verus! {

pub proof fn lemma_pow10_le_10000(p: nat)
    requires
        p <= 4,
    ensures
        1 <= pow10(p) <= 10000,
{
    lemma_pow10_monotone(p, 4);
    reveal_with_fuel(pow10, 5);
}

} // verus!

verus! {

/// Both factors fit in 64 bits, so their product fits in 128.
pub proof fn lemma_mul_fits(a: nat, b: nat)
    requires
        a <= u64::MAX,
        b <= u64::MAX,
    ensures
        a * b <= u128::MAX,
{
    assert(a * b <= u64::MAX * u64::MAX) by (nonlinear_arith)
        requires a <= u64::MAX, b <= u64::MAX;
}

pub open spec fn is_digit(c: char) -> bool {
    '0' <= c <= '9'
}

pub open spec fn digit_value(c: char) -> nat {
    (c as int - '0' as int) as nat
}

/// The value of a string of decimal digits.
pub open spec fn digits_value(s: Seq<char>) -> nat
    decreases s.len(),
{
    if s.len() == 0 { 0 } else { digits_value(s.drop_last()) * 10 + digit_value(s.last()) }
}

pub open spec fn all_digits(s: Seq<char>) -> bool {
    forall|i: int| 0 <= i < s.len() ==> is_digit(#[trigger] s[i])
}

/// What `str::parse::<u64>` documents: an optional `+`, then one or more
/// decimal digits whose value fits in 64 bits; `None` otherwise.
pub open spec fn parse_u64_spec(s: Seq<char>) -> Option<u64> {
    let body = if s.len() > 0 && s[0] == '+' { s.drop_first() } else { s };
    if body.len() > 0 && all_digits(body) && digits_value(body) <= u64::MAX {
        Some(digits_value(body) as u64)
    } else {
        None
    }
}

proof fn lemma_digits_prefix(s: Seq<char>, i: int)
    requires
        0 <= i <= s.len(),
        all_digits(s),
    ensures
        digits_value(s.take(i)) <= digits_value(s),
    decreases s.len() - i,
{
    if i < s.len() {
        lemma_digits_prefix(s, i + 1);
        assert(s.take(i + 1).drop_last() =~= s.take(i));
    } else {
        assert(s.take(i) =~= s);
    }
}

/// Parses a decimal `u64` as `str::parse::<u64>` does.
pub fn parse_u64(s: &str) -> (r: Option<u64>)
    ensures
        r == parse_u64_spec(s@),
{
    let n = s.unicode_len();
    let start: usize = if n > 0 && s.get_char(0) == '+' { 1 } else { 0 };
    let ghost body = if s@.len() > 0 && s@[0] == '+' { s@.drop_first() } else { s@ };
    proof {
        assert(body =~= s@.skip(start as int));
    }
    if start >= n {
        return None;
    }
    let mut acc: u64 = 0;
    let mut i: usize = start;
    while i < n
        invariant
            n == s@.len(),
            start <= i <= n,
            body == s@.skip(start as int),
            body == if s@.len() > 0 && s@[0] == '+' { s@.drop_first() } else { s@ },
            all_digits(body.take(i - start)),
            acc as nat == digits_value(body.take(i - start)),
        decreases n - i,
    {
        let c = s.get_char(i);
        let ghost k: int = i - start;
        proof {
            assert(body.take(k + 1).drop_last() =~= body.take(k));
            assert(body[k] == c);
        }
        if !('0' <= c && c <= '9') {
            proof {
                assert(!is_digit(body[k]));
            }
            return None;
        }
        let d = (c as u32 - '0' as u32) as u64;
        if acc > (u64::MAX - d) / 10 {
            proof {
                assert(digits_value(body.take(k + 1)) > u64::MAX) by (nonlinear_arith)
                    requires acc > (u64::MAX - d) / 10, digits_value(body.take(k + 1)) == acc * 10 + d, d <= 9;
                if all_digits(body) {
                    lemma_digits_prefix(body, k + 1);
                }
            }
            return None;
        }
        acc = acc * 10 + d;
        i = i + 1;
    }
    proof {
        assert(body.take(n - start) =~= body);
    }
    Some(acc)
}

} // verus!

verus! {

/// `items` joined with `sep` between consecutive items.
pub open spec fn join_seqs(items: Seq<Seq<char>>, sep: Seq<char>) -> Seq<char>
    decreases items.len(),
{
    if items.len() == 0 {
        Seq::empty()
    } else if items.len() == 1 {
        items[0]
    } else {
        join_seqs(items.drop_last(), sep) + sep + items.last()
    }
}

/// The strings of `items` joined with `sep`.
pub fn join_strings(items: &Vec<String>, sep: &str) -> (s: String)
    ensures
        s@ == join_seqs(items@.map_values(|x: String| x@), sep@),
{
    let ghost views = items@.map_values(|x: String| x@);
    let mut s = String::new();
    let mut i: usize = 0;
    while i < items.len()
        invariant
            i <= items@.len(),
            views == items@.map_values(|x: String| x@),
            s@ == join_seqs(views.take(i as int), sep@),
        decreases items@.len() - i,
    {
        proof {
            assert(views.take(i + 1).drop_last() =~= views.take(i as int));
            assert(views.take(i + 1).last() == items@[i as int]@);
        }
        if i > 0 {
            s.append(sep);
        }
        s.append(items[i].as_str());
        proof {
            if i == 0 {
                assert(views.take(1) =~= seq![items@[0]@]);
                assert(s@ =~= join_seqs(views.take(1), sep@));
            } else {
                assert(s@ =~= join_seqs(views.take(i + 1), sep@));
            }
        }
        i = i + 1;
    }
    proof {
        assert(views.take(items@.len() as int) =~= views);
    }
    s
}

/// Characters that `char::is_whitespace` accepts (Unicode `White_Space`).
pub open spec fn is_whitespace(c: char) -> bool {
    ||| c == ' ' || c == '\t' || c == '\n' || c == '\x0B' || c == '\x0C' || c == '\r'
    ||| c == '\u{85}' || c == '\u{A0}' || c == '\u{1680}'
    ||| ('\u{2000}' <= c && c <= '\u{200A}')
    ||| c == '\u{2028}' || c == '\u{2029}' || c == '\u{202F}' || c == '\u{205F}' || c == '\u{3000}'
}

/// `s` without leading whitespace.
pub open spec fn trim_start_spec(s: Seq<char>) -> Seq<char>
    decreases s.len(),
{
    if s.len() > 0 && is_whitespace(s[0]) { trim_start_spec(s.drop_first()) } else { s }
}

/// `s` without trailing whitespace.
pub open spec fn trim_end_spec(s: Seq<char>) -> Seq<char>
    decreases s.len(),
{
    if s.len() > 0 && is_whitespace(s.last()) { trim_end_spec(s.drop_last()) } else { s }
}

/// `s` without leading and trailing whitespace, as `str::trim` documents.
pub open spec fn trim_spec(s: Seq<char>) -> Seq<char> {
    trim_end_spec(trim_start_spec(s))
}

fn is_whitespace_char(c: char) -> (b: bool)
    ensures
        b == is_whitespace(c),
{
    c == ' ' || c == '\t' || c == '\n' || c == '\x0B' || c == '\x0C' || c == '\r'
        || c == '\u{85}' || c == '\u{A0}' || c == '\u{1680}'
        || ('\u{2000}' <= c && c <= '\u{200A}')
        || c == '\u{2028}' || c == '\u{2029}' || c == '\u{202F}' || c == '\u{205F}' || c == '\u{3000}'
}

/// `s` without leading and trailing whitespace.
pub fn trim_text(s: &str) -> (r: String)
    ensures
        r@ == trim_spec(s@),
{
    let n = s.unicode_len();
    let mut start: usize = 0;
    proof {
        assert(s@.skip(0) =~= s@);
    }
    while start < n && is_whitespace_char(s.get_char(start))
        invariant
            n == s@.len(),
            start <= n,
            trim_start_spec(s@) == trim_start_spec(s@.skip(start as int)),
        decreases n - start,
    {
        proof {
            assert(s@.skip(start as int)[0] == s@[start as int]);
            assert(s@.skip(start as int).drop_first() =~= s@.skip(start + 1));
        }
        start = start + 1;
    }
    proof {
        if start < n {
            assert(s@.skip(start as int)[0] == s@[start as int]);
        }
        assert(trim_start_spec(s@) == s@.skip(start as int));
    }
    let mut end: usize = n;
    proof {
        assert(s@.subrange(start as int, end as int) =~= s@.skip(start as int));
    }
    while end > start && is_whitespace_char(s.get_char(end - 1))
        invariant
            n == s@.len(),
            start <= end <= n,
            trim_spec(s@) == trim_end_spec(s@.subrange(start as int, end as int)),
        decreases end - start,
    {
        proof {
            assert(s@.subrange(start as int, end as int).last() == s@[end - 1]);
            assert(s@.subrange(start as int, end as int).drop_last() =~= s@.subrange(start as int, end - 1));
        }
        end = end - 1;
    }
    proof {
        if end > start {
            assert(s@.subrange(start as int, end as int).last() == s@[end - 1]);
        }
    }
    s.substring_char(start, end).to_string()
}

} // verus!

verus! {

/// What `str::parse::<i32>` documents: an optional sign, then one or more
/// decimal digits whose signed value fits in 32 bits; `None` otherwise.
pub open spec fn parse_i32_spec(s: Seq<char>) -> Option<i32> {
    let neg = s.len() > 0 && s[0] == '-';
    let body = if s.len() > 0 && (s[0] == '+' || s[0] == '-') { s.drop_first() } else { s };
    if body.len() > 0 && all_digits(body) {
        let v = digits_value(body);
        if neg && v <= 2147483648 {
            Some((0 - v) as i32)
        } else if !neg && v <= 2147483647 {
            Some(v as i32)
        } else {
            None
        }
    } else {
        None
    }
}

/// Parses a decimal `i32` as `str::parse::<i32>` does.
pub fn parse_i32(s: &str) -> (r: Option<i32>)
    ensures
        r == parse_i32_spec(s@),
{
    let n = s.unicode_len();
    if n == 0 {
        return None;
    }
    let first = s.get_char(0);
    let neg = first == '-';
    let signed = first == '+' || first == '-';
    let body: &str = if signed { s.substring_char(1, n) } else { s };
    let ghost spec_body = if s@.len() > 0 && (s@[0] == '+' || s@[0] == '-') { s@.drop_first() } else { s@ };
    proof {
        assert(body@ =~= spec_body);
    }
    let bn = body.unicode_len();
    if bn == 0 || body.get_char(0) == '+' {
        proof {
            if bn > 0 {
                assert(!is_digit(body@[0]));
            }
        }
        return None;
    }
    proof {
        assert(body@[0] != '+');
        assert(body@.len() > 0);
    }
    match parse_u64(body) {
        None => {
            proof {
                if all_digits(body@) {
                    assert(digits_value(body@) > u64::MAX);
                }
            }
            None
        },
        Some(v) => {
            if neg {
                if v <= 2147483648 {
                    Some((0i64 - (v as i64)) as i32)
                } else {
                    None
                }
            } else if v <= 2147483647 {
                Some(v as i32)
            } else {
                None
            }
        },
    }
}

} // verus!

verus! {

/// What `str::parse::<i64>` documents: an optional sign, then one or more
/// decimal digits whose signed value fits in 64 bits; `None` otherwise.
pub open spec fn parse_i64_spec(s: Seq<char>) -> Option<i64> {
    let neg = s.len() > 0 && s[0] == '-';
    let body = if s.len() > 0 && (s[0] == '+' || s[0] == '-') { s.drop_first() } else { s };
    if body.len() > 0 && all_digits(body) {
        let v = digits_value(body);
        if neg && v <= 9223372036854775808 {
            Some((0 - v) as i64)
        } else if !neg && v <= 9223372036854775807 {
            Some(v as i64)
        } else {
            None
        }
    } else {
        None
    }
}

/// Parses a decimal `i64` as `str::parse::<i64>` does.
pub fn parse_i64(s: &str) -> (r: Option<i64>)
    ensures
        r == parse_i64_spec(s@),
{
    let n = s.unicode_len();
    if n == 0 {
        return None;
    }
    let first = s.get_char(0);
    let neg = first == '-';
    let signed = first == '+' || first == '-';
    let body: &str = if signed { s.substring_char(1, n) } else { s };
    let ghost spec_body = if s@.len() > 0 && (s@[0] == '+' || s@[0] == '-') { s@.drop_first() } else { s@ };
    proof {
        assert(body@ =~= spec_body);
    }
    let bn = body.unicode_len();
    if bn == 0 || body.get_char(0) == '+' {
        proof {
            if bn > 0 {
                assert(!is_digit(body@[0]));
            }
        }
        return None;
    }
    proof {
        assert(body@[0] != '+');
    }
    match parse_u64(body) {
        None => {
            proof {
                if all_digits(body@) {
                    assert(digits_value(body@) > u64::MAX);
                }
            }
            None
        },
        Some(v) => {
            if neg {
                if v <= 9223372036854775808 {
                    Some((0i128 - (v as i128)) as i64)
                } else {
                    None
                }
            } else if v <= 9223372036854775807 {
                Some(v as i64)
            } else {
                None
            }
        },
    }
}

} // verus!
