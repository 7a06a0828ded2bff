//! Decimal text for fixed-point quantities: integers to text, and decimal
//! text such as `0.25` to an integer count of `10^-scale` units.
use crate::text::push_char;
use vstd::prelude::*;

verus! {

pub open spec fn digit_char(d: int) -> char {
    seq!['0', '1', '2', '3', '4', '5', '6', '7', '8', '9'][d]
}

pub open spec fn is_digit(c: char) -> bool {
    '0' <= c && c <= '9'
}

pub open spec fn digit_value(c: char) -> int {
    (c as int) - ('0' as int)
}

/// The decimal text of `n`, without leading zeros.
pub open spec fn decimal_text(n: nat) -> Seq<char>
    decreases n,
{
    if n < 10 {
        seq![digit_char(n as int)]
    } else {
        decimal_text(n / 10) + seq![digit_char((n % 10) as int)]
    }
}

pub open spec fn pow10(k: nat) -> nat
    decreases k,
{
    if k == 0 {
        1
    } else {
        10 * pow10((k - 1) as nat)
    }
}

/// `n` written with exactly `width` digits, zero-padded on the left,
/// keeping its lowest `width` digits.
pub open spec fn padded_text(n: nat, width: nat) -> Seq<char>
    decreases width,
{
    if width == 0 {
        Seq::empty()
    } else {
        padded_text(n / 10, (width - 1) as nat) + seq![digit_char((n % 10) as int)]
    }
}

/// `n` units of `10^-scale` as decimal text: the whole part, a point, and
/// `scale` fraction digits.
pub open spec fn scaled_text(n: nat, scale: nat) -> Seq<char> {
    decimal_text(n / pow10(scale)) + seq!['.'] + padded_text(n % pow10(scale), scale)
}

pub open spec fn all_digits(s: Seq<char>) -> bool {
    forall|i: int| 0 <= i < s.len() ==> is_digit(#[trigger] s[i])
}

/// The value of a run of digits.
pub open spec fn digits_value(s: Seq<char>) -> nat
    decreases s.len(),
{
    if s.len() == 0 {
        0
    } else {
        (digits_value(s.drop_last()) * 10 + digit_value(s.last())) as nat
    }
}

/// The position of the first `.` in `s`, or its length.
pub open spec fn point_index(s: Seq<char>) -> int
    decreases s.len(),
{
    if s.len() == 0 {
        0
    } else if s[0] == '.' {
        0
    } else {
        1 + point_index(s.drop_first())
    }
}

/// The first `scale` fraction digits, zero-padded to `scale`, as a count.
pub open spec fn fraction_units(frac: Seq<char>, scale: nat) -> nat {
    if frac.len() >= scale {
        digits_value(frac.subrange(0, scale as int))
    } else {
        digits_value(frac) * pow10((scale - frac.len()) as nat)
    }
}

/// `s` is an unsigned decimal: digits, then optionally a point and digits,
/// with at most 19 digits before the point.
pub open spec fn well_formed_decimal(s: Seq<char>) -> bool {
    let p = point_index(s);
    let whole = s.subrange(0, p);
    &&& 0 < p <= 19
    &&& all_digits(whole)
    &&& (p < s.len() ==> p + 1 < s.len() && all_digits(s.subrange(p + 1, s.len() as int)))
}

/// The value of a well-formed decimal in units of `10^-scale`, truncated.
pub open spec fn decimal_units(s: Seq<char>, scale: nat) -> nat {
    let p = point_index(s);
    let frac = if p < s.len() {
        s.subrange(p + 1, s.len() as int)
    } else {
        Seq::empty()
    };
    digits_value(s.subrange(0, p)) * pow10(scale) + fraction_units(frac, scale)
}

fn digit(d: u64) -> (c: char)
    requires
        d < 10,
    ensures
        c == digit_char(d as int),
{
    let digits: [char; 10] = ['0', '1', '2', '3', '4', '5', '6', '7', '8', '9'];
    proof {
        assert(digits@ =~= seq!['0', '1', '2', '3', '4', '5', '6', '7', '8', '9']);
    }
    digits[d as usize]
}

/// Appends the decimal text of `n`.
pub fn write_decimal(n: u64, out: &mut String)
    ensures
        final(out)@ == old(out)@ + decimal_text(n as nat),
    decreases n,
{
    let ghost start = out@;
    if n >= 10 {
        write_decimal(n / 10, out);
    }
    let c = digit(n % 10);
    push_char(out, c);
    proof {
        if n >= 10 {
            assert(out@ =~= start + decimal_text(n as nat));
        } else {
            assert(out@ =~= start + decimal_text(n as nat));
        }
    }
}

/// The decimal text of `n`.
pub fn u64_text(n: u64) -> (r: String)
    ensures
        r@ == decimal_text(n as nat),
{
    let mut s = String::new();
    write_decimal(n, &mut s);
    proof {
        assert(s@ =~= decimal_text(n as nat));
    }
    s
}

fn write_padded(n: u64, width: u32, out: &mut String)
    ensures
        final(out)@ == old(out)@ + padded_text(n as nat, width as nat),
    decreases width,
{
    let ghost start = out@;
    if width > 0 {
        write_padded(n / 10, width - 1, out);
        let c = digit(n % 10);
        push_char(out, c);
        proof {
            assert(out@ =~= start + padded_text(n as nat, width as nat));
        }
    } else {
        proof {
            assert(out@ =~= start + padded_text(n as nat, width as nat));
        }
    }
}

fn pow10_exec(k: u32) -> (r: u64)
    requires
        k <= 19,
    ensures
        r == pow10(k as nat),
    decreases k,
{
    if k == 0 {
        1
    } else {
        let p = pow10_exec(k - 1);
        proof {
            lemma_pow10_bound((k - 1) as nat);
        }
        10 * p
    }
}

proof fn lemma_pow10_bound(k: nat)
    requires
        k <= 18,
    ensures
        pow10(k) <= 1_000_000_000_000_000_000,
        pow10(k) >= 1,
{
    lemma_pow10_monotone(k, 18);
    lemma_pow10_positive(k);
    reveal_with_fuel(pow10, 19);
}

proof fn lemma_pow10_monotone(a: nat, b: nat)
    requires
        a <= b,
    ensures
        pow10(a) <= pow10(b),
    decreases b - a,
{
    if a < b {
        lemma_pow10_monotone(a, (b - 1) as nat);
        lemma_pow10_positive((b - 1) as nat);
    }
}

proof fn lemma_pow10_positive(k: nat)
    ensures
        pow10(k) >= 1,
    decreases k,
{
    if k > 0 {
        lemma_pow10_positive((k - 1) as nat);
    }
}

/// `n` units of `10^-scale` as decimal text, as `scaled_text` says.
pub fn scaled_to_text(n: u64, scale: u32) -> (r: String)
    requires
        scale <= 18,
    ensures
        r@ == scaled_text(n as nat, scale as nat),
{
    let p = pow10_exec(scale);
    proof {
        lemma_pow10_bound(scale as nat);
    }
    let mut s = String::new();
    write_decimal(n / p, &mut s);
    push_char(&mut s, '.');
    write_padded(n % p, scale, &mut s);
    proof {
        assert(s@ =~= scaled_text(n as nat, scale as nat));
    }
    s
}

proof fn lemma_point_index_at(s: Seq<char>, i: int)
    requires
        0 <= i <= s.len(),
        i < s.len() ==> s[i] == '.',
        forall|j: int| 0 <= j < i ==> s[j] != '.',
    ensures
        point_index(s) == i,
    decreases i,
{
    if i > 0 {
        assert forall|j: int| 0 <= j < i - 1 implies s.drop_first()[j] != '.' by {
            assert(s.drop_first()[j] == s[j + 1]);
        }
        lemma_point_index_at(s.drop_first(), i - 1);
    }
}

proof fn lemma_digits_step(s: Seq<char>, i: int)
    requires
        0 <= i < s.len(),
        is_digit(s[i]),
    ensures
        digits_value(s.subrange(0, i + 1)) == digits_value(s.subrange(0, i)) * 10 + digit_value(s[i]),
{
    assert(s.subrange(0, i + 1).drop_last() =~= s.subrange(0, i));
    assert(s.subrange(0, i + 1).last() == s[i]);
}

proof fn lemma_digits_bound(s: Seq<char>)
    requires
        all_digits(s),
    ensures
        digits_value(s) < pow10(s.len()),
    decreases s.len(),
{
    if s.len() > 0 {
        let t = s.drop_last();
        assert(all_digits(t)) by {
            assert forall|i: int| 0 <= i < t.len() implies is_digit(#[trigger] t[i]) by {
                assert(t[i] == s[i]);
            }
        }
        lemma_digits_bound(t);
        assert(is_digit(s[s.len() - 1]));
    }
}

/// Parses an unsigned decimal into units of `10^-scale`, dropping fraction
/// digits beyond `scale`; `None` unless `well_formed_decimal` holds.
pub fn parse_scaled(s: &str, scale: u32) -> (r: Option<u128>)
    requires
        scale <= 9,
    ensures
        r is Some <==> well_formed_decimal(s@),
        r matches Some(v) ==> v == decimal_units(s@, scale as nat),
{
    let n = s.unicode_len();
    let mut p: usize = 0;
    while p < n && s.get_char(p) != '.'
        invariant
            n == s@.len(),
            p <= n,
            forall|j: int| 0 <= j < p ==> s@[j] != '.',
        decreases n - p,
    {
        p += 1;
    }
    proof {
        lemma_point_index_at(s@, p as int);
    }
    if p == 0 || p > 19 {
        return None;
    }
    let mut whole: u128 = 0;
    let mut i: usize = 0;
    while i < p
        invariant
            n == s@.len(),
            p <= n,
            p <= 19,
            point_index(s@) == p,
            i <= p,
            whole == digits_value(s@.subrange(0, i as int)),
            all_digits(s@.subrange(0, i as int)),
            whole < pow10(i as nat),
        decreases p - i,
    {
        let c = s.get_char(i);
        if !('0' <= c && c <= '9') {
            proof {
                assert(s@.subrange(0, p as int)[i as int] == c);
            }
            return None;
        }
        proof {
            lemma_digits_step(s@, i as int);
            lemma_pow10_bound(i as nat);
            assert forall|j: int| 0 <= j < i + 1 implies is_digit(#[trigger] s@.subrange(0, i as int + 1)[j]) by {
                if j < i {
                    assert(s@.subrange(0, i as int + 1)[j] == s@.subrange(0, i as int)[j]);
                }
            }
        }
        whole = whole * 10 + ((c as u32) - ('0' as u32)) as u128;
        i += 1;
    }
    let mut frac: u128 = 0;
    let mut taken: u32 = 0;
    if p < n {
        if p + 1 == n {
            return None;
        }
        let ghost fs = s@.subrange(p as int + 1, n as int);
        let mut j: usize = p + 1;
        while j < n
            invariant
                n == s@.len(),
                p < j <= n,
                fs == s@.subrange(p as int + 1, n as int),
                point_index(s@) == p,
                scale <= 9,
                taken as int == if j - p - 1 <= scale { j - p - 1 } else { scale as int },
                frac == digits_value(fs.subrange(0, taken as int)),
                frac < pow10(taken as nat),
                all_digits(fs.subrange(0, j - p - 1)),
            decreases n - j,
        {
            let c = s.get_char(j);
            let k: usize = j - p - 1;
            if !('0' <= c && c <= '9') {
                proof {
                    assert(fs[k as int] == c);
                }
                return None;
            }
            proof {
                assert forall|t: int| 0 <= t < k + 1 implies is_digit(#[trigger] fs.subrange(0, k as int + 1)[t]) by {
                    if t < k {
                        assert(fs.subrange(0, k as int + 1)[t] == fs.subrange(0, k as int)[t]);
                    }
                }
            }
            if taken < scale {
                proof {
                    lemma_digits_step(fs, taken as int);
                    lemma_pow10_bound(taken as nat);
                }
                frac = frac * 10 + ((c as u32) - ('0' as u32)) as u128;
                taken = taken + 1;
            }
            j += 1;
        }
        proof {
            assert(fs.subrange(0, fs.len() as int) =~= fs);
        }
    }
    proof {
        lemma_pow10_bound((scale - taken) as nat);
        lemma_pow10_bound(scale as nat);
        lemma_pow10_bound(18);
        lemma_pow10_monotone(p as nat, 19);
        assert(pow10(19) == 10 * pow10(18));
        assert(s@.subrange(0, p as int).len() == p);
        if p == n {
            assert(taken == 0);
            assert(Seq::<char>::empty().subrange(0, 0) =~= Seq::<char>::empty());
        } else {
            let fs = s@.subrange(p as int + 1, n as int);
            if fs.len() >= scale {
                assert(taken == scale);
            } else {
                assert(fs.subrange(0, taken as int) =~= fs);
            }
        }
    }
    proof {
        lemma_pow10_monotone(scale as nat, 9);
        lemma_pow10_monotone(taken as nat, 9);
        lemma_pow10_monotone((scale - taken) as nat, 9);
        reveal_with_fuel(pow10, 10);
    }
    let pad = pow10_exec(scale - taken) as u128;
    let unit = pow10_exec(scale) as u128;
    proof {
        assert(whole * unit <= 10_000_000_000_000_000_000u128 * 1_000_000_000u128) by (nonlinear_arith)
            requires
                whole < 10_000_000_000_000_000_000u128,
                unit <= 1_000_000_000u128,
        ;
        assert(frac * pad <= 1_000_000_000u128 * 1_000_000_000u128) by (nonlinear_arith)
            requires
                frac < 1_000_000_000u128,
                pad <= 1_000_000_000u128,
        ;
    }
    Some(whole * unit + frac * pad)
}

} // verus!
