//! Decimal price text: an optional minus sign, digits, and optionally a
//! point followed by digits (`"142.35"`, `"-0.5"`, `"6400512"`).

use crate::types::Price;
use vstd::prelude::*;

verus! {

pub open spec fn is_digit(c: char) -> bool {
    '0' <= c && c <= '9'
}

pub open spec fn digit_value(c: char) -> int {
    c as int - '0' as int
}

/// The number the digits `s` write in base ten.
pub open spec fn digits_value(s: Seq<char>) -> int
    decreases s.len(),
{
    if s.len() == 0 {
        0
    } else {
        digits_value(s.drop_last()) * 10 + digit_value(s.last())
    }
}

/// `s` is one or more digits.
pub open spec fn all_digits(s: Seq<char>) -> bool {
    s.len() > 0 && forall|i: int| 0 <= i < s.len() ==> is_digit(#[trigger] s[i])
}

/// `b` is digits, with its point at `k`: `k == b.len()` for no point, else
/// digits on both sides of a `'.'` at `k`.
pub open spec fn decimal_shape(b: Seq<char>, k: int) -> bool {
    ||| k == b.len() && all_digits(b)
    ||| 0 < k < b.len() - 1 && b[k] == '.' && all_digits(b.take(k)) && all_digits(b.skip(k + 1))
}

pub open spec fn is_negative(s: Seq<char>) -> bool {
    s.len() > 0 && s[0] == '-'
}

/// `s` without its minus sign.
pub open spec fn unsigned_part(s: Seq<char>) -> Seq<char> {
    if is_negative(s) {
        s.skip(1)
    } else {
        s
    }
}

/// The digits of `b` without its point at `k`.
pub open spec fn mantissa_digits(b: Seq<char>, k: int) -> Seq<char> {
    if k < b.len() {
        b.take(k) + b.skip(k + 1)
    } else {
        b
    }
}

/// `p` is the price `s` writes: its mantissa is the digits without the point
/// (negated after a minus sign), its exponent minus the number of digits
/// after the point.
pub open spec fn denotes(s: Seq<char>, p: Price) -> bool {
    let b = unsigned_part(s);
    exists|k: int|
        #[trigger] decimal_shape(b, k) && {
            let m = digits_value(mantissa_digits(b, k));
            &&& p.mantissa == if is_negative(s) {
                -m
            } else {
                m
            }
            &&& p.exponent == k - b.len() + if k < b.len() {
                1int
            } else {
                0int
            }
        }
}

proof fn lemma_digits_nonneg(s: Seq<char>)
    requires
        forall|i: int| 0 <= i < s.len() ==> is_digit(#[trigger] s[i]),
    ensures
        digits_value(s) >= 0,
    decreases s.len(),
{
    if s.len() > 0 {
        lemma_digits_nonneg(s.drop_last());
    }
}

proof fn lemma_prefix_le(s: Seq<char>, j: int)
    requires
        0 <= j <= s.len(),
        forall|i: int| 0 <= i < s.len() ==> is_digit(#[trigger] s[i]),
    ensures
        digits_value(s.take(j)) <= digits_value(s),
    decreases s.len(),
{
    if j < s.len() {
        let t = s.drop_last();
        assert(s.take(j) =~= t.take(j));
        lemma_prefix_le(t, j);
        lemma_digits_nonneg(t);
    } else {
        assert(s.take(j) =~= s);
    }
}

proof fn lemma_shape_unique(b: Seq<char>, k1: int, k2: int)
    requires
        decimal_shape(b, k1),
        decimal_shape(b, k2),
    ensures
        k1 == k2,
{
    if k1 < k2 {
        assert(b.take(k2)[k1] == b[k1]);
    } else if k2 < k1 {
        assert(b.take(k1)[k2] == b[k2]);
    }
}

/// The price `s` writes, if any.
pub open spec fn decimal_of(s: Seq<char>) -> Option<Price> {
    if exists|p: Price| denotes(s, p) {
        Some(choose|p: Price| denotes(s, p))
    } else {
        None
    }
}

/// Text writes at most one price.
pub proof fn lemma_denotes_unique(s: Seq<char>, p1: Price, p2: Price)
    requires
        denotes(s, p1),
        denotes(s, p2),
    ensures
        p1 == p2,
{
    let b = unsigned_part(s);
    let k1 = choose|k: int|
        #[trigger] decimal_shape(b, k) && {
            let m = digits_value(mantissa_digits(b, k));
            &&& p1.mantissa == if is_negative(s) {
                -m
            } else {
                m
            }
            &&& p1.exponent == k - b.len() + if k < b.len() {
                1int
            } else {
                0int
            }
        };
    let k2 = choose|k: int|
        #[trigger] decimal_shape(b, k) && {
            let m = digits_value(mantissa_digits(b, k));
            &&& p2.mantissa == if is_negative(s) {
                -m
            } else {
                m
            }
            &&& p2.exponent == k - b.len() + if k < b.len() {
                1int
            } else {
                0int
            }
        };
    lemma_shape_unique(b, k1, k2);
}

const MAGNITUDE_LIMIT: u128 = 0x8000_0000_0000_0000;

/// Where the digits of `b` end at `k`, any point of a decimal shape is at `k`.
proof fn lemma_point_at(b: Seq<char>, k: int, k2: int)
    requires
        0 <= k <= b.len(),
        forall|j: int| 0 <= j < k ==> is_digit(#[trigger] b[j]),
        k == b.len() || !is_digit(b[k]),
        decimal_shape(b, k2),
    ensures
        k2 == k,
{
    if k2 < k {
        assert(is_digit(b[k2]));
    } else if k2 > k {
        assert(b.take(k2)[k] == b[k]);
    }
}

proof fn lemma_mantissa_digits(b: Seq<char>, k: int)
    requires
        decimal_shape(b, k),
    ensures
        forall|j: int|
            0 <= j < mantissa_digits(b, k).len() ==> is_digit(#[trigger] mantissa_digits(b, k)[j]),
{
    let md = mantissa_digits(b, k);
    assert forall|j: int| 0 <= j < md.len() implies is_digit(#[trigger] md[j]) by {
        if k < b.len() {
            if j < k {
                assert(md[j] == b.take(k)[j]);
            } else {
                assert(md[j] == b.skip(k + 1)[j - k]);
            }
        }
    }
}

/// A price's mantissa is at most `2^63` in magnitude, so no price has more
/// digits than that.
proof fn lemma_too_large(s: Seq<char>, p: Price, k: int, j: int)
    requires
        decimal_shape(unsigned_part(s), k),
        0 <= j <= mantissa_digits(unsigned_part(s), k).len(),
        digits_value(mantissa_digits(unsigned_part(s), k).take(j)) > MAGNITUDE_LIMIT,
    ensures
        !denotes(s, p),
{
    let b = unsigned_part(s);
    if denotes(s, p) {
        let k2 = choose|k2: int|
            #[trigger] decimal_shape(b, k2) && {
                let m = digits_value(mantissa_digits(b, k2));
                &&& p.mantissa == if is_negative(s) {
                    -m
                } else {
                    m
                }
                &&& p.exponent == k2 - b.len() + if k2 < b.len() {
                    1int
                } else {
                    0int
                }
            };
        lemma_shape_unique(b, k, k2);
        lemma_mantissa_digits(b, k);
        lemma_prefix_le(mantissa_digits(b, k), j);
    }
}

/// The price that `s` writes, or `None` when `s` is not decimal text or no
/// `Price` of that form holds its value (the mantissa or exponent does not
/// fit).
fn scan_decimal(s: &str) -> (r: Option<Price>)
    ensures
        r matches Some(p) ==> denotes(s@, p),
        r is None ==> forall|p: Price| !denotes(s@, p),
{
    let n = s.unicode_len();
    let ghost sv = s@;
    let neg = n > 0 && s.get_char(0) == '-';
    let start: usize = if neg {
        1
    } else {
        0
    };
    let ghost b = unsigned_part(sv);
    assert(b =~= sv.skip(start as int));
    let mut mag: u128 = 0;
    let mut i: usize = start;
    // Digits before the point.
    while i < n
        invariant
            sv == s@,
            n == sv.len(),
            b == sv.skip(start as int),
            start <= i <= n,
            forall|j: int| 0 <= j < i - start ==> is_digit(#[trigger] b[j]),
            b == unsigned_part(sv),
            mag == digits_value(b.take(i - start)),
            mag <= MAGNITUDE_LIMIT,
        ensures
            start <= i <= n,
            forall|j: int| 0 <= j < i - start ==> is_digit(#[trigger] b[j]),
            mag == digits_value(b.take(i - start)),
            mag <= MAGNITUDE_LIMIT,
            i == n || !is_digit(b[i - start]),
        decreases n - i,
    {
        let c = s.get_char(i);
        assert(b[i - start] == c);
        if !('0' <= c && c <= '9') {
            break;
        }
        assert(b.take(i - start + 1).drop_last() =~= b.take(i - start));
        let next = mag * 10 + (c as u128 - '0' as u128);
        if next > MAGNITUDE_LIMIT {
            proof {
                assert forall|p: Price| !denotes(sv, p) by {
                    if denotes(sv, p) {
                        let k2 = choose|k2: int| #[trigger] decimal_shape(b, k2);
                        if k2 <= i - start {
                            if k2 < b.len() {
                                assert(is_digit(b[k2]));
                            }
                        }
                        assert(mantissa_digits(b, k2).take(i - start + 1) =~= b.take(i - start + 1));
                        lemma_too_large(sv, p, k2, i - start + 1);
                    }
                }
            }
            return None;
        }
        mag = next;
        i = i + 1;
    }
    let point = i;
    let ghost k = point - start;
    assert(k == b.len() || !is_digit(b[k]));
    if point == start {
        proof {
            assert forall|p: Price| !denotes(sv, p) by {
                if denotes(sv, p) {
                    let k2 = choose|k2: int| #[trigger] decimal_shape(b, k2);
                    lemma_point_at(b, k, k2);
                }
            }
        }
        return None;
    }
    if point == n {
        // No point: an integer.
        proof {
            assert(b.take(k) =~= b);
            assert(decimal_shape(b, k));
        }
        if !neg && mag == MAGNITUDE_LIMIT {
            proof {
                assert forall|p: Price| !denotes(sv, p) by {
                    if denotes(sv, p) {
                        let k2 = choose|k2: int| #[trigger] decimal_shape(b, k2) && {
                            let m = digits_value(mantissa_digits(b, k2));
                            &&& p.mantissa == if is_negative(sv) { -m } else { m }
                            &&& p.exponent == k2 - b.len() + if k2 < b.len() { 1int } else { 0int }
                        };
                        lemma_shape_unique(b, k, k2);
                    }
                }
            }
            return None;
        }
        let mantissa: i64 = if neg {
            (0i128 - mag as i128) as i64
        } else {
            mag as i64
        };
        let p = Price { mantissa, exponent: 0 };
        assert(decimal_shape(b, k) && {
            let m = digits_value(mantissa_digits(b, k));
            &&& p.mantissa == if is_negative(sv) { -m } else { m }
            &&& p.exponent == k - b.len() + if k < b.len() { 1int } else { 0int }
        });
        return Some(p);
    }
    if s.get_char(point) != '.' {
        proof {
            assert forall|p: Price| !denotes(sv, p) by {
                if denotes(sv, p) {
                    let k2 = choose|k2: int| #[trigger] decimal_shape(b, k2);
                    lemma_point_at(b, k, k2);
                }
            }
        }
        return None;
    }
    assert(b[k] == '.');
    let frac_start = point + 1;
    i = frac_start;
    // Digits after the point.
    while i < n
        invariant
            sv == s@,
            n == sv.len(),
            b == sv.skip(start as int),
            start < point < frac_start <= i <= n,
            k == point - start,
            frac_start == point + 1,
            b[k] == '.',
            forall|j: int| 0 <= j < k ==> is_digit(#[trigger] b[j]),
            forall|j: int| k < j < i - start ==> is_digit(#[trigger] b[j]),
            mag == digits_value(b.take(k) + b.subrange(k + 1, i - start)),
            mag <= MAGNITUDE_LIMIT,
            b == unsigned_part(sv),
        decreases n - i,
    {
        let c = s.get_char(i);
        assert(b[i - start] == c);
        if !('0' <= c && c <= '9') {
            proof {
                assert forall|p: Price| !denotes(sv, p) by {
                    if denotes(sv, p) {
                        let k2 = choose|k2: int| #[trigger] decimal_shape(b, k2);
                        lemma_point_at(b, k, k2);
                        assert(b.skip(k + 1)[i - start - k - 1] == b[i - start]);
                    }
                }
            }
            return None;
        }
        assert((b.take(k) + b.subrange(k + 1, i - start + 1)).drop_last() =~= b.take(k) + b.subrange(
            k + 1,
            i - start,
        ));
        let next = mag * 10 + (c as u128 - '0' as u128);
        if next > MAGNITUDE_LIMIT {
            proof {
                assert forall|p: Price| !denotes(sv, p) by {
                    if denotes(sv, p) {
                        let k2 = choose|k2: int| #[trigger] decimal_shape(b, k2);
                        lemma_point_at(b, k, k2);
                        let j = i - start;
                        assert(mantissa_digits(b, k).take(j) =~= b.take(k) + b.subrange(k + 1, j + 1));
                        lemma_too_large(sv, p, k, j);
                    }
                }
            }
            return None;
        }
        mag = next;
        i = i + 1;
    }
    let frac_len = n - frac_start;
    if frac_len == 0 || frac_len > 0x8000_0000 || (!neg && mag == MAGNITUDE_LIMIT) {
        proof {
            assert forall|p: Price| !denotes(sv, p) by {
                if denotes(sv, p) {
                    let k2 = choose|k2: int| #[trigger] decimal_shape(b, k2) && {
                        let m = digits_value(mantissa_digits(b, k2));
                        &&& p.mantissa == if is_negative(sv) { -m } else { m }
                        &&& p.exponent == k2 - b.len() + if k2 < b.len() { 1int } else { 0int }
                    };
                    lemma_point_at(b, k, k2);
                    assert(mantissa_digits(b, k) =~= b.take(k) + b.subrange(k + 1, n - start));
                }
            }
        }
        return None;
    }
    let ghost md = b.take(k) + b.subrange(k + 1, n - start);
    proof {
        assert(all_digits(b.take(k)));
        assert(b.skip(k + 1) =~= b.subrange(k + 1, n - start));
        assert(all_digits(b.skip(k + 1)));
        assert(decimal_shape(b, k));
        assert(mantissa_digits(b, k) =~= md);
    }
    let mantissa: i64 = if neg {
        (0i128 - mag as i128) as i64
    } else {
        mag as i64
    };
    let exponent: i32 = (0i64 - frac_len as i64) as i32;
    let p = Price { mantissa, exponent };
    assert(decimal_shape(b, k) && {
        let m = digits_value(mantissa_digits(b, k));
        &&& p.mantissa == if is_negative(sv) { -m } else { m }
        &&& p.exponent == k - b.len() + if k < b.len() { 1int } else { 0int }
    });
    Some(p)
}

/// The price that `s` writes, or `None` when `s` is not decimal text or no
/// `Price` of that form holds its value.
pub fn parse_decimal(s: &str) -> (r: Option<Price>)
    ensures
        r == decimal_of(s@),
        r matches Some(p) ==> denotes(s@, p),
        r is None ==> forall|p: Price| !denotes(s@, p),
{
    let r = scan_decimal(s);
    proof {
        if let Some(p) = r {
            let q = choose|q: Price| denotes(s@, q);
            lemma_denotes_unique(s@, p, q);
        }
    }
    r
}

} // verus!
