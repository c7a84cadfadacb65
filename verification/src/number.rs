//! Decimal integer parsing as `str::parse` does it.

use vstd::prelude::*;

verus! {

pub open spec fn is_digit(c: char) -> bool {
    '0' <= c && c <= '9'
}

pub open spec fn digit_value(c: char) -> int {
    (c as int) - ('0' as int)
}

/// Decimal value of a digit string.
pub open spec fn digits_value(d: Seq<char>) -> int
    decreases d.len(),
{
    if d.len() == 0 {
        0
    } else {
        10 * digits_value(d.drop_last()) + digit_value(d.last())
    }
}

pub open spec fn all_digits(d: Seq<char>) -> bool {
    forall|i: int| 0 <= i < d.len() ==> is_digit(#[trigger] d[i])
}

/// The integer a string denotes: an optional sign, then one or more ASCII digits.
pub open spec fn int_text(s: Seq<char>) -> Option<int> {
    let signed = s.len() > 0 && (s[0] == '+' || s[0] == '-');
    let rest = if signed {
        s.skip(1)
    } else {
        s
    };
    if rest.len() == 0 || !all_digits(rest) {
        None
    } else if signed && s[0] == '-' {
        Some(-digits_value(rest))
    } else {
        Some(digits_value(rest))
    }
}

/// Unsigned: an optional `+`, then one or more ASCII digits.
pub open spec fn uint_text(s: Seq<char>) -> Option<int> {
    let signed = s.len() > 0 && s[0] == '+';
    let rest = if signed {
        s.skip(1)
    } else {
        s
    };
    if rest.len() == 0 || !all_digits(rest) {
        None
    } else {
        Some(digits_value(rest))
    }
}

/// A digit string never denotes a negative value.
pub proof fn lemma_digits_value_nonneg(d: Seq<char>)
    requires
        all_digits(d),
    ensures
        digits_value(d) >= 0,
    decreases d.len(),
{
    if d.len() > 0 {
        assert(all_digits(d.drop_last())) by {
            assert forall|i: int| 0 <= i < d.drop_last().len() implies is_digit(#[trigger] d.drop_last()[i]) by {
                assert(d.drop_last()[i] == d[i]);
            }
        }
        lemma_digits_value_nonneg(d.drop_last());
        assert(is_digit(d[d.len() - 1]));
    }
}

/// A parsed unsigned text is never negative.
pub proof fn lemma_uint_text_nonneg(s: Seq<char>)
    ensures
        uint_text(s) matches Some(v) ==> v >= 0,
{
    let signed = s.len() > 0 && s[0] == '+';
    let rest = if signed {
        s.skip(1)
    } else {
        s
    };
    if rest.len() > 0 && all_digits(rest) {
        lemma_digits_value_nonneg(rest);
    }
}

/// Value of the digits of `d`, saturated at `limit + 1`; `None` when `d` is
/// empty or holds a non-digit.
fn digits_capped(d: &[char], limit: u128) -> (r: Option<u128>)
    requires
        limit < 0x1000_0000_0000_0000_0000_0000_0000_0000u128,
    ensures
        d@.len() == 0 || !all_digits(d@) ==> r is None,
        d@.len() > 0 && all_digits(d@) ==> (r matches Some(v) && (digits_value(d@) <= limit ==> v == digits_value(d@)) && (digits_value(d@) > limit ==> v == limit + 1)),
{
    if d.len() == 0 {
        return None;
    }
    let mut acc: u128 = 0;
    let mut i: usize = 0;
    while i < d.len()
        invariant
            i <= d@.len(),
            limit < 0x1000_0000_0000_0000_0000_0000_0000_0000u128,
            all_digits(d@.take(i as int)),
            acc <= limit + 1,
            digits_value(d@.take(i as int)) <= limit ==> acc == digits_value(d@.take(i as int)),
            digits_value(d@.take(i as int)) > limit ==> acc == limit + 1,
        decreases d@.len() - i,
    {
        let c = d[i];
        if !('0' <= c && c <= '9') {
            proof {
                assert(!is_digit(d@[i as int]));
            }
            return None;
        }
        let dv: u128 = (c as u32 - '0' as u32) as u128;
        proof {
            let t = d@.take(i + 1);
            assert(t.drop_last() =~= d@.take(i as int));
            assert(t.last() == c);
            assert(dv == digit_value(c));
            assert(all_digits(t)) by {
                assert forall|k: int| 0 <= k < t.len() implies is_digit(#[trigger] t[k]) by {
                    if k < i {
                        assert(t[k] == d@.take(i as int)[k]);
                    }
                }
            }
            lemma_digits_value_nonneg(d@.take(i as int));
        }
        if acc > limit {
            acc = limit + 1;
        } else {
            let next: u128 = acc * 10 + dv;
            if next > limit {
                acc = limit + 1;
            } else {
                acc = next;
            }
        }
        i = i + 1;
    }
    proof {
        assert(d@.take(d@.len() as int) =~= d@);
    }
    Some(acc)
}

/// `s.parse::<i64>().ok()`.
pub fn parse_i64(s: &str) -> (r: Option<i64>)
    ensures
        match int_text(s@) {
            Some(v) => if i64::MIN <= v <= i64::MAX {
                r == Some(v as i64)
            } else {
                r is None
            },
            None => r is None,
        },
{
    let v = crate::text::to_chars(s);
    let signed = v.len() > 0 && (v[0] == '+' || v[0] == '-');
    let negative = v.len() > 0 && v[0] == '-';
    let rest = if signed {
        crate::text::slice_range(v.as_slice(), 1, v.len())
    } else {
        crate::text::slice_range(v.as_slice(), 0, v.len())
    };
    proof {
        if signed {
            assert(rest@ =~= s@.skip(1));
        } else {
            assert(rest@ =~= s@);
        }
    }
    let limit: u128 = 9223372036854775808;
    match digits_capped(rest.as_slice(), limit) {
        None => None,
        Some(m) => {
            if negative {
                if m > limit {
                    None
                } else if m == limit {
                    Some(i64::MIN)
                } else {
                    let x: i64 = m as i64;
                    Some(-x)
                }
            } else {
                if m >= limit {
                    None
                } else {
                    Some(m as i64)
                }
            }
        },
    }
}

/// `s.parse::<usize>().ok()`.
pub fn parse_usize(s: &str) -> (r: Option<usize>)
    ensures
        match uint_text(s@) {
            Some(v) => if v <= usize::MAX {
                r == Some(v as usize)
            } else {
                r is None
            },
            None => r is None,
        },
{
    let v = crate::text::to_chars(s);
    let signed = v.len() > 0 && v[0] == '+';
    let rest = if signed {
        crate::text::slice_range(v.as_slice(), 1, v.len())
    } else {
        crate::text::slice_range(v.as_slice(), 0, v.len())
    };
    proof {
        if signed {
            assert(rest@ =~= s@.skip(1));
        } else {
            assert(rest@ =~= s@);
        }
    }
    let limit: u128 = usize::MAX as u128;
    match digits_capped(rest.as_slice(), limit) {
        None => None,
        Some(m) => {
            if m > limit {
                None
            } else {
                Some(m as usize)
            }
        },
    }
}

/// `s.parse::<u64>().ok()`.
pub fn parse_u64(s: &str) -> (r: Option<u64>)
    ensures
        match uint_text(s@) {
            Some(v) => if v <= u64::MAX {
                r == Some(v as u64)
            } else {
                r is None
            },
            None => r is None,
        },
{
    let v = crate::text::to_chars(s);
    let signed = v.len() > 0 && v[0] == '+';
    let rest = if signed {
        crate::text::slice_range(v.as_slice(), 1, v.len())
    } else {
        crate::text::slice_range(v.as_slice(), 0, v.len())
    };
    proof {
        if signed {
            assert(rest@ =~= s@.skip(1));
        } else {
            assert(rest@ =~= s@);
        }
    }
    let limit: u128 = 0xffff_ffff_ffff_ffff;
    match digits_capped(rest.as_slice(), limit) {
        None => None,
        Some(m) => {
            if m > limit {
                None
            } else {
                Some(m as u64)
            }
        },
    }
}

/// Decimal digits of `n`, no leading zeros (`0` for zero).
pub open spec fn decimal(n: nat) -> Seq<char>
    decreases n,
{
    if n < 10 {
        seq![(('0' as int) + n) as char]
    } else {
        decimal(n / 10).push((('0' as int) + (n % 10)) as char)
    }
}

/// `n.to_string()`: the decimal digits of `n`.
pub fn usize_to_string(n: usize) -> (r: String)
    ensures
        r@ == decimal(n as nat),
{
    u64_to_string(n as u64)
}

/// `n.to_string()`: the decimal digits of `n`.
pub fn u64_to_string(n: u64) -> (r: String)
    ensures
        r@ == decimal(n as nat),
{
    let mut digits: Vec<char> = Vec::new();
    let mut m: u64 = n;
    let ghost mut acc: Seq<char> = Seq::empty();
    while m >= 10
        invariant
            decimal(n as nat) == decimal(m as nat) + acc,
            digits@ == acc.reverse(),
        decreases m,
    {
        let c = char_of_digit((m % 10) as usize);
        proof {
            assert(decimal(m as nat) == decimal((m / 10) as nat).push(c));
            assert(decimal((m / 10) as nat).push(c) + acc =~= decimal((m / 10) as nat) + (seq![c] + acc));
            acc = seq![c] + acc;
        }
        digits.push(c);
        proof {
            assert(digits@ =~= acc.reverse());
        }
        m = m / 10;
    }
    let c = char_of_digit(m as usize);
    proof {
        assert(decimal(m as nat) =~= seq![c]);
        acc = seq![c] + acc;
    }
    digits.push(c);
    proof {
        assert(digits@ =~= acc.reverse());
        assert(decimal(n as nat) == acc);
    }
    let mut out: Vec<char> = Vec::new();
    let mut k: usize = digits.len();
    while k > 0
        invariant
            k <= digits@.len(),
            out@ == digits@.subrange(k as int, digits@.len() as int).reverse(),
        decreases k,
    {
        out.push(digits[k - 1]);
        k = k - 1;
        proof {
            assert(out@ =~= digits@.subrange(k as int, digits@.len() as int).reverse());
        }
    }
    proof {
        assert(digits@.subrange(0, digits@.len() as int) =~= digits@);
        assert(acc.reverse().reverse() =~= acc);
    }
    crate::text::from_chars(out.as_slice())
}

fn char_of_digit(d: usize) -> (c: char)
    requires
        d < 10,
    ensures
        c == (('0' as int) + d) as char,
{
    if d == 0 {
        '0'
    } else if d == 1 {
        '1'
    } else if d == 2 {
        '2'
    } else if d == 3 {
        '3'
    } else if d == 4 {
        '4'
    } else if d == 5 {
        '5'
    } else if d == 6 {
        '6'
    } else if d == 7 {
        '7'
    } else if d == 8 {
        '8'
    } else {
        '9'
    }
}

/// `d` left-padded with `0` to at least `width` characters (`{:0width}`).
pub open spec fn zero_padded(d: Seq<char>, width: nat) -> Seq<char> {
    if d.len() < width {
        Seq::new((width - d.len()) as nat, |i: int| '0') + d
    } else {
        d
    }
}

/// `format!("{:05}", n)`.
pub fn u64_padded5(n: u64) -> (r: String)
    ensures
        r@ == zero_padded(decimal(n as nat), 5),
{
    let d = u64_to_string(n);
    let c = crate::text::to_chars(d.as_str());
    let mut out: Vec<char> = Vec::new();
    let mut k: usize = c.len();
    while k < 5
        invariant
            c.len() <= k <= 5 || (k == c.len() && k >= 5),
            out@ == Seq::new((k - c@.len()) as nat, |i: int| '0'),
        decreases 5 - k,
    {
        out.push('0');
        k = k + 1;
        proof {
            assert(out@ =~= Seq::new((k - c@.len()) as nat, |i: int| '0'));
        }
    }
    let mut j: usize = 0;
    let ghost pad = out@;
    while j < c.len()
        invariant
            j <= c@.len(),
            out@ == pad + c@.take(j as int),
        decreases c@.len() - j,
    {
        out.push(c[j]);
        j = j + 1;
        proof {
            assert(out@ =~= pad + c@.take(j as int));
        }
    }
    proof {
        assert(c@.take(c@.len() as int) =~= c@);
        if c@.len() >= 5 {
            assert(pad =~= Seq::<char>::empty());
            assert(out@ =~= c@);
        }
    }
    crate::text::from_chars(out.as_slice())
}

} // verus!
