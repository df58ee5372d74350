//! A verified reader for nonnegative decimal number text (the form JSON
//! numbers take), producing fixed-point micro-units.
//!
//! Grammar: one or more digits, optionally followed by `.` and one or more
//! digits. Fraction digits beyond the sixth are truncated (micro-unit
//! precision). Signs, exponents and anything else are rejected, as are
//! values above `SAFE_AMOUNT_MICRO`: a quote that cannot be represented is
//! reported as unusable, never mis-read.

use vstd::prelude::*;

use crate::bytes::find_byte;
use crate::price::SAFE_AMOUNT_MICRO;

verus! {

/// ASCII digit.
pub open spec fn is_digit(b: u8) -> bool {
    48 <= b <= 57
}

/// Every byte is an ASCII digit.
pub open spec fn all_digits(s: Seq<u8>) -> bool {
    forall|i: int| 0 <= i < s.len() ==> is_digit(#[trigger] s[i])
}

/// The number the digit string denotes.
pub open spec fn digits_val(s: Seq<u8>) -> int
    decreases s.len(),
{
    if s.len() == 0 {
        0
    } else {
        digits_val(s.drop_last()) * 10 + (s.last() - 48)
    }
}

/// Ten to the `n`th, for small `n`.
pub open spec fn pow10(n: int) -> int
    decreases n,
{
    if n <= 0 {
        1
    } else {
        10 * pow10(n - 1)
    }
}

/// The first index holding `b`, or the length when absent.
pub open spec fn first_index_of(s: Seq<u8>, b: u8) -> int
    decreases s.len(),
{
    if s.len() == 0 {
        0
    } else if s[0] == b {
        0
    } else {
        1 + first_index_of(s.drop_first(), b)
    }
}

/// Where the decimal point of `s` sits (the length when there is none).
pub open spec fn dot_of(s: Seq<u8>) -> int {
    first_index_of(s, 46)
}

/// Well-formed nonnegative decimal text: digits, optionally `.` and more
/// digits.
pub open spec fn wf_decimal(s: Seq<u8>) -> bool {
    let d = dot_of(s);
    if d == s.len() {
        s.len() >= 1 && all_digits(s)
    } else {
        1 <= d && d + 2 <= s.len() && all_digits(s.take(d)) && all_digits(s.skip(d + 1))
    }
}

/// The fraction digits as micro-units: the first six digits, padded with
/// zeros; further digits are truncated.
pub open spec fn frac_micro(f: Seq<u8>) -> int {
    if f.len() >= 6 {
        digits_val(f.take(6))
    } else {
        digits_val(f) * pow10(6 - f.len())
    }
}

/// The denoted value in micro-units (fraction truncated past six digits).
pub open spec fn dec_micro(s: Seq<u8>) -> int {
    let d = dot_of(s);
    let ip = s.take(d);
    let fp = if d == s.len() {
        Seq::<u8>::empty()
    } else {
        s.skip(d + 1)
    };
    digits_val(ip) * 1_000_000 + frac_micro(fp)
}

/// A digit string denotes a nonnegative number.
proof fn lemma_digits_val_nonneg(s: Seq<u8>)
    requires
        all_digits(s),
    ensures
        digits_val(s) >= 0,
    decreases s.len(),
{
    if s.len() > 0 {
        assert(all_digits(s.drop_last())) by {
            assert(forall|i: int|
                0 <= i < s.drop_last().len() ==> #[trigger] s.drop_last()[i] == s[i]);
        }
        lemma_digits_val_nonneg(s.drop_last());
    }
}

/// A digit string of length `n` denotes less than ten to the `n`th.
proof fn lemma_digits_val_upper(s: Seq<u8>)
    requires
        all_digits(s),
    ensures
        digits_val(s) < pow10(s.len() as int),
    decreases s.len(),
{
    if s.len() > 0 {
        assert(all_digits(s.drop_last())) by {
            assert(forall|i: int|
                0 <= i < s.drop_last().len() ==> #[trigger] s.drop_last()[i] == s[i]);
        }
        lemma_digits_val_upper(s.drop_last());
    }
}

/// A prefix of a digit string never denotes more than the whole.
proof fn lemma_digits_val_take_le(s: Seq<u8>, i: int)
    requires
        all_digits(s),
        0 <= i <= s.len(),
    ensures
        digits_val(s.take(i)) <= digits_val(s),
    decreases s.len(),
{
    if i == s.len() {
        assert(s.take(i) =~= s);
    } else {
        assert(all_digits(s.drop_last())) by {
            assert(forall|j: int|
                0 <= j < s.drop_last().len() ==> #[trigger] s.drop_last()[j] == s[j]);
        }
        assert(s.take(i) =~= s.drop_last().take(i));
        lemma_digits_val_take_le(s.drop_last(), i);
        lemma_digits_val_nonneg(s.drop_last());
    }
}

/// Ties the search for a byte to `first_index_of`.
proof fn lemma_first_index_of(s: Seq<u8>, b: u8, i: int)
    requires
        0 <= i <= s.len(),
        forall|j: int| 0 <= j < i ==> s[j] != b,
        i < s.len() ==> s[i] == b,
        i == s.len() ==> forall|j: int| 0 <= j < s.len() ==> s[j] != b,
    ensures
        first_index_of(s, b) == i,
    decreases s.len(),
{
    if s.len() == 0 {
    } else if i == 0 {
    } else {
        assert(s[0] != b);
        lemma_first_index_of(s.drop_first(), b, i - 1);
    }
}

/// Read nonnegative decimal text as micro-units. Returns the denoted value
/// exactly when the text is well-formed and the value representable; `None`
/// otherwise.
#[verifier::loop_isolation(false)]
pub fn parse_decimal_micro(s: &[u8]) -> (r: Option<i64>)
    ensures
        match r {
            Some(v) => wf_decimal(s@) && 0 <= v == dec_micro(s@) <= SAFE_AMOUNT_MICRO,
            None => !(wf_decimal(s@) && dec_micro(s@) <= SAFE_AMOUNT_MICRO),
        },
{
    let n = s.len();
    let dot = match find_byte(s, 46) {
        Some(i) => {
            proof {
                lemma_first_index_of(s@, 46, i as int);
            }
            i
        },
        None => {
            proof {
                lemma_first_index_of(s@, 46, n as int);
            }
            n
        },
    };
    let ghost ip = s@.take(dot as int);
    let ghost fp = if dot == n {
        Seq::<u8>::empty()
    } else {
        s@.skip(dot as int + 1)
    };
    if dot == 0 {
        return None;
    }
    if dot < n && dot + 1 == n {
        return None;
    }
    // integer part
    let mut acc: i64 = 0;
    let mut i: usize = 0;
    while i < dot
        invariant
            0 <= i <= dot <= n == s@.len(),
            1 <= dot,
            dot < n ==> dot + 2 <= n,
            dot == dot_of(s@),
            ip == s@.take(dot as int),
            fp == if dot == n {
                Seq::<u8>::empty()
            } else {
                s@.skip(dot as int + 1)
            },
            all_digits(ip.take(i as int)),
            acc == digits_val(ip.take(i as int)),
            0 <= acc <= 90_000_000,
        decreases dot - i,
    {
        let b = s[i];
        proof {
            assert(ip[i as int] == s@[i as int]);
        }
        if b < 48 || b > 57 {
            proof {
                assert(!is_digit(ip[i as int]));
                assert(!all_digits(ip));
            }
            return None;
        }
        let next = acc * 10 + (b - 48) as i64;
        proof {
            assert(ip.take(i + 1 as int).drop_last() =~= ip.take(i as int));
            assert(ip.take(i + 1 as int).last() == ip[i as int]);
            assert(all_digits(ip.take(i + 1 as int))) by {
                assert(forall|j: int|
                    0 <= j < i + 1 ==> #[trigger] ip.take(i + 1 as int)[j] == ip[j]);
            }
        }
        if next > 90_000_000 {
            proof {
                if wf_decimal(s@) {
                    lemma_frac_micro_in_range(fp);
                    assert(all_digits(ip));
                    lemma_digits_val_take_le(ip, i + 1 as int);
                    assert(digits_val(ip) >= next > 90_000_000);
                    assert(dec_micro(s@) == digits_val(ip) * 1_000_000 + frac_micro(fp));
                    vstd::arithmetic::mul::lemma_mul_inequality(
                        90_000_001,
                        digits_val(ip),
                        1_000_000,
                    );
                    assert(dec_micro(s@) > SAFE_AMOUNT_MICRO);
                }
            }
            return None;
        }
        acc = next;
        i += 1;
    }
    proof {
        assert(ip.take(dot as int) =~= ip);
        if dot == n {
            assert(ip =~= s@);
        }
    }
    // fraction part
    let mut frac: i64 = 0;
    let mut fcount: usize = 0;
    if dot < n {
        let ghost flen = fp.len();
        let mut j: usize = dot + 1;
        while j < n
            invariant
                dot < n == s@.len(),
                dot + 1 <= j <= n,
                fp == s@.skip(dot as int + 1),
                flen == fp.len() == n - dot - 1,
                all_digits(fp.take(j - dot - 1 as int)),
                fcount == if j - dot - 1 <= 6 {
                    j - dot - 1
                } else {
                    6usize as int
                },
                frac == digits_val(fp.take(fcount as int)),
                0 <= frac < 1_000_000,
            decreases n - j,
        {
            let b = s[j];
            proof {
                assert(fp[j - dot - 1 as int] == s@[j as int]);
            }
            if b < 48 || b > 57 {
                proof {
                    assert(!is_digit(fp[j - dot - 1 as int]));
                    assert(!all_digits(fp));
                }
                return None;
            }
            proof {
                assert(fp.take(j - dot as int).drop_last() =~= fp.take(j - dot - 1 as int));
                assert(all_digits(fp.take(j - dot as int))) by {
                    assert(forall|q: int|
                        0 <= q < j - dot ==> #[trigger] fp.take(j - dot as int)[q] == fp[q]);
                }
            }
            if fcount < 6 {
                proof {
                    let g = fp.take(fcount + 1 as int);
                    assert(g.drop_last() =~= fp.take(fcount as int));
                    assert(g.last() == fp[fcount as int]);
                    assert(fp[fcount as int] == s@[j as int]);
                    assert(all_digits(g)) by {
                        assert(forall|q: int| 0 <= q < fcount + 1 ==> #[trigger] g[q] == fp[q]);
                    }
                    lemma_digits_val_upper(g);
                    lemma_pow10_le(fcount + 1, 6);
                    lemma_pow10_6();
                }
                frac = frac * 10 + (b - 48) as i64;
                fcount += 1;
            }
            j += 1;
        }
        proof {
            assert(fp.take(n - dot - 1 as int) =~= fp);
            if flen < 6 {
                assert(fcount == flen);
                assert(fp.take(fcount as int) =~= fp);
                vstd::arithmetic::mul::lemma_mul_basics(digits_val(fp));
                assert(pow10(0) == 1);
                assert(frac == digits_val(fp) * pow10(fcount - flen));
            }
        }
        // pad to six fraction digits
        while fcount < 6
            invariant
                flen == fp.len(),
                all_digits(fp),
                fcount <= 6,
                flen >= 6 ==> fcount == 6 && frac == digits_val(fp.take(6)),
                flen < 6 ==> flen <= fcount && frac == digits_val(fp) * pow10(
                    fcount - flen,
                ),
                0 <= frac < 1_000_000,
            decreases 6 - fcount,
        {
            proof {
                assert(flen < 6);
                let dv = digits_val(fp);
                let p = pow10(fcount - flen);
                assert(pow10(fcount + 1 - flen) == 10 * p);
                assert(frac * 10 == dv * (10 * p)) by {
                    vstd::arithmetic::mul::lemma_mul_is_associative(dv, p, 10);
                    vstd::arithmetic::mul::lemma_mul_is_commutative(p, 10);
                    vstd::arithmetic::mul::lemma_mul_is_commutative(dv, 10 * p);
                    vstd::arithmetic::mul::lemma_mul_is_associative(10, dv, p);
                }
                lemma_frac_bound(fp, fcount + 1 - flen + flen);
                assert(dv * pow10(fcount + 1 - flen) < 1_000_000);
            }
            frac = frac * 10;
            fcount += 1;
        }
        proof {
            if flen >= 6 {
                assert(frac == frac_micro(fp));
            } else {
                assert(frac == digits_val(fp) * pow10(6 - flen));
                assert(frac == frac_micro(fp));
            }
        }
    } else {
        proof {
            assert(digits_val(Seq::<u8>::empty()) == 0);
            vstd::arithmetic::mul::lemma_mul_basics(pow10(6));
            assert(frac_micro(fp) == 0);
        }
    }
    proof {
        assert(frac == frac_micro(fp));
        lemma_digits_val_nonneg(ip);
    }
    let v = acc * 1_000_000 + frac;
    proof {
        assert(wf_decimal(s@));
        assert(v == dec_micro(s@));
    }
    if v > SAFE_AMOUNT_MICRO {
        return None;
    }
    Some(v)
}

/// The fraction part of a well-formed decimal contributes less than one
/// whole unit, and never negatively.
proof fn lemma_frac_micro_in_range(f: Seq<u8>)
    requires
        all_digits(f),
    ensures
        0 <= frac_micro(f) < 1_000_000,
{
    lemma_pow10_6();
    if f.len() >= 6 {
        assert(all_digits(f.take(6))) by {
            assert(forall|j: int| 0 <= j < 6 ==> #[trigger] f.take(6)[j] == f[j]);
        }
        lemma_digits_val_nonneg(f.take(6));
        lemma_digits_val_upper(f.take(6));
    } else {
        lemma_digits_val_nonneg(f);
        lemma_pow10_pos(6 - f.len());
        vstd::arithmetic::mul::lemma_mul_nonnegative(digits_val(f), pow10(6 - f.len()));
        lemma_frac_bound(f, 6);
    }
}

/// Ten to the sixth, as a number.
proof fn lemma_pow10_6()
    ensures
        pow10(6) == 1_000_000,
{
    reveal_with_fuel(pow10, 8);
}

/// Ten to any power is at least one.
proof fn lemma_pow10_pos(m: int)
    ensures
        pow10(m) >= 1,
    decreases
            if m <= 0 {
                0
            } else {
                m
            },
{
    if m > 0 {
        lemma_pow10_pos(m - 1);
    }
}

/// `pow10` is monotone.
proof fn lemma_pow10_le(a: int, b: int)
    requires
        a <= b,
    ensures
        pow10(a) <= pow10(b),
    decreases
            if b <= 0 {
                0
            } else {
                b
            },
{
    if b > 0 && a < b {
        lemma_pow10_le(a, b - 1);
        lemma_pow10_pos(b - 1);
    }
}

/// Padding a short fraction keeps it under one million.
proof fn lemma_frac_bound(fp: Seq<u8>, k: int)
    requires
        all_digits(fp),
        fp.len() <= k <= 6,
    ensures
        digits_val(fp) * pow10(k - fp.len()) < 1_000_000,
{
    lemma_digits_val_upper(fp);
    lemma_digits_val_nonneg(fp);
    lemma_pow10_pos(k - fp.len());
    assert(digits_val(fp) * pow10(k - fp.len()) <= (pow10(fp.len() as int) - 1) * pow10(
        k - fp.len(),
    )) by {
        vstd::arithmetic::mul::lemma_mul_inequality(
            digits_val(fp),
            pow10(fp.len() as int) - 1,
            pow10(k - fp.len()),
        );
    }
    assert((pow10(fp.len() as int) - 1) * pow10(k - fp.len()) == pow10(fp.len() as int) * pow10(
        k - fp.len(),
    ) - pow10(k - fp.len())) by {
        vstd::arithmetic::mul::lemma_mul_is_commutative(
            pow10(fp.len() as int) - 1,
            pow10(k - fp.len()),
        );
        vstd::arithmetic::mul::lemma_mul_is_distributive_sub(
            pow10(k - fp.len()),
            pow10(fp.len() as int),
            1,
        );
        vstd::arithmetic::mul::lemma_mul_is_commutative(
            pow10(k - fp.len()),
            pow10(fp.len() as int),
        );
    }
    lemma_pow10_mul(fp.len() as int, k - fp.len());
    lemma_pow10_le(k, 6);
    assert(pow10(6) == 1_000_000) by {
        reveal_with_fuel(pow10, 8);
    }
}

/// `pow10` turns addition into multiplication.
proof fn lemma_pow10_mul(a: int, b: int)
    requires
        a >= 0,
        b >= 0,
    ensures
        pow10(a) * pow10(b) == pow10(a + b),
    decreases a,
{
    if a == 0 {
    } else {
        lemma_pow10_mul(a - 1, b);
        assert(pow10(a) * pow10(b) == 10 * pow10(a - 1) * pow10(b));
        vstd::arithmetic::mul::lemma_mul_is_associative(10, pow10(a - 1), pow10(b));
    }
}

} // verus!
