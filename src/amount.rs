//! Amounts as text: a decimal with at most four fractional digits, held as a
//! whole number of ten-thousandths.
use vstd::prelude::*;

verus! {

/// Ten-thousandths in one unit of currency.
pub const SCALE: u64 = 10000;

pub open spec fn is_digit(b: u8) -> bool {
    48 <= b <= 57
}

pub open spec fn all_digits(s: Seq<u8>) -> bool {
    forall|i: int| 0 <= i < s.len() ==> is_digit(#[trigger] s[i])
}

/// The number that the decimal digits `s` write.
pub open spec fn digits_value(s: Seq<u8>) -> nat
    decreases s.len(),
{
    if s.len() == 0 {
        0
    } else {
        digits_value(s.drop_last()) * 10 + (s.last() - 48) as nat
    }
}

pub open spec fn pow10(n: nat) -> nat
    decreases n,
{
    if n == 0 {
        1
    } else {
        10 * pow10((n - 1) as nat)
    }
}

/// The amount, in ten-thousandths, that `s` writes: digits, then optionally a
/// point and at most four digits, with at least one digit in all.
pub open spec fn amount_value(s: Seq<u8>) -> Option<int> {
    if all_digits(s) && s.len() > 0 {
        Some(digits_value(s) * SCALE)
    } else if exists|k: int| 0 <= k < s.len() && s[k] == 46 {
        let k = choose|k: int| 0 <= k < s.len() && s[k] == 46;
        let whole = s.take(k);
        let frac = s.skip(k + 1);
        if all_digits(whole) && all_digits(frac) && frac.len() <= 4 && s.len() > 1 {
            Some(digits_value(whole) * SCALE + digits_value(frac) * pow10((4 - frac.len()) as nat))
        } else {
            None
        }
    } else {
        None
    }
}

proof fn lemma_digits_value_grows(s: Seq<u8>, i: int)
    requires
        0 <= i <= s.len(),
    ensures
        digits_value(s.take(i)) <= digits_value(s),
    decreases s.len(),
{
    if i < s.len() {
        lemma_digits_value_grows(s.drop_last(), i);
        assert(s.drop_last().take(i) =~= s.take(i));
    } else {
        assert(s.take(i) =~= s);
    }
}

/// Reads the digits `s[from..to]`, or `None` when a byte is not a digit or
/// the value passes `limit`.
fn read_digits(s: &[u8], from: usize, to: usize, limit: u64) -> (r: Option<u64>)
    requires
        from <= to <= s@.len(),
    ensures
        match r {
            Some(v) => all_digits(s@.subrange(from as int, to as int)) && v == digits_value(
                s@.subrange(from as int, to as int),
            ) && v <= limit,
            None => !all_digits(s@.subrange(from as int, to as int)) || digits_value(
                s@.subrange(from as int, to as int),
            ) > limit,
        },
{
    let mut v: u64 = 0;
    let mut i: usize = from;
    while i < to
        invariant
            from <= i <= to <= s@.len(),
            all_digits(s@.subrange(from as int, i as int)),
            v == digits_value(s@.subrange(from as int, i as int)),
            v <= limit,
        decreases to - i,
    {
        let b = s[i];
        proof {
            assert(s@.subrange(from as int, i as int + 1).drop_last() =~= s@.subrange(
                from as int,
                i as int,
            ));
        }
        if !(48 <= b && b <= 57) {
            proof {
                assert(s@.subrange(from as int, to as int)[i - from] == b);
            }
            return None;
        }
        let d = (b - 48) as u64;
        if d > limit || v > (limit - d) / 10 {
            proof {
                let whole = s@.subrange(from as int, to as int);
                assert(whole.take(i - from + 1) =~= s@.subrange(from as int, i as int + 1));
                lemma_digits_value_grows(whole, i - from + 1);
                if d <= limit {
                    assert(v * 10 + d > limit) by (nonlinear_arith)
                        requires
                            v > (limit - d) / 10,
                            d <= limit,
                    ;
                }
            }
            return None;
        }
        proof {
            assert(v * 10 + d <= limit) by (nonlinear_arith)
                requires
                    v <= (limit - d) / 10,
                    d <= limit,
            ;
        }
        v = v * 10 + d;
        i = i + 1;
    }
    Some(v)
}

/// Reads an amount written as digits with an optional point and at most four
/// fractional digits (`12`, `1.5`, `0.0001`, `.5`, `3.`), in ten-thousandths.
/// `None` when the text is not such a number or its value passes `u64::MAX`.
pub fn parse_amount(s: &[u8]) -> (r: Option<u64>)
    ensures
        match r {
            Some(v) => amount_value(s@) == Some(v as int),
            None => amount_value(s@) is None || amount_value(s@)->Some_0 > u64::MAX,
        },
{
    let len = s.len();
    let mut k: usize = 0;
    while k < len && s[k] != 46
        invariant
            k <= len == s@.len(),
            forall|j: int| 0 <= j < k ==> s@[j] != 46,
        decreases len - k,
    {
        k = k + 1;
    }
    proof {
        assert(s@.subrange(0, len as int) =~= s@);
    }
    if k == len {
        proof {
            assert(!exists|j: int| 0 <= j < s@.len() && s@[j] == 46);
        }
        if len == 0 {
            return None;
        }
        proof {
            assert(all_digits(s@) ==> amount_value(s@) == Some(digits_value(s@) * SCALE));
        }
        return match read_digits(s, 0, len, u64::MAX / SCALE) {
            Some(w) => {
                proof {
                    assert(w * SCALE <= u64::MAX) by (nonlinear_arith)
                        requires
                            w <= u64::MAX / SCALE,
                            SCALE == 10000,
                    ;
                }
                Some(w * SCALE)
            },
            None => {
                proof {
                    let w = digits_value(s@);
                    if all_digits(s@) {
                        assert(w * SCALE > u64::MAX) by (nonlinear_arith)
                            requires
                                w > u64::MAX / SCALE,
                                SCALE == 10000,
                        ;
                    }
                }
                None
            },
        };
    }
    let ghost sv = s@;
    proof {
        let c = choose|j: int| 0 <= j < sv.len() && sv[j] == 46;
        assert(0 <= k < sv.len() && sv[k as int] == 46);
        assert(!is_digit(sv[k as int]));
        assert(!all_digits(sv));
        assert(sv.take(k as int) =~= sv.subrange(0, k as int));
        assert(sv.skip(k + 1) =~= sv.subrange(k + 1, len as int));
        if c != k {
            assert(c > k);
            assert(sv.take(c)[k as int] == 46);
        }
    }
    let ghost pick = choose|j: int| 0 <= j < sv.len() && sv[j] == 46;
    let frac_len = len - k - 1;
    if len == 1 || frac_len > 4 {
        proof {
            if pick != k {
                assert(sv.take(pick)[k as int] == 46);
            }
        }
        return None;
    }
    let whole = read_digits(s, 0, k, u64::MAX / SCALE);
    let frac = read_digits(s, k + 1, len, u64::MAX);
    proof {
        reveal_with_fuel(pow10, 5);
        if pick != k {
            assert(pick > k);
            assert(sv.take(pick)[k as int] == 46);
            assert(!all_digits(sv.take(pick)));
            assert(sv.subrange(k + 1, len as int)[pick - k - 1] == 46);
            assert(!all_digits(sv.subrange(k + 1, len as int)));
        }
    }
    let (w, f) = match (whole, frac) {
        (Some(w), Some(f)) => (w, f),
        _ => {
            proof {
                assert(pow10((4 - frac_len) as nat) >= 1);
                let ws = sv.subrange(0, k as int);
                let fs = sv.subrange(k + 1, len as int);
                let p = pow10((4 - frac_len) as nat);
                if pick == k && all_digits(ws) && all_digits(fs) {
                    let wv = digits_value(ws);
                    let fv = digits_value(fs);
                    assert(amount_value(sv) == Some(wv * SCALE + fv * p));
                    if whole is None {
                        assert(wv * SCALE > u64::MAX) by (nonlinear_arith)
                            requires
                                wv > u64::MAX / SCALE,
                                SCALE == 10000,
                        ;
                        assert(fv * p >= 0) by (nonlinear_arith)
                            requires
                                p >= 1,
                        ;
                    } else {
                        assert(fv * p >= fv) by (nonlinear_arith)
                            requires
                                p >= 1,
                        ;
                    }
                }
            }
            return None;
        },
    };
    proof {
        assert(pick == k);
        reveal_with_fuel(pow10, 5);
        assert(w * SCALE <= u64::MAX) by (nonlinear_arith)
            requires
                w <= u64::MAX / SCALE,
                SCALE == 10000,
        ;
    }
    let scale: u64 = if frac_len == 0 {
        10000
    } else if frac_len == 1 {
        1000
    } else if frac_len == 2 {
        100
    } else if frac_len == 3 {
        10
    } else {
        1
    };
    match f.checked_mul(scale) {
        Some(fs) => (w * SCALE).checked_add(fs),
        None => None,
    }
}

/// Splits an amount in ten-thousandths into its sign, its whole units and its
/// four fractional digits, as it is written out.
pub fn amount_parts(v: i128) -> (r: (bool, u128, u64))
    ensures
        r.0 == (v < 0),
        r.2 < SCALE,
        r.1 * SCALE + r.2 == if v < 0 {
            -v
        } else {
            v as int
        },
{
    let magnitude: u128 = if v < 0 {
        (0 - (v + 1)) as u128 + 1
    } else {
        v as u128
    };
    let whole = magnitude / 10000;
    let frac = (magnitude % 10000) as u64;
    (v < 0, whole, frac)
}

} // verus!
