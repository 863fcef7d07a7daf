//! Parsing of decimal strings into fixed-point mantissas.
//!
//! Prices and amounts arrive on the wire as decimal strings such as
//! `"41006.8"`. [`parse_fixed`] turns such a string into the scaled `i128`
//! mantissa of [`crate::basic_types::Price`]: an optional leading minus, at
//! least one integer digit, and optionally a dot followed by 1 to 16
//! fraction digits. Timestamps arrive as strings of digits; [`parse_u64`]
//! reads those. Both reject anything else, and both reject values out of
//! range (for the mantissa, magnitudes above `i128::MAX`; the one extreme
//! negative mantissa is rejected rather than special-cased).

use vstd::prelude::*;
use vstd::arithmetic::mul::*;

use crate::basic_types::{FIXED_SCALE, FIXED_SCALE_DIGITS};

verus! {

/// `c` is a decimal digit.
pub open spec fn is_digit(c: char) -> bool {
    48 <= c as u32 <= 57
}

/// Numeric value of a digit.
pub open spec fn digit_val(c: char) -> int {
    c as u32 - 48
}

/// Every character of `s` is a decimal digit.
pub open spec fn all_digits(s: Seq<char>) -> bool {
    forall|i: int| 0 <= i < s.len() ==> is_digit(#[trigger] s[i])
}

/// The number a digit string denotes, most significant digit first.
pub open spec fn digits_val(s: Seq<char>) -> int
    decreases s.len(),
{
    if s.len() == 0 {
        0
    } else {
        digits_val(s.drop_last()) * 10 + digit_val(s.last())
    }
}

/// Ten to the `n`.
pub open spec fn pow10(n: nat) -> int
    decreases n,
{
    if n == 0 {
        1
    } else {
        10 * pow10((n - 1) as nat)
    }
}

/// Index of the first `'.'` of `s`, or `-1` when there is none.
pub open spec fn find_dot(s: Seq<char>) -> int
    decreases s.len(),
{
    if s.len() == 0 {
        -1
    } else if s[0] == '.' {
        0
    } else {
        let r = find_dot(s.skip(1));
        if r == -1 {
            -1
        } else {
            r + 1
        }
    }
}

/// An unsigned decimal: either all digits, or digits, a dot, and 1 to 16
/// fraction digits.
pub open spec fn wf_unsigned(s: Seq<char>) -> bool {
    let d = find_dot(s);
    if d == -1 {
        s.len() >= 1 && all_digits(s)
    } else {
        &&& d >= 1
        &&& all_digits(s.take(d))
        &&& 1 <= s.len() - d - 1 <= FIXED_SCALE_DIGITS
        &&& all_digits(s.skip(d + 1))
    }
}

/// The mantissa a well-formed unsigned decimal denotes, scaled by `10^16`.
pub open spec fn unsigned_mantissa(s: Seq<char>) -> int {
    let d = find_dot(s);
    if d == -1 {
        digits_val(s) * (FIXED_SCALE as int)
    } else {
        digits_val(s.take(d)) * (FIXED_SCALE as int) + digits_val(s.skip(d + 1)) * pow10(
            (FIXED_SCALE_DIGITS - (s.len() - d - 1)) as nat,
        )
    }
}

/// The fixed-point mantissa a decimal string denotes: `None` for anything
/// malformed or out of range.
pub open spec fn spec_parse_fixed(s: Seq<char>) -> Option<i128> {
    let neg = s.len() >= 1 && s[0] == '-';
    let body = if neg {
        s.skip(1)
    } else {
        s
    };
    if !wf_unsigned(body) {
        None
    } else {
        let m = unsigned_mantissa(body);
        if m > i128::MAX {
            None
        } else if neg {
            Some((-m) as i128)
        } else {
            Some(m as i128)
        }
    }
}

/// The number a digit string denotes: `None` for anything malformed or
/// beyond `u64::MAX`.
pub open spec fn spec_parse_u64(s: Seq<char>) -> Option<u64> {
    if s.len() >= 1 && all_digits(s) && digits_val(s) <= u64::MAX {
        Some(digits_val(s) as u64)
    } else {
        None
    }
}

proof fn lemma_find_dot_at(s: Seq<char>, k: int)
    requires
        0 <= k <= s.len(),
        forall|j: int| 0 <= j < k ==> s[j] != '.',
        k < s.len() ==> s[k] == '.',
    ensures
        find_dot(s) == if k == s.len() {
            -1
        } else {
            k
        },
    decreases s.len(),
{
    if s.len() == 0 {
    } else if k == 0 {
    } else {
        assert forall|j: int| 0 <= j < k - 1 implies s.skip(1)[j] != '.' by {
            assert(s.skip(1)[j] == s[j + 1]);
        }
        if k - 1 < s.len() - 1 {
            assert(s.skip(1)[k - 1] == s[k]);
        }
        lemma_find_dot_at(s.skip(1), k - 1);
    }
}

proof fn lemma_digits_val_nonneg(s: Seq<char>)
    requires
        all_digits(s),
    ensures
        digits_val(s) >= 0,
    decreases s.len(),
{
    if s.len() > 0 {
        assert forall|i: int| 0 <= i < s.drop_last().len() implies is_digit(
            #[trigger] s.drop_last()[i],
        ) by {
            assert(s.drop_last()[i] == s[i]);
        }
        lemma_digits_val_nonneg(s.drop_last());
    }
}

proof fn lemma_digits_val_take_succ(s: Seq<char>, k: int)
    requires
        0 <= k < s.len(),
    ensures
        digits_val(s.take(k + 1)) == digits_val(s.take(k)) * 10 + digit_val(s[k]),
{
    assert(s.take(k + 1).drop_last() =~= s.take(k));
    assert(s.take(k + 1).last() == s[k]);
}

proof fn lemma_all_digits_take(s: Seq<char>, k: int)
    requires
        all_digits(s),
        0 <= k <= s.len(),
    ensures
        all_digits(s.take(k)),
{
    assert forall|i: int| 0 <= i < s.take(k).len() implies is_digit(#[trigger] s.take(k)[i]) by {
        assert(s.take(k)[i] == s[i]);
    }
}

proof fn lemma_digits_val_prefix_le(s: Seq<char>, k: int)
    requires
        all_digits(s),
        0 <= k <= s.len(),
    ensures
        digits_val(s.take(k)) <= digits_val(s),
    decreases s.len() - k,
{
    if k == s.len() {
        assert(s.take(k) =~= s);
    } else {
        lemma_digits_val_take_succ(s, k);
        lemma_all_digits_take(s, k);
        lemma_digits_val_nonneg(s.take(k));
        lemma_digits_val_prefix_le(s, k + 1);
    }
}

proof fn lemma_digits_val_bound(s: Seq<char>)
    requires
        all_digits(s),
    ensures
        0 <= digits_val(s) < pow10(s.len()),
    decreases s.len(),
{
    if s.len() == 0 {
    } else {
        assert forall|i: int| 0 <= i < s.drop_last().len() implies is_digit(
            #[trigger] s.drop_last()[i],
        ) by {
            assert(s.drop_last()[i] == s[i]);
        }
        lemma_digits_val_bound(s.drop_last());
        assert(digit_val(s.last()) <= 9);
    }
}

proof fn lemma_pow10_pos(n: nat)
    ensures
        pow10(n) >= 1,
    decreases n,
{
    if n > 0 {
        lemma_pow10_pos((n - 1) as nat);
    }
}

proof fn lemma_pow10_mono(a: nat, b: nat)
    requires
        a <= b,
    ensures
        pow10(a) <= pow10(b),
    decreases b,
{
    if a < b {
        lemma_pow10_mono(a, (b - 1) as nat);
        lemma_pow10_pos((b - 1) as nat);
    }
}

proof fn lemma_pow10_add(a: nat, b: nat)
    ensures
        pow10((a + b) as nat) == pow10(a) * pow10(b),
    decreases a,
{
    if a == 0 {
    } else {
        lemma_pow10_add((a - 1) as nat, b);
        lemma_mul_is_associative(10, pow10((a - 1) as nat), pow10(b));
    }
}

proof fn lemma_pow10_scale()
    ensures
        pow10(FIXED_SCALE_DIGITS as nat) == FIXED_SCALE as int,
{
    reveal_with_fuel(pow10, 17);
}

/// A well-formed unsigned decimal's mantissa is at least the value of its
/// integer digits.
proof fn lemma_mantissa_ge_int(body: Seq<char>)
    requires
        wf_unsigned(body),
    ensures
        unsigned_mantissa(body) >= digits_val(
            if find_dot(body) == -1 {
                body
            } else {
                body.take(find_dot(body))
            },
        ),
{
    let d = find_dot(body);
    if d == -1 {
        lemma_digits_val_nonneg(body);
        let v = digits_val(body);
        assert(v * (FIXED_SCALE as int) >= v) by (nonlinear_arith)
            requires
                v >= 0,
        ;
    } else {
        lemma_digits_val_nonneg(body.take(d));
        let v = digits_val(body.take(d));
        assert(v * (FIXED_SCALE as int) >= v) by (nonlinear_arith)
            requires
                v >= 0,
        ;
        lemma_digits_val_nonneg(body.skip(d + 1));
        lemma_pow10_pos((FIXED_SCALE_DIGITS - (body.len() - d - 1)) as nat);
        lemma_mul_nonnegative(
            digits_val(body.skip(d + 1)),
            pow10((FIXED_SCALE_DIGITS - (body.len() - d - 1)) as nat),
        );
    }
}

/// Reads a fixed-point decimal: an optional minus sign, at least one
/// integer digit, optionally a dot and 1 to 16 fraction digits. Yields the
/// mantissa scaled by `10^16`, or `None` for malformed or out-of-range
/// input.
#[verifier::loop_isolation(false)]
#[verifier::rlimit(100)]
pub fn parse_fixed(s: &str) -> (r: Option<i128>)
    ensures
        r == spec_parse_fixed(s@),
{
    let n = s.unicode_len();
    let neg = n >= 1 && s.get_char(0) == '-';
    let pos: usize = if neg {
        1
    } else {
        0
    };
    let ghost body = s@.skip(pos as int);
    proof {
        if !neg {
            assert(body =~= s@);
        }
    }
    if pos >= n {
        return None;
    }
    assert(body.len() == n - pos);

    // scan: find the first dot, check every other character is a digit
    let mut dpos: usize = n;  // `n` means "no dot seen"
    let mut j: usize = pos;
    while j < n
        invariant
            pos <= j <= n,
            dpos == n || (pos <= dpos < j && s@[dpos as int] == '.'),
            forall|t: int| pos <= t < j && t != dpos ==> is_digit(#[trigger] s@[t]),
        decreases n - j,
    {
        let c = s.get_char(j);
        let v = c as u32;
        if c == '.' {
            if dpos == n {
                dpos = j;
            } else {
                // a second dot: the fraction part contains a non-digit
                proof {
                    assert forall|t: int| 0 <= t < dpos - pos implies body[t] != '.' by {
                        assert(body[t] == s@[pos + t]);
                        assert(is_digit(s@[pos + t]));
                    }
                    lemma_find_dot_at(body, dpos - pos);
                    let d = dpos - pos;
                    assert(body.skip(d + 1)[j - dpos - 1] == s@[j as int]);
                    assert(!is_digit(s@[j as int]));
                }
                return None;
            }
        } else if v < 48 || v > 57 {
            proof {
                assert(!is_digit(s@[j as int]));
                assert(body[j - pos] == s@[j as int]);
                if dpos < n {
                    // the bad character sits in the fraction part
                    assert forall|t: int| 0 <= t < dpos - pos implies body[t] != '.' by {
                        assert(body[t] == s@[pos + t]);
                        assert(is_digit(s@[pos + t]));
                    }
                    lemma_find_dot_at(body, dpos - pos);
                    assert(body.skip(dpos - pos + 1)[j - dpos - 1] == s@[j as int]);
                } else {
                    // no dot so far: wherever the first dot is, something fails
                    let d = find_dot(body);
                    if d == -1 {
                        assert(!wf_unsigned(body));
                    } else {
                        lemma_find_dot_props(body);
                        assert(body[j - pos] != '.');
                        if d < j - pos {
                            assert(body[d] == s@[pos + d]);
                            assert(is_digit(s@[pos + d]));
                            assert(false);
                        }
                        assert(body.take(d)[j - pos] == body[j - pos]);
                    }
                }
            }
            return None;
        }
        j = j + 1;
    }
    // the scan accepted every character; pin down `find_dot`
    proof {
        if dpos == n {
            assert forall|t: int| 0 <= t < body.len() implies body[t] != '.' by {
                assert(body[t] == s@[pos + t]);
                assert(is_digit(s@[pos + t]));
            }
            lemma_find_dot_at(body, body.len() as int);
        } else {
            assert forall|t: int| 0 <= t < dpos - pos implies body[t] != '.' by {
                assert(body[t] == s@[pos + t]);
                assert(is_digit(s@[pos + t]));
            }
            lemma_find_dot_at(body, dpos - pos);
        }
    }
    if dpos == pos {
        // the dot came first: no integer digits
        return None;
    }
    if dpos < n && (n - dpos - 1 == 0 || n - dpos - 1 > 16) {
        // a dot with no fraction digits, or more than the scale carries
        return None;
    }
    // every well-formedness condition now holds
    let int_end: usize = if dpos == n {
        n
    } else {
        dpos
    };
    let ghost intseq = if dpos == n {
        body
    } else {
        body.take(dpos - pos)
    };
    proof {
        assert forall|t: int| 0 <= t < intseq.len() implies is_digit(#[trigger] intseq[t]) by {
            assert(intseq[t] == s@[pos + t]);
        }
        if dpos < n {
            assert forall|t: int| 0 <= t < body.skip(dpos - pos + 1).len() implies is_digit(
                #[trigger] body.skip(dpos - pos + 1)[t],
            ) by {
                assert(body.skip(dpos - pos + 1)[t] == s@[dpos + 1 + t]);
            }
        }
        assert(wf_unsigned(body));
        lemma_digits_val_nonneg(intseq);
    }
    // integer part
    let mut acc: i128 = 0;
    let mut k: usize = pos;
    proof {
        assert(intseq.take(0) =~= Seq::<char>::empty());
    }
    while k < int_end
        invariant
            pos <= k <= int_end,
            0 <= acc,
            acc == digits_val(intseq.take(k - pos)),
        decreases int_end - k,
    {
        let c = s.get_char(k);
        let d = (c as u32 - 48) as i128;
        proof {
            assert(intseq[k - pos] == s@[k as int]);
            assert(is_digit(s@[k as int]));
            lemma_digits_val_take_succ(intseq, k - pos);
            lemma_all_digits_take(intseq, k - pos + 1);
            lemma_digits_val_nonneg(intseq.take(k - pos + 1));
        }
        let step = match acc.checked_mul(10) {
            Some(a) => a.checked_add(d),
            None => None,
        };
        match step {
            Some(a) => {
                acc = a;
            },
            None => {
                // the integer part alone exceeds the mantissa range
                proof {
                    lemma_digits_val_prefix_le(intseq, k - pos + 1);
                    lemma_mantissa_ge_int(body);
                }
                return None;
            },
        }
        k = k + 1;
    }
    proof {
        assert(intseq.take(int_end - pos) =~= intseq);
    }
    // fraction part, scaled up to 16 digits
    let mut fscaled: i128 = 0;
    let ghost fterm = if dpos == n {
        0int
    } else {
        digits_val(body.skip(dpos - pos + 1)) * pow10((16 - (n - dpos - 1)) as nat)
    };
    if dpos < n {
        let flen = n - dpos - 1;
        let ghost fracseq = body.skip(dpos - pos + 1);
        proof {
            assert(fracseq.len() == flen);
            lemma_pow10_scale();
        }
        let mut facc: i128 = 0;
        let mut t: usize = dpos + 1;
        proof {
            assert(fracseq.take(0) =~= Seq::<char>::empty());
        }
        while t < n
            invariant
                dpos + 1 <= t <= n,
                0 <= facc,
                facc == digits_val(fracseq.take(t - dpos - 1)),
                facc < pow10((t - dpos - 1) as nat),
            decreases n - t,
        {
            let c = s.get_char(t);
            let d = (c as u32 - 48) as i128;
            proof {
                assert(fracseq[t - dpos - 1] == s@[t as int]);
                assert(is_digit(s@[t as int]));
                lemma_digits_val_take_succ(fracseq, t - dpos - 1);
                lemma_all_digits_take(fracseq, t - dpos);
                lemma_digits_val_bound(fracseq.take(t - dpos));
                lemma_pow10_mono((t - dpos) as nat, 16);
                lemma_pow10_scale();
            }
            facc = facc * 10 + d;
            t = t + 1;
        }
        proof {
            assert(fracseq.take(flen as int) =~= fracseq);
        }
        let mut fmul: i128 = 1;
        let mut e: usize = 0;
        while e < 16 - flen
            invariant
                0 <= e <= 16 - flen,
                fmul == pow10(e as nat),
            decreases 16 - flen - e,
        {
            proof {
                lemma_pow10_mono((e + 1) as nat, 16);
                lemma_pow10_scale();
                lemma_pow10_pos(e as nat);
            }
            fmul = fmul * 10;
            e = e + 1;
        }
        proof {
            let pa = pow10(flen as nat);
            let pb = pow10((16 - flen) as nat);
            lemma_pow10_add(flen as nat, (16 - flen) as nat);
            lemma_pow10_scale();
            lemma_pow10_pos(flen as nat);
            lemma_pow10_pos((16 - flen) as nat);
            lemma_digits_val_bound(fracseq);
            assert(0 <= facc * fmul && facc * fmul < FIXED_SCALE as int) by (nonlinear_arith)
                requires
                    0 <= facc,
                    facc < pa,
                    fmul == pb,
                    pb >= 1,
                    pa * pb == FIXED_SCALE as int,
            ;
        }
        fscaled = facc * fmul;
        proof {
            assert(fscaled == fterm);
        }
    }
    assert(0 <= fscaled < FIXED_SCALE || fscaled == 0);
    assert(unsigned_mantissa(body) == acc * (FIXED_SCALE as int) + fterm);
    // combine
    proof {
        lemma_mul_nonnegative(acc as int, FIXED_SCALE as int);
    }
    let total = match acc.checked_mul(FIXED_SCALE) {
        Some(a) => a.checked_add(fscaled),
        None => None,
    };
    match total {
        Some(m) => {
            if neg {
                Some(-m)
            } else {
                Some(m)
            }
        },
        None => None,
    }
}

proof fn lemma_find_dot_props(s: Seq<char>)
    ensures
        find_dot(s) >= -1,
        find_dot(s) >= 0 ==> 0 <= find_dot(s) < s.len() && s[find_dot(s)] == '.',
    decreases s.len(),
{
    if s.len() == 0 {
    } else if s[0] == '.' {
    } else {
        lemma_find_dot_props(s.skip(1));
        let r = find_dot(s.skip(1));
        if r >= 0 {
            assert(s[r + 1] == s.skip(1)[r]);
        }
    }
}

/// Reads an unsigned integer from a string of digits; `None` for anything
/// malformed or beyond `u64::MAX`.
#[verifier::loop_isolation(false)]
pub fn parse_u64(s: &str) -> (r: Option<u64>)
    ensures
        r == spec_parse_u64(s@),
{
    let n = s.unicode_len();
    if n == 0 {
        return None;
    }
    let mut acc: u64 = 0;
    let mut k: usize = 0;
    proof {
        assert(s@.take(0) =~= Seq::<char>::empty());
    }
    while k < n
        invariant
            0 <= k <= n,
            acc == digits_val(s@.take(k as int)),
            0 <= acc,
            forall|t: int| 0 <= t < k ==> is_digit(#[trigger] s@[t]),
        decreases n - k,
    {
        let c = s.get_char(k);
        let v = c as u32;
        if v < 48 || v > 57 {
            assert(!is_digit(s@[k as int]));
            return None;
        }
        let d = (v - 48) as u64;
        proof {
            lemma_digits_val_take_succ(s@, k as int);
            assert forall|i: int| 0 <= i < s@.take(k + 1).len() implies is_digit(
                #[trigger] s@.take(k + 1)[i],
            ) by {
                assert(s@.take(k + 1)[i] == s@[i]);
            }
            lemma_digits_val_nonneg(s@.take(k + 1));
        }
        let step = match acc.checked_mul(10) {
            Some(a) => a.checked_add(d),
            None => None,
        };
        match step {
            Some(a) => {
                acc = a;
            },
            None => {
                proof {
                    if all_digits(s@) {
                        lemma_digits_val_prefix_le(s@, k + 1);
                    }
                }
                return None;
            },
        }
        k = k + 1;
    }
    proof {
        assert(s@.take(n as int) =~= s@);
    }
    Some(acc)
}

} // verus!
