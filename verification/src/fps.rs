use vstd::prelude::*;
use vstd::string::StrSliceExecFns;
use crate::strutil::{
    find_char, lemma_digits_val_nonneg, parse_u64, spec_all_digits, spec_contains_char,
    spec_digits_val, spec_parse_u64,
};

verus! {

/// Frame rate as an exact rational number of frames per second. `0/1` stands
/// for an unknown or unparsable rate. The denominator is never zero.
#[derive(Debug, Clone, Copy)]
pub struct Fps {
    pub num: u64,
    pub den: u64,
}

/// Ten to the `k`-th power.
pub open spec fn spec_pow10(k: nat) -> int
    decreases k,
{
    if k == 0 {
        1
    } else {
        10 * spec_pow10((k - 1) as nat)
    }
}

pub proof fn lemma_pow10_pos(k: nat)
    ensures
        spec_pow10(k) >= 1,
    decreases k,
{
    if k > 0 {
        lemma_pow10_pos((k - 1) as nat);
    }
}

pub proof fn lemma_pow10_mono(k: nat, m: nat)
    requires
        k <= m,
    ensures
        spec_pow10(k) <= spec_pow10(m),
    decreases m,
{
    if k < m {
        lemma_pow10_mono(k, (m - 1) as nat);
        lemma_pow10_pos((m - 1) as nat);
    }
}

/// Value of a plain decimal string `A` or `A.B` (both parts non-empty digit
/// strings) as a scaled pair: `A.B` is `num / den` with `den = 10^len(B)`.
/// Undefined (`None`) for any other shape, or when a part does not fit `u64`.
pub open spec fn spec_scaled_decimal(s: Seq<char>) -> Option<(u64, u64)> {
    if !spec_contains_char(s, '.') {
        match spec_parse_u64(s) {
            Some(v) => Some((v, 1u64)),
            None => None,
        }
    } else {
        let i = spec_first_char(s, '.');
        let a = s.subrange(0, i);
        let b = s.subrange(i + 1, s.len() as int);
        if a.len() > 0 && b.len() > 0 && spec_all_digits(a) && spec_all_digits(b) && spec_pow10(
            b.len(),
        ) <= u64::MAX && spec_digits_val(a) * spec_pow10(b.len()) + spec_digits_val(b)
            <= u64::MAX {
            Some(
                (
                    (spec_digits_val(a) * spec_pow10(b.len()) + spec_digits_val(b)) as u64,
                    spec_pow10(b.len()) as u64,
                ),
            )
        } else {
            None
        }
    }
}

/// The position of the first occurrence of `c` in `s` (meaningful only when
/// `spec_contains_char(s, c)` holds; see `lemma_first_char`).
pub open spec fn spec_first_char(s: Seq<char>, c: char) -> int {
    choose|i: int|
        0 <= i < s.len() && #[trigger] s[i] == c && (forall|j: int| 0 <= j < i ==> s[j] != c)
}

pub proof fn lemma_first_char(s: Seq<char>, c: char)
    requires
        spec_contains_char(s, c),
    ensures
        0 <= spec_first_char(s, c) < s.len(),
        s[spec_first_char(s, c)] == c,
        forall|j: int| 0 <= j < spec_first_char(s, c) ==> s[j] != c,
    decreases s.len(),
{
    if s[0] == c {
        assert(0 <= 0 < s.len() && s[0] == c && (forall|j: int| 0 <= j < 0 ==> s[j] != c));
    } else {
        let t = s.drop_first();
        assert(spec_contains_char(t, c)) by {
            let w = choose|i: int| 0 <= i < s.len() && s[i] == c;
            assert(t[w - 1] == c);
        }
        lemma_first_char(t, c);
        let i = spec_first_char(t, c);
        assert(s[i + 1] == t[i]);
        assert(forall|j: int| 0 <= j < i + 1 ==> s[j] != c) by {
            assert(forall|j: int| 1 <= j < i + 1 ==> s[j] == t[j - 1]);
        }
        assert(0 <= i + 1 < s.len() && s[i + 1] == c && (forall|j: int|
            0 <= j < i + 1 ==> s[j] != c));
    }
}

/// The first occurrence is unique, so an index with the first-occurrence
/// property is `spec_first_char`.
proof fn lemma_first_char_is(s: Seq<char>, c: char, i: int)
    requires
        0 <= i < s.len(),
        s[i] == c,
        forall|j: int| 0 <= j < i ==> s[j] != c,
    ensures
        spec_first_char(s, c) == i,
{
    assert(spec_contains_char(s, c));
    lemma_first_char(s, c);
    let k = spec_first_char(s, c);
    if k < i {
        assert(s[k] != c);
    }
    if i < k {
        assert(s[i] != c);
    }
}

/// Parse a plain decimal string into a scaled pair, exactly as
/// `spec_scaled_decimal` lays it out.
#[verifier::loop_isolation(false)]
pub fn parse_scaled_decimal(s: &str) -> (r: Option<(u64, u64)>)
    ensures
        r == spec_scaled_decimal(s@),
        r matches Some(p) ==> p.1 >= 1,
{
    let n = s.unicode_len();
    match find_char(s, '.') {
        None => {
            match parse_u64(s) {
                Some(v) => Some((v, 1)),
                None => None,
            }
        },
        Some(i) => {
            proof {
                lemma_first_char_is(s@, '.', i as int);
            }
            let ghost a = s@.subrange(0, i as int);
            let ghost b = s@.subrange(i as int + 1, s@.len() as int);
            if i == 0 || i + 1 >= n {
                // empty integer or fractional part
                return None;
            }
            let astr = s.substring_char(0, i);
            let bstr = s.substring_char(i + 1, n);
            let va = match parse_u64(astr) {
                Some(v) => v,
                None => {
                    proof {
                        scaled_none_when_part_fails(a, b, true);
                    }
                    return None;
                },
            };
            let vb = match parse_u64(bstr) {
                Some(v) => v,
                None => {
                    proof {
                        scaled_none_when_part_fails(a, b, false);
                    }
                    return None;
                },
            };
            // denominator: 10^len(b), with overflow meaning "no parse"
            let blen = n - (i + 1);
            let mut den: u64 = 1;
            let mut k: usize = 0;
            while k < blen
                invariant
                    0 <= k <= blen,
                    blen == b.len(),
                    den == spec_pow10(k as nat),
                decreases blen - k,
            {
                den = match den.checked_mul(10) {
                    Some(x) => x,
                    None => {
                        proof {
                            assert(spec_pow10((k + 1) as nat) == 10 * spec_pow10(k as nat));
                            lemma_pow10_mono((k + 1) as nat, b.len());
                            assert(spec_pow10(b.len()) > u64::MAX);
                        }
                        return None;
                    },
                };
                k += 1;
            }
            proof {
                lemma_pow10_pos(b.len());
                lemma_digits_val_nonneg(a);
                lemma_digits_val_nonneg(b);
                assert(spec_digits_val(a) * spec_pow10(b.len()) >= 0) by (nonlinear_arith)
                    requires
                        spec_digits_val(a) >= 0,
                        spec_pow10(b.len()) >= 1,
                ;
            }
            let num = match va.checked_mul(den) {
                Some(x) => x,
                None => {
                    return None;
                },
            };
            let num = match num.checked_add(vb) {
                Some(x) => x,
                None => {
                    return None;
                },
            };
            Some((num, den))
        },
    }
}

/// When one decimal part of `A.B` has no `u64` parse, the scaled parse of the
/// whole string is undefined as well.
proof fn scaled_none_when_part_fails(a: Seq<char>, b: Seq<char>, first: bool)
    requires
        a.len() > 0,
        b.len() > 0,
        first ==> spec_parse_u64(a) is None,
        !first ==> spec_parse_u64(b) is None,
    ensures
        !(a.len() > 0 && b.len() > 0 && spec_all_digits(a) && spec_all_digits(b) && spec_pow10(
            b.len(),
        ) <= u64::MAX && spec_digits_val(a) * spec_pow10(b.len()) + spec_digits_val(b)
            <= u64::MAX),
{
    if spec_all_digits(a) && spec_all_digits(b) && spec_pow10(b.len()) <= u64::MAX {
        lemma_digits_val_nonneg(a);
        lemma_digits_val_nonneg(b);
        lemma_pow10_pos(b.len());
        if first {
            if spec_digits_val(a) > u64::MAX {
                assert(spec_digits_val(a) * spec_pow10(b.len()) >= spec_digits_val(a))
                    by (nonlinear_arith)
                    requires
                        spec_digits_val(a) >= 0,
                        spec_pow10(b.len()) >= 1,
                ;
            }
        } else {
            if spec_digits_val(b) > u64::MAX {
                assert(spec_digits_val(a) * spec_pow10(b.len()) >= 0) by (nonlinear_arith)
                    requires
                        spec_digits_val(a) >= 0,
                        spec_pow10(b.len()) >= 1,
                ;
            }
        }
    }
}

/// The frame rate a descriptor string denotes: `N/D` with both sides
/// parsable decimal values, both nonzero, gives their exact quotient as a
/// rational (numerators and denominators that do not fit `u64` give `0/1`);
/// otherwise a plain decimal value; anything unparsable gives `0/1`.
pub open spec fn spec_fps(s: Seq<char>) -> (u64, u64) {
    if spec_contains_char(s, '/') {
        let i = spec_first_char(s, '/');
        let l = s.subrange(0, i);
        let r = s.subrange(i + 1, s.len() as int);
        match (spec_scaled_decimal(l), spec_scaled_decimal(r)) {
            (Some(a), Some(b)) => if a.0 != 0 && b.0 != 0 && a.0 * b.1 <= u64::MAX && a.1 * b.0
                <= u64::MAX {
                ((a.0 * b.1) as u64, (a.1 * b.0) as u64)
            } else {
                (0u64, 1u64)
            },
            _ => (0u64, 1u64),
        }
    } else {
        match spec_scaled_decimal(s) {
            Some(p) => p,
            None => (0u64, 1u64),
        }
    }
}

impl Fps {
    /// The unknown frame rate.
    pub fn zero() -> (r: Fps)
        ensures
            r.num == 0,
            r.den == 1,
    {
        Fps { num: 0, den: 1 }
    }

    /// Parse a frame-rate descriptor string, exactly as `spec_fps` lays it
    /// out. The result's denominator is never zero.
    #[verifier::rlimit(50)]
    pub fn parse(s: &str) -> (r: Fps)
        ensures
            (r.num, r.den) == spec_fps(s@),
            r.den >= 1,
    {
        let n = s.unicode_len();
        match find_char(s, '/') {
            Some(i) => {
                proof {
                    lemma_first_char_is(s@, '/', i as int);
                }
                let lstr = s.substring_char(0, i);
                let rstr = s.substring_char(i + 1, n);
                match (parse_scaled_decimal(lstr), parse_scaled_decimal(rstr)) {
                    (Some(a), Some(b)) => {
                        if a.0 != 0 && b.0 != 0 {
                            match (a.0.checked_mul(b.1), a.1.checked_mul(b.0)) {
                                (Some(nm), Some(dn)) => {
                                    proof {
                                        assert(dn >= 1) by (nonlinear_arith)
                                            requires
                                                dn == a.1 * b.0,
                                                a.1 >= 1,
                                                b.0 >= 1,
                                        ;
                                    }
                                    Fps { num: nm, den: dn }
                                },
                                _ => Fps { num: 0, den: 1 },
                            }
                        } else {
                            Fps { num: 0, den: 1 }
                        }
                    },
                    _ => Fps { num: 0, den: 1 },
                }
            },
            None => {
                match parse_scaled_decimal(s) {
                    Some(p) => Fps { num: p.0, den: p.1 },
                    None => Fps { num: 0, den: 1 },
                }
            },
        }
    }
}

/// Milliseconds a decimal seconds string denotes, truncated toward zero and
/// saturating at `u64::MAX`; `0` when the string is unparsable.
pub open spec fn spec_secs_to_millis(s: Seq<char>) -> u64 {
    match spec_scaled_decimal(s) {
        Some(p) => {
            let v = (p.0 as int) * 1000 / (p.1 as int);
            if v > u64::MAX {
                u64::MAX
            } else {
                v as u64
            }
        },
        None => 0u64,
    }
}

/// Convert a decimal seconds string into milliseconds, exactly as
/// `spec_secs_to_millis` lays it out.
pub fn secs_str_to_millis(s: &str) -> (r: u64)
    ensures
        r == spec_secs_to_millis(s@),
{
    match parse_scaled_decimal(s) {
        Some(p) => {
            let wide: u128 = (p.0 as u128) * 1000 / (p.1 as u128);
            proof {
                assert((p.0 as u128) * 1000 == (p.0 as int) * 1000) by (nonlinear_arith);
                assert((p.0 as int) * 1000 / (p.1 as int) >= 0) by (nonlinear_arith)
                    requires
                        p.0 >= 0,
                        p.1 >= 1,
                ;
            }
            if wide > u64::MAX as u128 {
                u64::MAX
            } else {
                wide as u64
            }
        },
        None => 0,
    }
}

} // verus!
