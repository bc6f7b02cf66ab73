//! Parsing and formatting of [`Amount4DecimalBased`]: decimal literals with
//! up to four fractional digits, read and written exactly, with no binary
//! floating point anywhere.

use vstd::prelude::*;

use crate::model::Amount4DecimalBased;
use vstd::string::StringSliceAdditionalSpecFns;

verus! {

/// The input was not a decimal literal with at most four fractional digits,
/// or its value does not fit the fixed-point range.
#[derive(Debug, PartialEq, Eq, Structural, Clone, Copy)]
pub struct AmountParseError;

/// Whether `b` is the ASCII code of a decimal digit.
pub open spec fn is_digit(b: u8) -> bool {
    48 <= b <= 57
}

/// The value of the ASCII digit `b`.
pub open spec fn digit_val(b: u8) -> int {
    b - 48
}

/// Whether every byte of `s` is an ASCII digit.
pub open spec fn all_digits(s: Seq<u8>) -> bool {
    forall|i: int| 0 <= i < s.len() ==> is_digit(#[trigger] s[i])
}

/// The value of a run of ASCII digits, most significant first.
pub open spec fn digits_val(s: Seq<u8>) -> int
    decreases s.len(),
{
    if s.len() == 0 {
        0
    } else {
        digits_val(s.drop_last()) * 10 + digit_val(s.last())
    }
}

/// Ten to the `n`th power.
pub open spec fn pow10(n: nat) -> int
    decreases n,
{
    if n == 0 {
        1
    } else {
        10 * pow10((n - 1) as nat)
    }
}

/// The index of the first `.` in `s`, or `-1` if there is none.
pub open spec fn first_dot(s: Seq<u8>) -> int {
    crate::bytes::first_byte(s, 46)
}

/// The digits before the `.` of an unsigned literal, or all of it if there
/// is no `.`.
pub open spec fn int_part(body: Seq<u8>) -> Seq<u8> {
    if first_dot(body) == -1 {
        body
    } else {
        body.subrange(0, first_dot(body))
    }
}

/// The digits after the `.` of an unsigned literal, or the empty run if
/// there is no `.`.
pub open spec fn frac_part(body: Seq<u8>) -> Seq<u8> {
    if first_dot(body) == -1 {
        Seq::empty()
    } else {
        body.subrange(first_dot(body) + 1, body.len() as int)
    }
}

/// The bytes of `s` after an optional leading minus sign.
pub open spec fn unsigned_body(s: Seq<u8>) -> Seq<u8> {
    if s.len() > 0 && s[0] == 45 {
        s.subrange(1, s.len() as int)
    } else {
        s
    }
}

/// Whether `s` is a well-formed amount literal: an optional minus sign, at
/// least one integer digit, and an optional `.` followed by zero to four
/// fractional digits.
pub open spec fn amount_well_formed(s: Seq<u8>) -> bool {
    let body = unsigned_body(s);
    &&& int_part(body).len() >= 1
    &&& all_digits(int_part(body))
    &&& frac_part(body).len() <= 4
    &&& all_digits(frac_part(body))
}

/// The mathematical value of a well-formed amount literal, in 1/10,000
/// units: missing fractional digits count as trailing zeroes.
pub open spec fn amount_val(s: Seq<u8>) -> int {
    let body = unsigned_body(s);
    let magnitude = digits_val(int_part(body)) * 10000 + digits_val(frac_part(body)) * pow10(
        (4 - frac_part(body).len()) as nat,
    );
    if s.len() > 0 && s[0] == 45 {
        -magnitude
    } else {
        magnitude
    }
}

/// What parsing an amount literal yields: the value of a well-formed
/// literal whose value fits the fixed-point range, and nothing otherwise.
pub open spec fn spec_parse_amount(s: Seq<u8>) -> Option<int> {
    if amount_well_formed(s) && i64::MIN <= amount_val(s) <= i64::MAX {
        Some(amount_val(s))
    } else {
        None
    }
}

/// A run of digits is worth at least zero.
pub proof fn lemma_digits_val_nonneg(s: Seq<u8>)
    requires
        all_digits(s),
    ensures
        digits_val(s) >= 0,
    decreases s.len(),
{
    if s.len() > 0 {
        assert(all_digits(s.drop_last())) by {
            assert(forall|i: int|
                0 <= i < s.len() - 1 ==> s.drop_last()[i] == #[trigger] s[i]);
        }
        lemma_digits_val_nonneg(s.drop_last());
        assert(digits_val(s.drop_last()) * 10 >= 0) by (nonlinear_arith)
            requires
                digits_val(s.drop_last()) >= 0,
        ;
    }
}

/// A run of `n` digits is worth less than ten to the `n`th.
pub proof fn lemma_digits_val_bound(s: Seq<u8>)
    requires
        all_digits(s),
    ensures
        digits_val(s) < pow10(s.len() as nat),
    decreases s.len(),
{
    if s.len() > 0 {
        let shorter = s.drop_last();
        assert(all_digits(shorter)) by {
            assert(forall|i: int| 0 <= i < s.len() - 1 ==> shorter[i] == #[trigger] s[i]);
        }
        lemma_digits_val_bound(shorter);
        lemma_digits_val_nonneg(shorter);
        assert(digits_val(shorter) * 10 + digit_val(s.last()) < pow10(shorter.len() as nat) * 10)
            by (nonlinear_arith)
            requires
                digits_val(shorter) < pow10(shorter.len() as nat),
                digit_val(s.last()) <= 9,
        ;
    }
}

/// A longer prefix of a digit run is worth at least as much as a shorter
/// one.
pub proof fn lemma_digits_val_prefix_le(s: Seq<u8>, i: int, j: int)
    requires
        all_digits(s),
        0 <= i <= j <= s.len(),
    ensures
        digits_val(s.subrange(0, i)) <= digits_val(s.subrange(0, j)),
    decreases j - i,
{
    if i < j {
        let shorter = s.subrange(0, j - 1);
        let longer = s.subrange(0, j);
        assert(longer.drop_last() =~= shorter);
        assert(all_digits(shorter));
        lemma_digits_val_nonneg(shorter);
        assert(digits_val(longer) == digits_val(shorter) * 10 + digit_val(s[j - 1]));
        assert(digits_val(shorter) * 10 >= digits_val(shorter)) by (nonlinear_arith)
            requires
                digits_val(shorter) >= 0,
        ;
        lemma_digits_val_prefix_le(s, i, j - 1);
    }
}

/// Reads a run of ASCII digits as an unsigned value, refusing an empty run,
/// anything that is not a digit, and any value beyond `cap`.
pub(crate) fn parse_digits_capped(bytes: &[u8], cap: u64) -> (result: Option<u64>)
    ensures
        match result {
            Some(v) => all_digits(bytes@) && bytes@.len() >= 1 && v == digits_val(bytes@)
                && v <= cap,
            None => bytes@.len() == 0 || !all_digits(bytes@) || digits_val(bytes@) > cap,
        },
{
    if bytes.len() == 0 {
        return None;
    }
    let mut acc: u64 = 0;
    let mut i: usize = 0;
    while i < bytes.len()
        invariant
            0 <= i <= bytes@.len(),
            acc == digits_val(bytes@.subrange(0, i as int)),
            acc <= cap,
            all_digits(bytes@.subrange(0, i as int)),
        decreases bytes@.len() - i,
    {
        let b = bytes[i];
        if b < 48 || b > 57 {
            assert(!is_digit(bytes@[i as int]));
            return None;
        }
        let d: u64 = (b - 48) as u64;
        proof {
            assert(bytes@.subrange(0, i + 1).drop_last() =~= bytes@.subrange(0, i as int));
            assert(bytes@.subrange(0, i + 1).last() == bytes@[i as int]);
            assert(all_digits(bytes@.subrange(0, i + 1)));
        }
        let next = match acc.checked_mul(10) {
            Some(x) => x.checked_add(d),
            None => None,
        };
        match next {
            Some(v) => {
                if v > cap {
                    // This prefix alone is already worth more than `cap`,
                    // and further digits only increase the value.
                    proof {
                        if all_digits(bytes@) {
                            lemma_digits_val_prefix_le(bytes@, i + 1, bytes@.len() as int);
                            assert(bytes@.subrange(0, bytes@.len() as int) =~= bytes@);
                        }
                    }
                    return None;
                }
                acc = v;
            },
            None => {
                proof {
                    if all_digits(bytes@) {
                        lemma_digits_val_prefix_le(bytes@, i + 1, bytes@.len() as int);
                        assert(bytes@.subrange(0, bytes@.len() as int) =~= bytes@);
                    }
                }
                return None;
            },
        }
        i = i + 1;
    }
    proof {
        assert(bytes@.subrange(0, bytes@.len() as int) =~= bytes@);
    }
    Some(acc)
}

/// Reads the amount literal held in `bytes`, exactly as
/// [`spec_parse_amount`] says.
pub(crate) fn parse_amount_bytes(bytes: &[u8]) -> (result: Result<i64, AmountParseError>)
    ensures
        match result {
            Ok(v) => spec_parse_amount(bytes@) == Some(v as int),
            Err(_) => spec_parse_amount(bytes@) == None::<int>,
        },
{
    let negative = bytes.len() > 0 && bytes[0] == 45;
    let start: usize = if negative {
        1
    } else {
        0
    };
    let ghost body = unsigned_body(bytes@);
    proof {
        assert(body =~= bytes@.subrange(start as int, bytes@.len() as int));
    }

    // Find the dot, if any, scanning the unsigned body.
    let mut i: usize = start;
    while i < bytes.len() && bytes[i] != 46
        invariant
            start <= i <= bytes@.len(),
            forall|j: int| start <= j < i ==> #[trigger] bytes@[j] != 46,
        decreases bytes@.len() - i,
    {
        i = i + 1;
    }
    let dot: usize = i;
    proof {
        if dot < bytes@.len() {
            assert(bytes@[dot as int] == 46);
            assert(body[dot - start] == bytes@[dot as int]);
            assert(forall|j: int|
                0 <= j < dot - start ==> #[trigger] body[j] == bytes@[j + start]);
            crate::bytes::lemma_first_byte_found(body, 46, dot - start);
        } else {
            assert(forall|j: int|
                0 <= j < body.len() ==> #[trigger] body[j] == bytes@[j + start]);
            crate::bytes::lemma_first_byte_missing(body, 46);
        }
    }

    let int_end: usize = dot;
    let ghost spec_int = int_part(body);
    let ghost spec_frac = frac_part(body);
    proof {
        assert(spec_int =~= bytes@.subrange(start as int, int_end as int));
        if dot < bytes@.len() {
            assert(spec_frac =~= bytes@.subrange(dot + 1, bytes@.len() as int));
        }
    }

    // The magnitude is scaled by 10,000 below, and the largest magnitude
    // that can still fit afterwards is that of the most negative value, so
    // integer digit runs worth more than 922,337,203,685,478 are refused
    // outright.
    let int_value = match parse_digits_capped(
        vstd::slice::slice_subrange(bytes, start, int_end),
        922_337_203_685_478,
    ) {
        Some(v) => v,
        None => {
            proof {
                if amount_well_formed(bytes@) {
                    lemma_digits_val_nonneg(spec_frac);
                    assert(pow10((4 - spec_frac.len()) as nat) >= 1) by {
                        reveal_with_fuel(pow10, 5);
                        assert(spec_frac.len() == 0 || spec_frac.len() == 1 || spec_frac.len()
                            == 2 || spec_frac.len() == 3 || spec_frac.len() == 4);
                    }
                    assert(digits_val(spec_int) > 922_337_203_685_478);
                    assert(digits_val(spec_int) * 10000 >= 9_223_372_036_854_790_000)
                        by (nonlinear_arith)
                        requires
                            digits_val(spec_int) >= 922_337_203_685_479,
                    ;
                    assert(digits_val(spec_frac) * pow10((4 - spec_frac.len()) as nat) >= 0)
                        by (nonlinear_arith)
                        requires
                            digits_val(spec_frac) >= 0,
                            pow10((4 - spec_frac.len()) as nat) >= 1,
                    ;
                    assert(amount_val(bytes@) > i64::MAX || amount_val(bytes@) < i64::MIN);
                }
            }
            return Err(AmountParseError);
        },
    };

    let frac_scaled: u64 = if dot < bytes.len() {
        let frac_bytes = vstd::slice::slice_subrange(bytes, dot + 1, bytes.len());
        if frac_bytes.len() > 4 {
            return Err(AmountParseError);
        }
        let frac_value = match parse_digits_capped(frac_bytes, 9999) {
            Some(v) => v,
            None => {
                if frac_bytes.len() == 0 {
                    0
                } else {
                    proof {
                        if all_digits(spec_frac) {
                            lemma_digits_val_bound(spec_frac);
                            assert(pow10(spec_frac.len() as nat) <= 10000) by {
                                reveal_with_fuel(pow10, 5);
                                assert(spec_frac.len() == 1 || spec_frac.len() == 2
                                    || spec_frac.len() == 3 || spec_frac.len() == 4);
                            }
                        }
                        assert(!amount_well_formed(bytes@));
                    }
                    return Err(AmountParseError);
                }
            },
        };
        let target: usize = 4 - frac_bytes.len();
        let mut scale: u64 = 1;
        let mut count: usize = 0;
        while count < target
            invariant
                0 <= count <= target <= 4,
                scale == pow10(count as nat),
            decreases target - count,
        {
            proof {
                reveal_with_fuel(pow10, 5);
                assert(count == 0 || count == 1 || count == 2 || count == 3);
            }
            scale = scale * 10;
            count = count + 1;
        }
        proof {
            reveal_with_fuel(pow10, 5);
            assert(scale == pow10((4 - spec_frac.len()) as nat));
            assert(scale <= 10000);
            lemma_digits_val_nonneg(spec_frac);
            assert(frac_value * scale <= 9999 * 10000) by (nonlinear_arith)
                requires
                    0 <= frac_value <= 9999,
                    0 <= scale <= 10000,
            ;
        }
        frac_value * scale
    } else {
        proof {
            assert(spec_frac.len() == 0);
            assert(digits_val(spec_frac) == 0);
            reveal_with_fuel(pow10, 5);
        }
        0
    };
    proof {
        assert(frac_scaled == digits_val(spec_frac) * pow10((4 - spec_frac.len()) as nat));
        assert(amount_well_formed(bytes@));
    }

    let magnitude: u64 = {
        proof {
            assert(int_value * 10000 <= 9_223_372_036_854_780_000) by (nonlinear_arith)
                requires
                    0 <= int_value <= 922_337_203_685_478,
            ;
        }
        int_value * 10000 + frac_scaled
    };
    proof {
        if negative {
            assert(amount_val(bytes@) == -(magnitude as int));
        } else {
            assert(amount_val(bytes@) == magnitude as int);
        }
    }
    if negative {
        if magnitude > 9_223_372_036_854_775_808u64 {
            return Err(AmountParseError);
        }
        if magnitude == 9_223_372_036_854_775_808u64 {
            return Ok(i64::MIN);
        }
        Ok(-(magnitude as i64))
    } else {
        if magnitude > i64::MAX as u64 {
            return Err(AmountParseError);
        }
        Ok(magnitude as i64)
    }
}

/// The character of the decimal digit `d`.
pub open spec fn spec_digit_char(d: int) -> char {
    if d == 0 {
        '0'
    } else if d == 1 {
        '1'
    } else if d == 2 {
        '2'
    } else if d == 3 {
        '3'
    } else if d == 4 {
        '4'
    } else if d == 5 {
        '5'
    } else if d == 6 {
        '6'
    } else if d == 7 {
        '7'
    } else if d == 8 {
        '8'
    } else {
        '9'
    }
}

/// The decimal digits of `n`, most significant first, without leading
/// zeroes (except for `n == 0` itself).
pub open spec fn spec_dec_str(n: nat) -> Seq<char>
    decreases n,
{
    if n < 10 {
        seq![spec_digit_char(n as int)]
    } else {
        spec_dec_str(n / 10).push(spec_digit_char((n % 10) as int))
    }
}

/// The four decimal digits of `n < 10,000`, zero padded.
pub open spec fn spec_frac4(n: nat) -> Seq<char> {
    seq![
        spec_digit_char(((n / 1000) % 10) as int),
        spec_digit_char(((n / 100) % 10) as int),
        spec_digit_char(((n / 10) % 10) as int),
        spec_digit_char((n % 10) as int),
    ]
}

/// How an amount of `v` 1/10,000 units renders: an optional minus sign,
/// the integer digits, a dot, and exactly four fractional digits.
pub open spec fn spec_amount_str(v: int) -> Seq<char> {
    let magnitude = if v < 0 {
        -v
    } else {
        v
    };
    let sign: Seq<char> = if v < 0 {
        seq!['-']
    } else {
        Seq::empty()
    };
    sign + spec_dec_str((magnitude / 10000) as nat) + seq!['.'] + spec_frac4(
        (magnitude % 10000) as nat,
    )
}

/// The one-character string of the decimal digit `d`.
fn digit_str(d: u64) -> (s: &'static str)
    requires
        d < 10,
    ensures
        s@ == seq![spec_digit_char(d as int)],
{
    proof {
        reveal_strlit("0");
        reveal_strlit("1");
        reveal_strlit("2");
        reveal_strlit("3");
        reveal_strlit("4");
        reveal_strlit("5");
        reveal_strlit("6");
        reveal_strlit("7");
        reveal_strlit("8");
        reveal_strlit("9");
    }
    let s = match d {
        0 => "0",
        1 => "1",
        2 => "2",
        3 => "3",
        4 => "4",
        5 => "5",
        6 => "6",
        7 => "7",
        8 => "8",
        _ => "9",
    };
    proof {
        assert(s@ =~= seq![spec_digit_char(d as int)]);
    }
    s
}

/// The decimal digits of `n`, exactly as [`spec_dec_str`] says.
pub(crate) fn dec_string(n: u64) -> (s: String)
    ensures
        s@ == spec_dec_str(n as nat),
    decreases n,
{
    if n < 10 {
        let mut s = String::new();
        s.append(digit_str(n));
        proof {
            assert(s@ =~= spec_dec_str(n as nat));
        }
        s
    } else {
        let mut s = dec_string(n / 10);
        s.append(digit_str(n % 10));
        proof {
            assert((n / 10) as nat == (n as nat) / 10);
            assert((n % 10) as nat == (n as nat) % 10);
            assert(s@ =~= spec_dec_str(n as nat)) by {
                assert(spec_dec_str((n as nat) / 10).push(
                    spec_digit_char(((n as nat) % 10) as int),
                ) =~= spec_dec_str((n as nat) / 10) + seq![
                    spec_digit_char(((n as nat) % 10) as int),
                ]);
            }
        }
        s
    }
}

impl Amount4DecimalBased {
    /// Renders this amount with a sign, the integer digits and exactly
    /// four fractional digits, exactly as [`spec_amount_str`] says.
    pub fn to_str(&self) -> (s: String)
        ensures
            s@ == spec_amount_str(self.0 as int),
    {
        let v = self.0;
        let magnitude: u64 = if v >= 0 {
            v as u64
        } else {
            (-(v + 1)) as u64 + 1
        };
        proof {
            if v < 0 {
                assert(magnitude as int == -(v as int));
            } else {
                assert(magnitude as int == v as int);
            }
        }
        let mut out = String::new();
        if v < 0 {
            out.append("-");
        }
        let int_string = dec_string(magnitude / 10000);
        out.append(int_string.as_str());
        out.append(".");
        let frac = magnitude % 10000;
        out.append(digit_str((frac / 1000) % 10));
        out.append(digit_str((frac / 100) % 10));
        out.append(digit_str((frac / 10) % 10));
        out.append(digit_str(frac % 10));
        proof {
            reveal_strlit("-");
            reveal_strlit(".");
            assert((magnitude / 10000) as nat == ((magnitude as int
                / 10000) as nat));
            assert(out@ =~= spec_amount_str(self.0 as int));
        }
        out
    }

    /// Reads an amount from a decimal literal with an optional fractional
    /// part of zero to four digits, exactly as [`spec_parse_amount`] says
    /// of the literal's bytes.
    pub fn from_str(s: &str) -> (result: Result<Amount4DecimalBased, AmountParseError>)
        ensures
            match result {
                Ok(a) => spec_parse_amount(s.spec_bytes()) == Some(a.0 as int),
                Err(_) => spec_parse_amount(s.spec_bytes()) == None::<int>,
            },
    {
        match parse_amount_bytes(s.as_bytes()) {
            Ok(v) => Ok(Amount4DecimalBased(v)),
            Err(e) => Err(e),
        }
    }
}

} // verus!
