//! The identifier class: 11-digit values protected by two check digits
//! computed with a weighted-sum-mod-11 scheme.

use vstd::prelude::*;
use vstd::string::StrSliceExecFns;
use vstd::string::StringExecFns;

verus! {

/// A decimal digit character.
pub open spec fn is_digit_char(c: char) -> bool {
    48 <= c as int <= 57
}

/// Numeric value of a decimal digit character.
pub open spec fn digit_val(c: char) -> int {
    c as int - 48
}

/// Every character of the sequence is a decimal digit.
pub open spec fn all_digits(s: Seq<char>) -> bool {
    forall|i: int| 0 <= i < s.len() ==> is_digit_char(#[trigger] s[i])
}

/// Every character of the sequence equals the first one.
pub open spec fn all_same(s: Seq<char>) -> bool {
    forall|i: int| 0 <= i < s.len() ==> #[trigger] s[i] == s[0]
}

/// Weighted sum of the first `k` digits, with the digit at index `j`
/// weighted by `len + 1 - j` (so for `k == len` the weights run from
/// `len + 1` down to `2`).
pub open spec fn weighted_sum(s: Seq<char>, len: int, k: int) -> int
    decreases k,
{
    if k <= 0 {
        0
    } else {
        weighted_sum(s, len, k - 1) + digit_val(s[k - 1]) * (len + 1 - (k - 1))
    }
}

/// Check digit over the first `len` digits: `11 - (sum mod 11)`, with
/// results of 10 or 11 mapped to 0.
pub open spec fn check_digit(s: Seq<char>, len: int) -> int {
    let dv = 11 - (weighted_sum(s, len, len) % 11);
    if dv >= 10 {
        0
    } else {
        dv
    }
}

/// Why a candidate identifier value was accepted or rejected.
#[derive(Clone, Copy, PartialEq, Eq, Structural, Debug)]
pub enum IdentCheck {
    Valid,
    NotDigits,
    WrongLength,
    RepeatedDigits,
    WrongCheckDigit,
}

/// The outcome `check_identifier` must report: non-digit input, then wrong
/// length, then the known-invalid repeated-digit sequences, then the two
/// check-digit equations.
pub open spec fn spec_check_identifier(s: Seq<char>) -> IdentCheck {
    if s.len() == 0 || !all_digits(s) {
        IdentCheck::NotDigits
    } else if s.len() != 11 {
        IdentCheck::WrongLength
    } else if all_same(s) {
        IdentCheck::RepeatedDigits
    } else if digit_val(s[9]) != check_digit(s, 9) || digit_val(s[10]) != check_digit(s, 10) {
        IdentCheck::WrongCheckDigit
    } else {
        IdentCheck::Valid
    }
}

/// A value that the identifier class accepts on add.
pub open spec fn identifier_valid(s: Seq<char>) -> bool {
    spec_check_identifier(s) is Valid
}

/// The grouped rendering of an 11-digit identifier: `XXX.XXX.XXX-XX`.
pub open spec fn grouped(s: Seq<char>) -> Seq<char> {
    s.subrange(0, 3) + seq!['.'] + s.subrange(3, 6) + seq!['.'] + s.subrange(6, 9) + seq!['-']
        + s.subrange(9, 11)
}

/// Classifies a candidate identifier value, checking digits-only, length,
/// the repeated-digit rejection, and both check-digit equations.
pub fn check_identifier(s: &str) -> (r: IdentCheck)
    ensures
        r == spec_check_identifier(s@),
{
    let n = s.unicode_len();
    if n == 0 {
        return IdentCheck::NotDigits;
    }
    let mut digits: Vec<u8> = Vec::new();
    let mut i: usize = 0;
    while i < n
        invariant
            n == s@.len(),
            i <= n,
            digits@.len() == i as nat,
            forall|j: int|
                0 <= j < i ==> is_digit_char(#[trigger] s@[j]) && digits@[j] as int == digit_val(
                    s@[j],
                ),
        decreases n - i,
    {
        let c = s.get_char(i);
        let u = c as u32;
        if u < 48 || u > 57 {
            assert(!is_digit_char(s@[i as int]));
            return IdentCheck::NotDigits;
        }
        digits.push((u - 48) as u8);
        i += 1;
    }
    assert(all_digits(s@));
    if n != 11 {
        return IdentCheck::WrongLength;
    }
    let mut same = true;
    let mut i: usize = 1;
    while i < 11
        invariant
            n == s@.len(),
            s@.len() == 11,
            digits@.len() == 11,
            1 <= i <= 11,
            forall|j: int|
                0 <= j < 11 ==> is_digit_char(#[trigger] s@[j]) && digits@[j] as int == digit_val(
                    s@[j],
                ),
            same <==> (forall|j: int| 0 <= j < i ==> #[trigger] s@[j] == s@[0]),
        decreases 11 - i,
    {
        if digits[i] != digits[0] {
            assert(s@[i as int] != s@[0]);
            same = false;
        } else {
            assert(s@[i as int] as int == s@[0] as int);
            assert(s@[i as int] == s@[0]);
        }
        i += 1;
    }
    if same {
        return IdentCheck::RepeatedDigits;
    }
    let d1 = computed_check_digit(&digits, s, 9);
    if digits[9] != d1 {
        return IdentCheck::WrongCheckDigit;
    }
    let d2 = computed_check_digit(&digits, s, 10);
    if digits[10] != d2 {
        return IdentCheck::WrongCheckDigit;
    }
    IdentCheck::Valid
}

/// Computes the check digit over the first `len` digits of the value.
fn computed_check_digit(digits: &Vec<u8>, s: &str, len: usize) -> (r: u8)
    requires
        s@.len() == 11,
        digits@.len() == 11,
        len == 9 || len == 10,
        forall|j: int|
            0 <= j < 11 ==> is_digit_char(#[trigger] s@[j]) && digits@[j] as int == digit_val(
                s@[j],
            ),
    ensures
        r as int == check_digit(s@, len as int),
{
    let mut sum: u32 = 0;
    let mut k: usize = 0;
    while k < len
        invariant
            s@.len() == 11,
            digits@.len() == 11,
            len == 9 || len == 10,
            k <= len,
            forall|j: int|
                0 <= j < 11 ==> is_digit_char(#[trigger] s@[j]) && digits@[j] as int == digit_val(
                    s@[j],
                ),
            sum as int == weighted_sum(s@, len as int, k as int),
            sum as int <= 99 * k,
        decreases len - k,
    {
        let weight = (len + 1 - k) as u32;
        proof {
            assert(digits@[k as int] as int == digit_val(s@[k as int]) && is_digit_char(
                s@[k as int],
            ));
            assert(digits@[k as int] as int * (len + 1 - k) <= 99) by (nonlinear_arith)
                requires
                    0 <= digits@[k as int] as int <= 9,
                    1 <= len + 1 - k <= 11,
            ;
        }
        sum = sum + (digits[k] as u32) * weight;
        k += 1;
    }
    let m = sum % 11;
    let dv = 11 - m;
    if dv >= 10 {
        0
    } else {
        dv as u8
    }
}

/// Renders an 11-character value in the grouped form `XXX.XXX.XXX-XX`.
pub fn format_identifier(s: &str) -> (r: String)
    requires
        s@.len() == 11,
    ensures
        r@ == grouped(s@),
{
    let mut out = String::from_str(s.substring_char(0, 3));
    out.append(".");
    out.append(s.substring_char(3, 6));
    out.append(".");
    out.append(s.substring_char(6, 9));
    out.append("-");
    out.append(s.substring_char(9, 11));
    proof {
        reveal_strlit(".");
        reveal_strlit("-");
        assert(out@ =~= grouped(s@));
    }
    out
}

} // verus!
