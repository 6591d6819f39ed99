use vstd::prelude::*;
use crate::error::DecodeError;

verus! {

// ---------------------------------------------------------------------------
// Character classes of the decimal wire format
// ---------------------------------------------------------------------------

/// `c` is an ASCII decimal digit.
pub open spec fn is_digit_char(c: char) -> bool {
    48 <= c as int <= 57
}

/// Numeric value of an ASCII digit.
pub open spec fn digit_val(c: char) -> int {
    c as int - 48
}

/// `c` separates mantissa from exponent in exponential notation.
pub open spec fn is_exp_marker(c: char) -> bool {
    c == 'e' || c == 'E'
}

pub open spec fn all_digits(s: Seq<char>) -> bool {
    forall|i: int| 0 <= i < s.len() ==> is_digit_char(#[trigger] s[i])
}

/// Value of a digit string read in base 10, most significant digit first.
pub open spec fn digits_val(s: Seq<char>) -> int
    decreases s.len(),
{
    if s.len() == 0 {
        0
    } else {
        digits_val(s.drop_last()) * 10 + digit_val(s.last())
    }
}

pub open spec fn pow10(n: nat) -> int
    decreases n,
{
    if n == 0 {
        1
    } else {
        10 * pow10((n - 1) as nat)
    }
}

// ---------------------------------------------------------------------------
// Integer texts (the exponent part)
// ---------------------------------------------------------------------------

/// `s` without its optional leading sign.
pub open spec fn unsigned_part(s: Seq<char>) -> Seq<char> {
    if s.len() > 0 && (s[0] == '+' || s[0] == '-') {
        s.subrange(1, s.len() as int)
    } else {
        s
    }
}

pub open spec fn is_negative_text(s: Seq<char>) -> bool {
    s.len() > 0 && s[0] == '-'
}

/// An optionally signed, non-empty run of digits.
pub open spec fn is_int_text(s: Seq<char>) -> bool {
    unsigned_part(s).len() > 0 && all_digits(unsigned_part(s))
}

/// Mathematical value of an integer text.
pub open spec fn int_text_val(s: Seq<char>) -> int {
    if is_negative_text(s) {
        -digits_val(unsigned_part(s))
    } else {
        digits_val(unsigned_part(s))
    }
}

/// An integer text whose value fits in `i32`.
pub open spec fn is_i32_text(s: Seq<char>) -> bool {
    is_int_text(s) && i32::MIN <= int_text_val(s) <= i32::MAX
}

// ---------------------------------------------------------------------------
// Decimal mantissa texts
// ---------------------------------------------------------------------------

/// A non-empty string of digits with at most one decimal point and at
/// least one digit: `"12"`, `"12.5"`, `".5"`, `"12."`.
pub open spec fn is_unsigned_decimal(u: Seq<char>) -> bool {
    &&& u.len() > 0
    &&& forall|i: int| 0 <= i < u.len() ==> is_digit_char(#[trigger] u[i]) || u[i] == '.'
    &&& exists|i: int| 0 <= i < u.len() && is_digit_char(#[trigger] u[i])
    &&& forall|i: int, j: int|
        0 <= i < u.len() && 0 <= j < u.len() && #[trigger] u[i] == '.' && #[trigger] u[j] == '.'
            ==> i == j
}

/// An optionally signed plain decimal numeral.  This is the only mantissa
/// form the wire format admits; in particular the special float spellings
/// (`inf`, `NaN`) are rejected.
pub open spec fn is_mantissa_text(s: Seq<char>) -> bool {
    is_unsigned_decimal(unsigned_part(s))
}

// ---------------------------------------------------------------------------
// The parse function, specified
// ---------------------------------------------------------------------------

/// Index of the first exponent marker in `s`, or `s.len()` if none.
pub open spec fn marker_ix(s: Seq<char>) -> int
    decreases s.len(),
{
    if s.len() == 0 {
        0
    } else if is_exp_marker(s[0]) {
        0
    } else {
        1 + marker_ix(s.skip(1))
    }
}

/// What parsing a scientific-number text yields: the mantissa text and the
/// exponent value, or nothing if the text is malformed.
pub open spec fn spec_parse_scientific(s: Seq<char>) -> Option<(Seq<char>, int)> {
    let m = marker_ix(s);
    if m < s.len() {
        let mant = s.take(m);
        let exp = s.skip(m + 1);
        if is_mantissa_text(mant) && is_i32_text(exp) {
            Some((mant, int_text_val(exp)))
        } else {
            None
        }
    } else {
        if is_mantissa_text(s) {
            Some((s, 0))
        } else {
            None
        }
    }
}

/// The substring reported when parsing fails: the mantissa part if it is
/// malformed, otherwise the exponent part.
pub open spec fn spec_parse_failure_part(s: Seq<char>) -> Seq<char> {
    let m = marker_ix(s);
    if m < s.len() {
        if !is_mantissa_text(s.take(m)) {
            s.take(m)
        } else {
            s.skip(m + 1)
        }
    } else {
        s
    }
}

// ---------------------------------------------------------------------------
// The Scientific number itself
// ---------------------------------------------------------------------------

/// An exact decimal magnitude `mantissa * 10^exponent`.
///
/// The mantissa is kept as the decimal text it was read from, so values far
/// outside the double-precision dynamic range survive decoding unchanged;
/// numeric interpretation (plotting, display rounding) is left to the
/// consumer.  The exponent is an unrestricted 32-bit integer.
#[derive(Debug, PartialEq, Eq)]
pub struct Scientific {
    pub mantissa: String,
    pub exponent: i32,
}

impl Scientific {
    /// The mantissa text is a well-formed decimal numeral.
    pub open spec fn wf(self) -> bool {
        is_mantissa_text(self.mantissa@)
    }

    /// The zero value `0 * 10^0`.
    pub fn zero() -> (r: Scientific)
        ensures
            r.mantissa@ =~= seq!['0'],
            r.exponent == 0,
            r.wf(),
    {
        proof {
            reveal_strlit("0");
        }
        Scientific { mantissa: String::from_str("0"), exponent: 0 }
    }
}

impl Clone for Scientific {
    fn clone(&self) -> (r: Self)
        ensures
            r == *self,
    {
        Scientific { mantissa: self.mantissa.clone(), exponent: self.exponent }
    }
}

impl Default for Scientific {
    fn default() -> (r: Self)
        ensures
            r.mantissa@ =~= seq!['0'],
            r.exponent == 0,
            r.wf(),
    {
        Scientific::zero()
    }
}

// ---------------------------------------------------------------------------
// Arithmetic lemmas about digit strings
// ---------------------------------------------------------------------------

proof fn lemma_digits_val_nonneg(s: Seq<char>)
    requires
        all_digits(s),
    ensures
        digits_val(s) >= 0,
    decreases s.len(),
{
    if s.len() > 0 {
        assert(all_digits(s.drop_last()));
        lemma_digits_val_nonneg(s.drop_last());
    }
}

proof fn lemma_digits_val_upper(s: Seq<char>)
    requires
        all_digits(s),
    ensures
        digits_val(s) < pow10(s.len()),
    decreases s.len(),
{
    if s.len() > 0 {
        assert(all_digits(s.drop_last()));
        lemma_digits_val_upper(s.drop_last());
    }
}

proof fn lemma_digits_val_lower(s: Seq<char>)
    requires
        all_digits(s),
        s.len() > 0,
        digit_val(s[0]) >= 1,
    ensures
        digits_val(s) >= pow10((s.len() - 1) as nat),
    decreases s.len(),
{
    if s.len() == 1 {
        assert(digits_val(s) == digits_val(s.drop_last()) * 10 + digit_val(s.last()));
        assert(s.drop_last().len() == 0);
    } else {
        assert(all_digits(s.drop_last()));
        assert(s.drop_last()[0] == s[0]);
        lemma_digits_val_lower(s.drop_last());
        assert(digit_val(s.last()) >= 0);
    }
}

proof fn lemma_pow10_monotone(m: nat, n: nat)
    requires
        m <= n,
    ensures
        pow10(m) <= pow10(n),
    decreases n,
{
    if m < n && n > 0 {
        lemma_pow10_monotone(m, (n - 1) as nat);
        lemma_pow10_positive((n - 1) as nat);
    }
}

proof fn lemma_pow10_positive(n: nat)
    ensures
        pow10(n) >= 1,
    decreases n,
{
    if n > 0 {
        lemma_pow10_positive((n - 1) as nat);
    }
}

/// Leading zeros do not change the value of a digit string.
proof fn lemma_skip_leading_zero(s: Seq<char>)
    requires
        all_digits(s),
        s.len() > 0,
        digit_val(s[0]) == 0,
    ensures
        digits_val(s) == digits_val(s.skip(1)),
    decreases s.len(),
{
    if s.len() == 1 {
        assert(s.skip(1).len() == 0);
        assert(digits_val(s) == digits_val(s.drop_last()) * 10 + digit_val(s.last()));
    } else {
        let d = s.drop_last();
        assert(all_digits(d));
        assert(d[0] == s[0]);
        lemma_skip_leading_zero(d);
        assert(d.skip(1) =~= s.skip(1).drop_last());
        assert(s.skip(1).last() == s.last());
        assert(digits_val(s.skip(1)) == digits_val(s.skip(1).drop_last()) * 10 + digit_val(
            s.skip(1).last(),
        ));
    }
}

proof fn lemma_skip_leading_zeros(s: Seq<char>, k: int)
    requires
        all_digits(s),
        0 <= k <= s.len(),
        forall|j: int| 0 <= j < k ==> digit_val(#[trigger] s[j]) == 0,
    ensures
        digits_val(s) == digits_val(s.skip(k)),
    decreases k,
{
    if k > 0 {
        lemma_skip_leading_zero(s);
        assert(all_digits(s.skip(1)));
        lemma_skip_leading_zeros(s.skip(1), k - 1);
        assert(s.skip(1).skip(k - 1) =~= s.skip(k));
    } else {
        assert(s.skip(0) =~= s);
    }
}

/// Characterisation of `marker_ix`: it is the first marker position.
proof fn lemma_marker_ix(s: Seq<char>)
    ensures
        0 <= marker_ix(s) <= s.len(),
        forall|j: int| 0 <= j < marker_ix(s) ==> !is_exp_marker(#[trigger] s[j]),
        marker_ix(s) < s.len() ==> is_exp_marker(s[marker_ix(s)]),
    decreases s.len(),
{
    if s.len() > 0 && !is_exp_marker(s[0]) {
        lemma_marker_ix(s.skip(1));
        assert forall|j: int| 0 <= j < marker_ix(s) implies !is_exp_marker(#[trigger] s[j]) by {
            if j > 0 {
                assert(s[j] == s.skip(1)[j - 1]);
            }
        }
        if marker_ix(s) < s.len() {
            assert(s[marker_ix(s)] == s.skip(1)[marker_ix(s.skip(1))]);
        }
    }
}

// ---------------------------------------------------------------------------
// Executable helpers
// ---------------------------------------------------------------------------

fn is_digit(c: char) -> (b: bool)
    ensures
        b == is_digit_char(c),
{
    let x = c as u32;
    48 <= x && x <= 57
}

/// Where the digits of `s` begin once an optional sign is skipped, together
/// with the sign itself.
fn split_sign(s: &str, n: usize) -> (r: (bool, usize))
    requires
        n == s@.len(),
    ensures
        r.1 <= n,
        r.1 == if n > 0 && (s@[0] == '+' || s@[0] == '-') {
            1int
        } else {
            0int
        },
        r.0 == is_negative_text(s@),
        unsigned_part(s@) =~= s@.skip(r.1 as int),
{
    if n == 0 {
        (false, 0)
    } else {
        let c = s.get_char(0);
        if c == '-' {
            (true, 1)
        } else if c == '+' {
            (false, 1)
        } else {
            (false, 0)
        }
    }
}

/// Parse an optionally signed decimal integer text into an `i32`.
///
/// Succeeds exactly on the texts whose value fits the 32-bit signed range.
pub fn parse_i32(s: &str) -> (r: Option<i32>)
    ensures
        (r is Some) == is_i32_text(s@),
        r matches Some(v) ==> v as int == int_text_val(s@),
{
    let n = s.unicode_len();
    let (neg, start) = split_sign(s, n);
    if start == n {
        // no digits at all
        assert(!is_int_text(s@));
        return None;
    }
    let ghost u = unsigned_part(s@);

    // First pass: every remaining character must be a digit; find the first
    // non-zero digit on the way.
    let mut i: usize = start;
    let mut z: usize = start;  // first index whose digit is non-zero, or n
    let mut seen_nonzero: bool = false;
    while i < n
        invariant
            start <= i <= n,
            n == s@.len(),
            start <= z <= i,
            u =~= s@.skip(start as int),
            u =~= unsigned_part(s@),
            forall|j: int| start <= j < i ==> is_digit_char(#[trigger] s@[j]),
            seen_nonzero ==> z < i && digit_val(s@[z as int]) != 0,
            !seen_nonzero ==> z == i,
            forall|j: int| start <= j < z ==> digit_val(#[trigger] s@[j]) == 0,
        decreases n - i,
    {
        let c = s.get_char(i);
        if !is_digit(c) {
            assert(u[i - start] == s@[i as int]);
            assert(!all_digits(u));
            return None;
        }
        if !seen_nonzero {
            let x = c as u32;
            if x != 48 {
                seen_nonzero = true;
            } else {
                z = i + 1;
            }
        }
        i = i + 1;
    }
    assert(all_digits(u)) by {
        assert forall|j: int| 0 <= j < u.len() implies is_digit_char(#[trigger] u[j]) by {
            assert(u[j] == s@[j + start]);
        }
    }
    proof {
        lemma_skip_leading_zeros(u, z - start);
        assert(u.skip(z - start) =~= s@.skip(z as int));
    }
    let ghost d = s@.skip(z as int);
    // d holds the significant digits; its value equals the whole text's.
    assert(digits_val(u) == digits_val(d));
    assert(all_digits(d));

    if n - z > 10 {
        // at least 11 significant digits: the value exceeds any i32
        proof {
            lemma_digits_val_lower(d);
            lemma_pow10_monotone(10, (d.len() - 1) as nat);
            assert(pow10(0) == 1);
            assert(pow10(1) == 10);
            assert(pow10(2) == 100);
            assert(pow10(3) == 1000);
            assert(pow10(4) == 10000);
            assert(pow10(5) == 100000);
            assert(pow10(6) == 1000000);
            assert(pow10(7) == 10000000);
            assert(pow10(8) == 100000000);
            assert(pow10(9) == 1000000000);
            assert(pow10(10) == 10000000000);
        }
        assert(!is_i32_text(s@));
        return None;
    }

    // Second pass: accumulate the at most 10 significant digits exactly.
    proof {
        lemma_digits_val_upper(d);
        lemma_pow10_monotone(d.len(), 10);
        assert(pow10(0) == 1);
        assert(pow10(1) == 10);
        assert(pow10(2) == 100);
        assert(pow10(3) == 1000);
        assert(pow10(4) == 10000);
        assert(pow10(5) == 100000);
        assert(pow10(6) == 1000000);
        assert(pow10(7) == 10000000);
        assert(pow10(8) == 100000000);
        assert(pow10(9) == 1000000000);
        assert(pow10(10) == 10000000000);
    }
    proof {
        lemma_digits_val_nonneg(d);
        assert(d.take(0) =~= Seq::<char>::empty());
    }
    let mut acc: u64 = 0;
    let mut k: usize = z;
    while k < n
        invariant
            z <= k <= n,
            n == s@.len(),
            d =~= s@.skip(z as int),
            all_digits(d),
            digits_val(d) < 10000000000,
            forall|j: int| z <= j < n ==> is_digit_char(#[trigger] s@[j]),
            acc == digits_val(d.take(k - z)),
            acc <= digits_val(d),
        decreases n - k,
    {
        let c = s.get_char(k);
        let dv: u64 = (c as u32 - 48) as u64;
        proof {
            let p = d.take(k - z);
            let q = d.take(k + 1 - z);
            assert(q.drop_last() =~= p);
            assert(q.last() == d[k - z]);
            assert(d[k - z] == s@[k as int]);
            lemma_digits_val_nonneg(q);
            let ghost rest = d.skip(k + 1 - z);
            assert(all_digits(rest));
            lemma_digits_val_nonneg(rest);
            lemma_prefix_bound(d, k + 1 - z);
        }
        acc = acc * 10 + dv;
        k = k + 1;
    }
    assert(d.take(n - z) =~= d);
    assert(acc == digits_val(d));
    assert(int_text_val(s@) == if neg {
        -digits_val(u)
    } else {
        digits_val(u)
    });

    if neg {
        if acc <= 2147483648 {
            let v: i32 = if acc == 2147483648 {
                i32::MIN
            } else {
                -(acc as i32)
            };
            Some(v)
        } else {
            None
        }
    } else {
        if acc <= 2147483647 {
            Some(acc as i32)
        } else {
            None
        }
    }
}

/// The value of a prefix of a digit string never exceeds the whole.
proof fn lemma_prefix_bound(s: Seq<char>, k: int)
    requires
        all_digits(s),
        0 <= k <= s.len(),
    ensures
        digits_val(s.take(k)) <= digits_val(s),
    decreases s.len() - k,
{
    if k < s.len() {
        let t = s.take(k + 1);
        assert(t.drop_last() =~= s.take(k));
        lemma_digits_val_nonneg(s.take(k));
        assert(digits_val(t) == digits_val(s.take(k)) * 10 + digit_val(t.last()));
        assert(digit_val(t.last()) >= 0);
        lemma_prefix_bound(s, k + 1);
    } else {
        assert(s.take(k) =~= s);
    }
}

/// Check that `s` is an optionally signed plain decimal numeral.
fn check_mantissa(s: &str) -> (b: bool)
    ensures
        b == is_mantissa_text(s@),
{
    let n = s.unicode_len();
    let (_, start) = split_sign(s, n);
    let ghost u = unsigned_part(s@);
    if start == n {
        assert(u.len() == 0);
        return false;
    }
    let mut i: usize = start;
    let mut seen_digit: bool = false;
    let mut seen_dot: bool = false;
    while i < n
        invariant
            start <= i <= n,
            n == s@.len(),
            u =~= s@.skip(start as int),
            u =~= unsigned_part(s@),
            forall|j: int|
                start <= j < i ==> is_digit_char(#[trigger] s@[j]) || s@[j] == '.',
            seen_digit == exists|j: int| start <= j < i && is_digit_char(#[trigger] s@[j]),
            seen_dot == exists|j: int| start <= j < i && #[trigger] s@[j] == '.',
            forall|j: int, l: int|
                start <= j < i && start <= l < i && #[trigger] s@[j] == '.' && #[trigger] s@[l]
                    == '.' ==> j == l,
        decreases n - i,
    {
        let c = s.get_char(i);
        if is_digit(c) {
            seen_digit = true;
        } else if c == '.' {
            if seen_dot {
                let ghost j = choose|j: int| start <= j < i && #[trigger] s@[j] == '.';
                assert(u[j - start] == '.' && u[i - start] == '.');
                assert(!is_unsigned_decimal(u));
                return false;
            }
            seen_dot = true;
        } else {
            assert(u[i - start] == s@[i as int]);
            assert(!is_unsigned_decimal(u));
            return false;
        }
        i = i + 1;
    }
    if seen_digit {
        assert(is_unsigned_decimal(u)) by {
            assert(u.len() > 0);
            assert forall|j: int| 0 <= j < u.len() implies is_digit_char(#[trigger] u[j]) || u[j]
                == '.' by {
                assert(u[j] == s@[j + start]);
            }
            let j = choose|j: int| start <= j < n && is_digit_char(#[trigger] s@[j]);
            assert(u[j - start] == s@[j]);
            assert forall|j: int, l: int|
                0 <= j < u.len() && 0 <= l < u.len() && #[trigger] u[j] == '.' && #[trigger] u[l]
                    == '.' implies j == l by {
                assert(s@[j + start] == '.' && s@[l + start] == '.');
            }
        }
        true
    } else {
        assert(!is_unsigned_decimal(u)) by {
            if exists|j: int| 0 <= j < u.len() && is_digit_char(#[trigger] u[j]) {
                let j = choose|j: int| 0 <= j < u.len() && is_digit_char(#[trigger] u[j]);
                assert(s@[j + start] == u[j]);
            }
        }
        false
    }
}

/// Find the first exponent marker in `s`, or `n` if there is none.
fn find_marker(s: &str, n: usize) -> (r: usize)
    requires
        n == s@.len(),
    ensures
        r == marker_ix(s@),
{
    let mut i: usize = 0;
    while i < n
        invariant
            0 <= i <= n,
            n == s@.len(),
            forall|j: int| 0 <= j < i ==> !is_exp_marker(#[trigger] s@[j]),
        decreases n - i,
    {
        let c = s.get_char(i);
        if c == 'e' || c == 'E' {
            proof {
                lemma_marker_ix(s@);
                if marker_ix(s@) < i {
                    assert(is_exp_marker(s@[marker_ix(s@)]));
                }
                if marker_ix(s@) > i {
                    assert(!is_exp_marker(s@[i as int]));
                }
            }
            return i;
        }
        i = i + 1;
    }
    proof {
        lemma_marker_ix(s@);
        if marker_ix(s@) < n {
            assert(is_exp_marker(s@[marker_ix(s@)]));
        }
    }
    n
}

/// Parse a decimal-or-exponential text into a [`Scientific`] value.
///
/// A text with an exponent marker splits into mantissa and exponent parts;
/// one without is a plain mantissa with exponent `0`.  The error carries
/// the exact substring that failed: the mantissa part when it is not a
/// plain decimal numeral, otherwise the exponent part.
pub fn parse_scientific(s: &str) -> (r: Result<Scientific, DecodeError>)
    ensures
        (r is Ok) == (spec_parse_scientific(s@) is Some),
        r matches Ok(sc) ==> {
            &&& spec_parse_scientific(s@) == Some((sc.mantissa@, sc.exponent as int))
            &&& sc.wf()
        },
        r matches Err(e) ==> e matches DecodeError::Parse { text } && text@
            == spec_parse_failure_part(s@),
{
    let n = s.unicode_len();
    let m = find_marker(s, n);
    if m < n {
        let mant = s.substring_char(0, m);
        let exp = s.substring_char(m + 1, n);
        assert(mant@ =~= s@.take(m as int));
        assert(exp@ =~= s@.skip(m as int + 1));
        if !check_mantissa(mant) {
            return Err(DecodeError::Parse { text: String::from_str(mant) });
        }
        match parse_i32(exp) {
            Some(e) => Ok(Scientific { mantissa: String::from_str(mant), exponent: e }),
            None => Err(DecodeError::Parse { text: String::from_str(exp) }),
        }
    } else {
        if check_mantissa(s) {
            Ok(Scientific { mantissa: String::from_str(s), exponent: 0 })
        } else {
            Err(DecodeError::Parse { text: String::from_str(s) })
        }
    }
}

} // verus!

