use vstd::prelude::*;

use crate::text::{
    write_decimal, decimal_text, is_digit, lemma_decimal_text, lemma_index_of,
    all_digits, all_zeros, digits_in, digits_value, find_char, index_of, lemma_digits_bounds, lemma_digits_zero,
    lemma_pow10_positive, pow10, read_digits, zeros_in,
};
use crate::error::ValidationError;

verus! {

/// Whether the text begins with a sign character.
pub open spec fn has_sign(s: Seq<char>) -> bool {
    s.len() > 0 && (s[0] == '-' || s[0] == '+')
}

/// Whether the text begins with a minus sign.
pub open spec fn is_negative(s: Seq<char>) -> bool {
    s.len() > 0 && s[0] == '-'
}

/// The text after an optional leading sign.
pub open spec fn unsigned_part(s: Seq<char>) -> Seq<char> {
    if has_sign(s) {
        s.drop_first()
    } else {
        s
    }
}

/// What a query-count threshold text means: an optionally signed decimal
/// integer that must be at least zero and fit in an `i64`.
pub open spec fn count_threshold_of(s: Seq<char>) -> Result<int, ValidationError> {
    let body = unsigned_part(s);
    if !all_digits(body) {
        Err(ValidationError::MalformedNumber)
    } else if is_negative(s) && digits_value(body) > 0 {
        Err(ValidationError::NegativeCount)
    } else if digits_value(body) > i64::MAX {
        Err(ValidationError::CountTooLarge)
    } else {
        Ok(digits_value(body))
    }
}

/// Parses the minimum number of executions a query needs to count in a check.
pub fn parse_query_count_threshold(s: &str) -> (r: Result<i64, ValidationError>)
    ensures
        match r {
            Ok(v) => count_threshold_of(s@) == Ok::<int, ValidationError>(v as int) && v >= 0,
            Err(e) => count_threshold_of(s@) == Err::<int, ValidationError>(e),
        },
{
    let n = s.unicode_len();
    let mut start: usize = 0;
    let mut negative = false;
    if n > 0 {
        let c = s.get_char(0);
        if c == '-' || c == '+' {
            start = 1;
            negative = c == '-';
        }
    }
    assert(s@.subrange(start as int, n as int) =~= unsigned_part(s@));
    if !digits_in(s, start, n) {
        return Err(ValidationError::MalformedNumber);
    }
    match read_digits(s, start, n) {
        None => {
            if negative {
                Err(ValidationError::NegativeCount)
            } else {
                Err(ValidationError::CountTooLarge)
            }
        },
        Some(v) => {
            if negative && v > 0 {
                Err(ValidationError::NegativeCount)
            } else if v > i64::MAX as u64 {
                Err(ValidationError::CountTooLarge)
            } else {
                Ok(v as i64)
            }
        },
    }
}

/// Every integer from zero to `i64::MAX` written in decimal is accepted as
/// itself, and every integer below zero written with a minus sign is refused
/// as negative.
pub proof fn lemma_count_sign(c: int)
    requires
        c <= i64::MAX,
    ensures
        c >= 0 ==> count_threshold_of(decimal_text(c as nat)) == Ok::<int, ValidationError>(c),
        c < 0 ==> count_threshold_of(seq!['-'] + decimal_text((-c) as nat)) == Err::<
            int,
            ValidationError,
        >(ValidationError::NegativeCount),
{
    if c >= 0 {
        let t = decimal_text(c as nat);
        lemma_decimal_text(c as nat);
        assert(is_digit(t[0]));
        assert(unsigned_part(t) == t);
    } else {
        let t = decimal_text((-c) as nat);
        lemma_decimal_text((-c) as nat);
        let u = seq!['-'] + t;
        assert(u.drop_first() =~= t);
        assert(u[0] == '-');
    }
}

/// The digits before the decimal point of a percentage's unsigned text.
pub open spec fn whole_digits(body: Seq<char>) -> Seq<char> {
    body.take(index_of(body, '.'))
}

/// The digits after the decimal point, empty where there is no point.
pub open spec fn fraction_digits(body: Seq<char>) -> Seq<char> {
    if index_of(body, '.') < body.len() {
        body.skip(index_of(body, '.') + 1)
    } else {
        Seq::empty()
    }
}

/// Whether every character of `s` is a decimal digit; true of an empty `s`.
pub open spec fn digits_only(s: Seq<char>) -> bool {
    forall|i: int| 0 <= i < s.len() ==> is_digit(#[trigger] s[i])
}

/// Whether the unsigned text is digits, a point and digits, where either run
/// of digits may be empty but not both, or the point is left out with the
/// digits after it.
pub open spec fn is_decimal(body: Seq<char>) -> bool {
    &&& digits_only(whole_digits(body))
    &&& digits_only(fraction_digits(body))
    &&& (whole_digits(body).len() > 0 || fraction_digits(body).len() > 0)
}

/// The decimal's value scaled by ten to the number of fraction digits.
pub open spec fn scaled_value(body: Seq<char>) -> int {
    digits_value(whole_digits(body)) * pow10(fraction_digits(body).len()) + digits_value(
        fraction_digits(body),
    )
}

/// Whether the signed decimal lies in `0 ..= 100`.
pub open spec fn percentage_in_range(s: Seq<char>) -> bool {
    let body = unsigned_part(s);
    (is_negative(s) ==> scaled_value(body) == 0) && scaled_value(body) <= 100 * pow10(
        fraction_digits(body).len(),
    )
}

/// What a percentage threshold text means: a decimal in `0 ..= 100`, kept as
/// its whole part and its fraction digits.
pub open spec fn percentage_of(s: Seq<char>) -> Result<(int, Seq<char>), ValidationError> {
    let body = unsigned_part(s);
    if !is_decimal(body) {
        Err(ValidationError::MalformedNumber)
    } else if !percentage_in_range(s) {
        Err(ValidationError::PercentageOutOfRange)
    } else {
        Ok((digits_value(whole_digits(body)), fraction_digits(body)))
    }
}

/// Whether `whole.fraction` is a decimal in `0 ..= 100`.
pub open spec fn percentage_value_ok(whole: int, fraction: Seq<char>) -> bool {
    &&& 0 <= whole
    &&& forall|i: int| 0 <= i < fraction.len() ==> is_digit(#[trigger] fraction[i])
    &&& whole * pow10(fraction.len()) + digits_value(fraction) <= 100 * pow10(fraction.len())
}

/// A percentage in `0 ..= 100`, held exactly as a whole part and the decimal
/// digits that follow the point.
#[derive(Debug)]
pub struct Percentage {
    whole: u8,
    fraction: String,
}

impl Percentage {
    /// The whole part and the fraction digits.
    pub closed spec fn view(&self) -> (int, Seq<char>) {
        (self.whole as int, self.fraction@)
    }

    /// The fraction is digits, and the value lies in `0 ..= 100`.
    pub open spec fn wf(&self) -> bool {
        percentage_value_ok(self.view().0, self.view().1)
    }

    /// Whether the fraction is digits and the value lies in `0 ..= 100`.
    pub fn in_range(&self) -> (r: bool)
        ensures
            r == self.wf(),
    {
        let f = self.fraction.as_str();
        let n = f.unicode_len();
        proof {
            assert(f@.subrange(0, n as int) =~= f@);
        }
        if n > 0 && !digits_in(f, 0, n) {
            return false;
        }
        proof {
            lemma_digits_bounds(f@);
            lemma_digits_zero(f@);
            lemma_pow10_positive(f@.len());
            lemma_range(self.whole as int, digits_value(f@), pow10(f@.len()));
        }
        let zero = zeros_in(f, 0, n);
        self.whole < 100 || (self.whole == 100 && zero)
    }

    /// The whole part.
    pub fn whole(&self) -> (r: u8)
        ensures
            r as int == self.view().0,
    {
        self.whole
    }

    /// The percentage written as a decimal, with the point only where there
    /// are fraction digits.
    pub fn to_text(&self) -> (r: String)
        ensures
            r@ == percentage_text(self.view().0 as nat, self.view().1),
    {
        let mut r = String::new();
        write_decimal(self.whole as u64, &mut r);
        if self.fraction.unicode_len() > 0 {
            proof {
                reveal_strlit(".");
            }
            r.append(".");
            r.append(self.fraction.as_str());
        }
        assert(r@ =~= percentage_text(self.view().0 as nat, self.view().1));
        r
    }

    /// A copy of the percentage.
    pub fn duplicate(&self) -> (r: Percentage)
        ensures
            r == *self,
    {
        Percentage { whole: self.whole, fraction: self.fraction.clone() }
    }

    /// The digits after the decimal point, possibly none.
    pub fn fraction(&self) -> (r: &String)
        ensures
            r@ == self.view().1,
    {
        &self.fraction
    }
}

/// A percentage written as a whole part and fraction digits.
pub open spec fn percentage_text(whole: nat, fraction: Seq<char>) -> Seq<char> {
    if fraction.len() == 0 {
        decimal_text(whole)
    } else {
        decimal_text(whole) + seq!['.'] + fraction
    }
}

/// A percentage of value `whole.fraction` is accepted, and kept exactly as
/// written, when it lies in `0 ..= 100`; above 100 it is refused, and so is
/// any value above zero with a minus sign.
pub proof fn lemma_percentage_range(whole: nat, fraction: Seq<char>)
    requires
        forall|i: int| 0 <= i < fraction.len() ==> is_digit(#[trigger] fraction[i]),
    ensures
        whole * pow10(fraction.len()) + digits_value(fraction) <= 100 * pow10(fraction.len())
            ==> percentage_of(percentage_text(whole, fraction)) == Ok::<
            (int, Seq<char>),
            ValidationError,
        >((whole as int, fraction)),
        whole * pow10(fraction.len()) + digits_value(fraction) > 100 * pow10(fraction.len())
            ==> percentage_of(percentage_text(whole, fraction)) == Err::<
            (int, Seq<char>),
            ValidationError,
        >(ValidationError::PercentageOutOfRange),
        whole * pow10(fraction.len()) + digits_value(fraction) > 0 ==> percentage_of(
            seq!['-'] + percentage_text(whole, fraction),
        ) == Err::<(int, Seq<char>), ValidationError>(ValidationError::PercentageOutOfRange),
{
    let w = decimal_text(whole);
    let t = percentage_text(whole, fraction);
    lemma_decimal_text(whole);
    assert forall|j: int| 0 <= j < w.len() implies #[trigger] t[j] != '.' by {
        assert(t[j] == w[j]);
        assert(is_digit(w[j]));
    }
    if fraction.len() == 0 {
        lemma_index_of(t, '.', w.len() as int);
        assert(t.take(w.len() as int) =~= w);
        assert(fraction =~= Seq::<char>::empty());
        assert(fraction_digits(t) == fraction);
    } else {
        assert(t[w.len() as int] == '.');
        lemma_index_of(t, '.', w.len() as int);
        assert(t.take(w.len() as int) =~= w);
        assert(t.skip(w.len() as int + 1) =~= fraction);
    }
    assert(t[0] == w[0]);
    assert(is_digit(w[0]));
    assert(unsigned_part(t) == t);
    assert(!is_negative(t));
    assert(whole_digits(t) == w);
    assert(fraction_digits(t) == fraction);
    let u = seq!['-'] + t;
    assert(u.drop_first() =~= t);
    assert(u[0] == '-');
}

/// A percentage that was accepted reads back from its canonical text as the
/// same whole part and fraction digits.
pub proof fn lemma_percentage_round_trip(s: Seq<char>)
    requires
        percentage_of(s) is Ok,
    ensures
        percentage_value_ok(percentage_of(s)->Ok_0.0, percentage_of(s)->Ok_0.1),
        percentage_of(percentage_text(percentage_of(s)->Ok_0.0 as nat, percentage_of(s)->Ok_0.1))
            == percentage_of(s),
{
    let body = unsigned_part(s);
    let f = fraction_digits(body);
    lemma_digits_bounds(whole_digits(body));
    lemma_percentage_range(digits_value(whole_digits(body)) as nat, f);
}

proof fn lemma_range(w: int, f: int, p: int)
    requires
        0 <= w,
        0 <= f < p,
        p >= 1,
    ensures
        w < 100 ==> w * p + f < 100 * p,
        w == 100 ==> (w * p + f <= 100 * p <==> f == 0),
        w > 100 ==> w * p + f > 100 * p,
        (w * p + f == 0) <==> (w == 0 && f == 0),
{
    assert(w < 100 ==> w * p + f < 100 * p) by (nonlinear_arith)
        requires 0 <= f < p, p >= 1;
    assert(w > 100 ==> w * p + f > 100 * p) by (nonlinear_arith)
        requires 0 <= f < p, p >= 1;
    assert((w * p + f == 0) ==> w == 0) by (nonlinear_arith)
        requires 0 <= w, 0 <= f < p, p >= 1;
}

/// Parses the minimum share of all requests, in percent, that a query needs
/// to count in a check.
pub fn parse_query_percentage_threshold(s: &str) -> (r: Result<Percentage, ValidationError>)
    ensures
        match r {
            Ok(p) => percentage_of(s@) == Ok::<(int, Seq<char>), ValidationError>(p.view())
                && p.wf(),
            Err(e) => percentage_of(s@) == Err::<(int, Seq<char>), ValidationError>(e),
        },
{
    let n = s.unicode_len();
    let mut start: usize = 0;
    let mut negative = false;
    if n > 0 {
        let c = s.get_char(0);
        if c == '-' || c == '+' {
            start = 1;
            negative = c == '-';
        }
    }
    let ghost body = unsigned_part(s@);
    assert(s@.subrange(start as int, n as int) =~= body);
    let dot = find_char(s, start, '.');
    proof {
        assert(s@.skip(start as int) =~= body);
        assert(s@.subrange(start as int, dot as int) =~= whole_digits(body));
        if dot < n {
            assert(s@.subrange(dot + 1, n as int) =~= fraction_digits(body));
        }
    }
    let frac_start: usize = if dot < n { dot + 1 } else { n };
    let ghost frac = fraction_digits(body);
    let ghost whole = whole_digits(body);
    assert(s@.subrange(frac_start as int, n as int) =~= frac);
    let whole_ok = start == dot || digits_in(s, start, dot);
    let frac_ok = frac_start == n || digits_in(s, frac_start, n);
    if !whole_ok || !frac_ok || (start == dot && frac_start == n) {
        return Err(ValidationError::MalformedNumber);
    }
    proof {
        lemma_digits_bounds(frac);
        lemma_digits_zero(frac);
        lemma_pow10_positive(frac.len());
        lemma_digits_bounds(whole);
        lemma_range(digits_value(whole), digits_value(frac), pow10(frac.len()));
    }
    let zero_fraction = zeros_in(s, frac_start, n);
    let whole_value = if start == dot {
        assert(whole =~= Seq::<char>::empty());
        Some(0u64)
    } else {
        read_digits(s, start, dot)
    };
    match whole_value {
        None => Err(ValidationError::PercentageOutOfRange),
        Some(w) => {
            if w > 100 || (w == 100 && !zero_fraction) || (negative && (w > 0
                || !zero_fraction)) {
                Err(ValidationError::PercentageOutOfRange)
            } else {
                let fraction = s.substring_char(frac_start, n).to_owned();
                proof {
                    lemma_percentage_round_trip(s@);
                }
                Ok(Percentage { whole: w as u8, fraction })
            }
        },
    }
}

} // verus!
