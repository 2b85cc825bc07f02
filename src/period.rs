use vstd::prelude::*;

use crate::text::{write_decimal, decimal_text, digit_char, digit_value, is_digit, lemma_digit_char};
use crate::error::ValidationError;

verus! {

/// Hours in one unit of a validation window: `w` weeks, `d` days, `h` hours;
/// zero for any other character.
pub open spec fn unit_hours(c: char) -> int {
    if c == 'w' {
        168
    } else if c == 'd' {
        24
    } else if c == 'h' {
        1
    } else {
        0
    }
}

/// Whether `c` is ASCII whitespace, which may separate amounts.
pub open spec fn is_space(c: char) -> bool {
    c == ' ' || c == '\t' || c == '\n' || c == '\r' || c == '\x0C'
}

/// Where reading a validation window stands after a prefix of it.
pub enum PeriodScan {
    /// Between amounts: the hours so far, and whether any amount was read.
    Between { total: int, seen: bool },
    /// Inside the digits of an amount that still waits for its unit.
    Amount { total: int, amount: int },
    /// A character that the grammar does not allow was met.
    Malformed,
    /// An amount or the total went past `u64::MAX` hours.
    TooLong,
}

/// One character of a validation window read in state `st`.
pub open spec fn scan_step(st: PeriodScan, c: char) -> PeriodScan {
    match st {
        PeriodScan::Between { total, seen } => {
            if is_space(c) {
                st
            } else if is_digit(c) {
                PeriodScan::Amount { total, amount: digit_value(c) }
            } else {
                PeriodScan::Malformed
            }
        },
        PeriodScan::Amount { total, amount } => {
            if is_digit(c) {
                if 10 * amount + digit_value(c) > u64::MAX {
                    PeriodScan::TooLong
                } else {
                    PeriodScan::Amount { total, amount: 10 * amount + digit_value(c) }
                }
            } else if unit_hours(c) > 0 {
                if total + amount * unit_hours(c) > u64::MAX {
                    PeriodScan::TooLong
                } else {
                    PeriodScan::Between { total: total + amount * unit_hours(c), seen: true }
                }
            } else {
                PeriodScan::Malformed
            }
        },
        _ => st,
    }
}

/// The state after reading all of `s`.
pub open spec fn scan_period(s: Seq<char>) -> PeriodScan
    decreases s.len(),
{
    if s.len() == 0 {
        PeriodScan::Between { total: 0, seen: false }
    } else {
        scan_step(scan_period(s.drop_last()), s.last())
    }
}

/// What a validation window text means, in hours: whitespace-separated amounts,
/// each digits followed by `w`, `d` or `h`, at least one of them.
pub open spec fn period_hours_of(s: Seq<char>) -> Result<int, ValidationError> {
    match scan_period(s) {
        PeriodScan::Between { total, seen } => if seen {
            Ok(total)
        } else {
            Err(ValidationError::MalformedPeriod)
        },
        PeriodScan::TooLong => Err(ValidationError::PeriodTooLong),
        _ => Err(ValidationError::MalformedPeriod),
    }
}

/// Whether the scan has stopped for good.
pub open spec fn is_stopped(st: PeriodScan) -> bool {
    st is Malformed || st is TooLong
}

proof fn lemma_stopped_stays(s: Seq<char>, k: int)
    requires
        0 <= k <= s.len(),
        is_stopped(scan_period(s.take(k))),
    ensures
        scan_period(s) == scan_period(s.take(k)),
    decreases s.len(),
{
    if k < s.len() {
        assert(s.drop_last().take(k) =~= s.take(k));
        lemma_stopped_stays(s.drop_last(), k);
    } else {
        assert(s.take(k) =~= s);
    }
}

/// The canonical text of a window of `n` hours, such as `36h`.
pub open spec fn hours_text(n: nat) -> Seq<char> {
    decimal_text(n).push('h')
}

proof fn lemma_scan_decimal(n: nat)
    requires
        n <= u64::MAX,
    ensures
        scan_period(decimal_text(n)) == (PeriodScan::Amount { total: 0, amount: n as int }),
    decreases n,
{
    let t = decimal_text(n);
    if n < 10 {
        lemma_digit_char(n as int);
        assert(unit_hours(digit_char(n as int)) == 0);
        assert(t.drop_last() =~= Seq::<char>::empty());
        assert(t.last() == digit_char(n as int));
        assert(scan_period(t.drop_last()) == (PeriodScan::Between { total: 0, seen: false }));
    } else {
        lemma_digit_char((n % 10) as int);
        assert(unit_hours(digit_char((n % 10) as int)) == 0);
        lemma_scan_decimal(n / 10);
        assert(t.drop_last() =~= decimal_text(n / 10));
        assert(10 * (n / 10) + n % 10 == n);
        assert(t.last() == digit_char((n % 10) as int));
    }
}

/// Every window of at most `u64::MAX` hours reads back from its canonical
/// text as the same number of hours.
pub proof fn lemma_hours_text_reads_back(n: nat)
    requires
        n <= u64::MAX,
    ensures
        period_hours_of(hours_text(n)) == Ok::<int, ValidationError>(n as int),
{
    lemma_scan_decimal(n);
    assert(hours_text(n).drop_last() =~= decimal_text(n));
}

/// A window that reads as some hours has a canonical text that reads as the
/// same hours: reading round-trips through the total duration.
pub proof fn lemma_period_round_trip(s: Seq<char>)
    requires
        period_hours_of(s) is Ok,
    ensures
        period_hours_of(hours_text(period_hours_of(s)->Ok_0 as nat)) == period_hours_of(s),
{
    lemma_scan_bounded(s);
    lemma_hours_text_reads_back(period_hours_of(s)->Ok_0 as nat);
}

proof fn lemma_scan_bounded(s: Seq<char>)
    ensures
        match scan_period(s) {
            PeriodScan::Between { total, seen } => 0 <= total <= u64::MAX,
            PeriodScan::Amount { total, amount } => 0 <= total <= u64::MAX && 0 <= amount
                <= u64::MAX,
            _ => true,
        },
    decreases s.len(),
{
    if s.len() > 0 {
        lemma_scan_bounded(s.drop_last());
    }
}

/// A window with a character that is neither a digit, whitespace nor one of
/// the units `w`, `d`, `h` is refused.
pub proof fn lemma_unknown_unit_refused(s: Seq<char>, i: int)
    requires
        0 <= i < s.len(),
        !is_digit(s[i]),
        !is_space(s[i]),
        unit_hours(s[i]) == 0,
    ensures
        period_hours_of(s) is Err,
{
    let pre = s.take(i + 1);
    assert(pre.drop_last() =~= s.take(i));
    assert(pre.last() == s[i]);
    lemma_stopped_stays(s, i + 1);
}

/// The length of a validation window, in whole hours.
#[derive(Debug, Clone, Copy)]
pub struct ValidationPeriod {
    hours: u64,
}

impl ValidationPeriod {
    /// The window's length in hours.
    pub closed spec fn view(&self) -> int {
        self.hours as int
    }

    /// The window's length in hours.
    pub fn hours(&self) -> (r: u64)
        ensures
            r as int == self.view(),
    {
        self.hours
    }

    /// The window's canonical text, its hours followed by `h`.
    pub fn to_text(&self) -> (r: String)
        ensures
            r@ == hours_text(self.view() as nat),
    {
        let mut r = String::new();
        write_decimal(self.hours, &mut r);
        proof {
            reveal_strlit("h");
        }
        r.append("h");
        assert(r@ =~= hours_text(self.view() as nat));
        r
    }

    /// Reads a validation window such as `24h` or `1w 2d 5h`.
    pub fn parse(s: &str) -> (r: Result<ValidationPeriod, ValidationError>)
        ensures
            match r {
                Ok(p) => period_hours_of(s@) == Ok::<int, ValidationError>(p.view()),
                Err(e) => period_hours_of(s@) == Err::<int, ValidationError>(e),
            },
    {
        let n = s.unicode_len();
        let mut i: usize = 0;
        let mut total: u64 = 0;
        let mut amount: u64 = 0;
        let mut in_amount = false;
        let mut seen = false;
        while i < n
            invariant
                i <= n == s@.len(),
                scan_period(s@.take(i as int)) == (if in_amount {
                    PeriodScan::Amount { total: total as int, amount: amount as int }
                } else {
                    PeriodScan::Between { total: total as int, seen }
                }),
            decreases n - i,
        {
            let c = s.get_char(i);
            let ghost pre = s@.take(i as int);
            assert(s@.take(i + 1).drop_last() =~= pre);
            assert(s@.take(i + 1).last() == c);
            let unit: u64 = if c == 'w' {
                168
            } else if c == 'd' {
                24
            } else if c == 'h' {
                1
            } else {
                0
            };
            if !in_amount {
                if c == ' ' || c == '\t' || c == '\n' || c == '\r' || c == '\x0C' {
                } else if '0' <= c && c <= '9' {
                    amount = (c as u32 - '0' as u32) as u64;
                    in_amount = true;
                } else {
                    proof {
                        lemma_stopped_stays(s@, i + 1);
                        assert(s@.take(n as int) =~= s@);
                    }
                    return Err(ValidationError::MalformedPeriod);
                }
            } else if '0' <= c && c <= '9' {
                let d: u64 = (c as u32 - '0' as u32) as u64;
                if amount > (u64::MAX - d) / 10 {
                    proof {
                        lemma_stopped_stays(s@, i + 1);
                    }
                    return Err(ValidationError::PeriodTooLong);
                }
                amount = amount * 10 + d;
            } else if unit > 0 {
                let limit: u64 = (u64::MAX - total) / unit;
                if amount > limit {
                    proof {
                        let (a, u, room) = (amount as int, unit as int, (u64::MAX - total) as int);
                        assert(a * u > room) by (nonlinear_arith)
                            requires a > room / u, u > 0, room >= 0;
                        lemma_stopped_stays(s@, i + 1);
                    }
                    return Err(ValidationError::PeriodTooLong);
                }
                proof {
                    let (a, u, room) = (amount as int, unit as int, (u64::MAX - total) as int);
                    assert(a * u <= room) by (nonlinear_arith)
                        requires a <= room / u, u > 0, room >= 0;
                }
                total = total + amount * unit;
                in_amount = false;
                seen = true;
            } else {
                proof {
                    lemma_stopped_stays(s@, i + 1);
                }
                return Err(ValidationError::MalformedPeriod);
            }
            i = i + 1;
        }
        assert(s@.take(n as int) =~= s@);
        if in_amount || !seen {
            Err(ValidationError::MalformedPeriod)
        } else {
            Ok(ValidationPeriod { hours: total })
        }
    }
}

} // verus!
