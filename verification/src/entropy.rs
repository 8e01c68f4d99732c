//! Entropy report and crack-time narrative.
//!
//! `Entropy` carries integer bit estimates: `blind_min`/`blind_max` assume the
//! attacker knows only the scheme's parameter ranges, `seen` assumes full
//! knowledge of dictionary and configuration.  `GuessTime` buckets the time an
//! attacker needs to exhaust the blind space at a fixed guessing rate.

use vstd::prelude::*;
use vstd::string::*;

use crate::text::dec_digits;
use crate::text::push_u64;

verus! {

/// Assumed guessing rate when converting entropy bits into wall-clock time.
pub const GUESSES_PER_SECOND: u64 = 1000;

/// Seconds in a year of 365.25 days.
pub const SECONDS_PER_YEAR: u64 = 31557600;

/// Seconds in a month of 30 days.
pub const SECONDS_PER_MONTH: u64 = 2592000;

/// Seconds in a day.
pub const SECONDS_PER_DAY: u64 = 86400;

/// Estimated time to exhaust an entropy space: either an exact breakdown in
/// years, months and days, or one of three sentinel buckets whose `years`
/// field is 1001, 1000001 or 1000000001.
#[derive(Clone, Copy, Debug, PartialEq, Eq, Structural)]
pub struct GuessTime {
    pub years: u64,
    pub months: u64,
    pub days: u64,
}

/// The bucketed guess time for a blind entropy of `bits` bits: three sentinel
/// regimes above 64, 54 and 44 bits, and an exact breakdown at or below 44.
pub open spec fn guess_time_of(bits: u64) -> GuessTime {
    if bits > 64 {
        GuessTime { years: 1000000001, months: 0, days: 0 }
    } else if bits > 54 {
        GuessTime { years: 1000001, months: 0, days: 0 }
    } else if bits > 44 {
        GuessTime { years: 1001, months: 0, days: 0 }
    } else {
        let secs = (1u64 << bits) / GUESSES_PER_SECOND;
        GuessTime {
            years: secs / SECONDS_PER_YEAR,
            months: (secs % SECONDS_PER_YEAR) / SECONDS_PER_MONTH,
            days: ((secs % SECONDS_PER_YEAR) % SECONDS_PER_MONTH) / SECONDS_PER_DAY,
        }
    }
}

/// The narrative for a guess time: sentinel phrases above a thousand years,
/// otherwise the non-zero components separated by spaces, or "less than a
/// day" when all components are zero.
pub open spec fn guess_time_text(t: GuessTime) -> Seq<char> {
    if t.years >= 1000000000 {
        "more than a billion years"@
    } else if t.years >= 1000000 {
        "more than a million years"@
    } else if t.years >= 1000 {
        "more than a thousand years"@
    } else if t.years == 0 && t.months == 0 && t.days == 0 {
        "less than a day"@
    } else {
        let y = if t.years > 0 {
            dec_digits(t.years as nat) + " years"@
        } else {
            Seq::<char>::empty()
        };
        let m = if t.months > 0 {
            (if t.years > 0 {
                " "@
            } else {
                Seq::<char>::empty()
            }) + dec_digits(t.months as nat) + " months"@
        } else {
            Seq::<char>::empty()
        };
        let d = if t.days > 0 {
            (if t.years > 0 || t.months > 0 {
                " "@
            } else {
                Seq::<char>::empty()
            }) + dec_digits(t.days as nat) + " days"@
        } else {
            Seq::<char>::empty()
        };
        y + m + d
    }
}

impl GuessTime {
    /// Converts blind entropy bits into a bucketed guess time, modelling the
    /// guess count as two to the `bits` at `GUESSES_PER_SECOND` guesses each
    /// second.
    pub fn for_entropy(bits: u64) -> (r: GuessTime)
        ensures
            r == guess_time_of(bits),
    {
        if bits > 64 {
            GuessTime { years: 1000000001, months: 0, days: 0 }
        } else if bits > 54 {
            GuessTime { years: 1000001, months: 0, days: 0 }
        } else if bits > 44 {
            GuessTime { years: 1001, months: 0, days: 0 }
        } else {
            let guesses: u64 = 1u64 << bits;
            let secs: u64 = guesses / GUESSES_PER_SECOND;
            GuessTime {
                years: secs / SECONDS_PER_YEAR,
                months: (secs % SECONDS_PER_YEAR) / SECONDS_PER_MONTH,
                days: ((secs % SECONDS_PER_YEAR) % SECONDS_PER_MONTH) / SECONDS_PER_DAY,
            }
        }
    }

    /// Renders the narrative described by `guess_time_text`.
    pub fn to_string(&self) -> (r: String)
        ensures
            r@ == guess_time_text(*self),
    {
        let mut out = String::new();
        if self.years >= 1000000000 {
            out.append("more than a billion years");
        } else if self.years >= 1000000 {
            out.append("more than a million years");
        } else if self.years >= 1000 {
            out.append("more than a thousand years");
        } else if self.years == 0 && self.months == 0 && self.days == 0 {
            out.append("less than a day");
        } else {
            let mut parts = false;
            if self.years > 0 {
                push_u64(&mut out, self.years);
                out.append(" years");
                parts = true;
            }
            if self.months > 0 {
                if parts {
                    out.append(" ");
                }
                push_u64(&mut out, self.months);
                out.append(" months");
                parts = true;
            }
            if self.days > 0 {
                if parts {
                    out.append(" ");
                }
                push_u64(&mut out, self.days);
                out.append(" days");
            }
            proof {
                assert(out@ =~= guess_time_text(*self));
            }
        }
        out
    }
}

/// Entropy estimate for one generated password.
#[derive(Clone, Copy, Debug, PartialEq, Eq, Structural)]
pub struct Entropy {
    pub blind_min: u64,
    pub blind_max: u64,
    pub seen: u64,
    pub guess_time: GuessTime,
}

/// The narrative for an entropy report: the blind estimate collapses to a
/// single figure exactly when `blind_min` equals `blind_max`.
pub open spec fn entropy_text(e: Entropy) -> Seq<char> {
    (if e.blind_min == e.blind_max {
        dec_digits(e.blind_min as nat) + " bits blind"@
    } else {
        "between "@ + dec_digits(e.blind_min as nat) + " & "@ + dec_digits(e.blind_max as nat)
            + " bits blind"@
    }) + " / "@ + dec_digits(e.seen as nat) + " bits with full knowledge"@ + " / "@
        + guess_time_text(e.guess_time)
}

impl Entropy {
    /// Renders the narrative described by `entropy_text`.
    pub fn to_string(&self) -> (r: String)
        ensures
            r@ == entropy_text(*self),
    {
        let mut out = String::new();
        if self.blind_min == self.blind_max {
            push_u64(&mut out, self.blind_min);
            out.append(" bits blind");
        } else {
            out.append("between ");
            push_u64(&mut out, self.blind_min);
            out.append(" & ");
            push_u64(&mut out, self.blind_max);
            out.append(" bits blind");
        }
        out.append(" / ");
        push_u64(&mut out, self.seen);
        out.append(" bits with full knowledge");
        out.append(" / ");
        let narrative = self.guess_time.to_string();
        out.append(narrative.as_str());
        proof {
            assert(out@ =~= entropy_text(*self));
        }
        out
    }
}

impl Default for Entropy {
    /// An all-zero report: no entropy, cracked in less than a day.
    fn default() -> (r: Entropy)
        ensures
            r == (Entropy {
                blind_min: 0,
                blind_max: 0,
                seen: 0,
                guess_time: GuessTime { years: 0, months: 0, days: 0 },
            }),
    {
        Entropy {
            blind_min: 0,
            blind_max: 0,
            seen: 0,
            guess_time: GuessTime { years: 0, months: 0, days: 0 },
        }
    }
}

} // verus!
