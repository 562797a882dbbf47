//! Signed balances of expected against worked time.

use crate::time::{SECONDS_PER_HOUR, SECONDS_PER_MINUTE};
use vstd::prelude::*;
use vstd::string::StringExecFns;

verus! {

/// Whether a balance is owed by the worker (debt) or in their favour (credit).
#[derive(Clone, Copy, PartialEq, Eq, Debug, Structural, Hash)]
pub enum HourState {
    Debt,
    Credit,
}

pub open spec fn state_of(delta: int) -> HourState {
    if delta >= 0 {
        HourState::Debt
    } else {
        HourState::Credit
    }
}

pub open spec fn abs(x: int) -> int {
    if x >= 0 {
        x
    } else {
        -x
    }
}

/// A balance can be held when its magnitude fits in an `i64` too.
pub open spec fn delta_in_range(delta: int) -> bool {
    i64::MIN < delta <= i64::MAX
}

pub open spec fn digit_char(d: nat) -> char {
    (d + 48) as char
}

/// The decimal digits of `n`, most significant first, without leading zeros.
pub open spec fn decimal_digits(n: nat) -> Seq<char>
    decreases n,
{
    if n < 10 {
        seq![digit_char(n)]
    } else {
        decimal_digits(n / 10) + seq![digit_char(n % 10)]
    }
}

/// Relies on the `Display` impl of `i64` (through `to_string`): a non-negative
/// integer is written as its decimal digits, with no sign and no leading zeros.
#[verifier::external_body]
fn decimal_text(n: i64) -> (r: String)
    requires
        n >= 0,
    ensures
        r@ == decimal_digits(n as nat),
{
    n.to_string()
}

pub open spec fn hours_of(magnitude: int) -> int {
    magnitude / SECONDS_PER_HOUR as int
}

pub open spec fn minutes_of(magnitude: int) -> int {
    (magnitude % SECONDS_PER_HOUR as int) / SECONDS_PER_MINUTE as int
}

pub open spec fn seconds_of(magnitude: int) -> int {
    magnitude % SECONDS_PER_MINUTE as int
}

/// The text that describes a balance of `delta` seconds.
pub open spec fn description(delta: int) -> Seq<char> {
    let m = abs(delta);
    if delta == 0 {
        "Delta is zero"@
    } else {
        let label = if delta > 0 {
            "Missing "@
        } else {
            "Exceeding "@
        };
        label + decimal_digits(hours_of(m) as nat) + " hours, "@ + decimal_digits(
            minutes_of(m) as nat,
        ) + " minutes, "@ + decimal_digits(seconds_of(m) as nat) + " seconds."@
    }
}

/// Expected minus worked seconds; positive when hours are missing.
#[derive(Clone, Copy, Debug, PartialEq, Eq, Structural)]
pub struct DeltaHours {
    signed_delta: i64,
    unsigned_delta: i64,
    state: HourState,
}

impl View for DeltaHours {
    type V = int;

    closed spec fn view(&self) -> int {
        self.signed_delta as int
    }
}

impl DeltaHours {
    #[verifier::type_invariant]
    spec fn derived(self) -> bool {
        &&& delta_in_range(self.signed_delta as int)
        &&& self.unsigned_delta == abs(self.signed_delta as int)
        &&& self.state == state_of(self.signed_delta as int)
    }

    pub fn new(signed_delta: i64) -> (r: DeltaHours)
        requires
            delta_in_range(signed_delta as int),
        ensures
            r@ == signed_delta,
    {
        let mut state = HourState::Credit;
        if signed_delta >= 0 {
            state = HourState::Debt;
        }
        let unsigned_delta = if signed_delta > 0 {
            signed_delta
        } else {
            -signed_delta
        };
        DeltaHours { signed_delta, unsigned_delta, state }
    }

    /// Adds `rhs` to this balance; magnitude and state follow the new total.
    pub fn accumulate(&mut self, rhs: DeltaHours)
        requires
            delta_in_range(old(self)@ + rhs@),
        ensures
            final(self)@ == old(self)@ + rhs@,
    {
        *self = DeltaHours::new(self.signed_delta + rhs.signed_delta);
    }

    /// The signed balance in seconds.
    pub fn seconds(&self) -> (r: i64)
        ensures
            r == self@,
            delta_in_range(r as int),
    {
        proof {
            use_type_invariant(self);
        }
        self.signed_delta
    }

    pub fn magnitude(&self) -> (r: i64)
        ensures
            r == abs(self@),
    {
        proof {
            use_type_invariant(self);
        }
        self.unsigned_delta
    }

    pub fn state(&self) -> (r: HourState)
        ensures
            r == state_of(self@),
    {
        proof {
            use_type_invariant(self);
        }
        self.state
    }

    pub fn is_zero(&self) -> (r: bool)
        ensures
            r == (self@ == 0),
    {
        self.signed_delta == 0
    }

    /// The magnitude split into whole hours, minutes and seconds.
    pub fn hours_minutes_seconds(&self) -> (r: (i64, i64, i64))
        ensures
            r.0 == hours_of(abs(self@)),
            r.1 == minutes_of(abs(self@)),
            r.2 == seconds_of(abs(self@)),
    {
        let m = self.magnitude();
        let current_hours = m / SECONDS_PER_HOUR;
        let current_minutes = (m % SECONDS_PER_HOUR) / SECONDS_PER_MINUTE;
        let current_seconds = m % SECONDS_PER_MINUTE;
        (current_hours, current_minutes, current_seconds)
    }

    /// "Missing H hours, M minutes, S seconds.", "Exceeding ..." or "Delta is zero".
    pub fn describe(&self) -> (r: String)
        ensures
            r@ == description(self@),
    {
        if self.is_zero() {
            return String::from_str("Delta is zero");
        }
        let (h, m, s) = self.hours_minutes_seconds();
        let mut text = if self.signed_delta > 0 {
            String::from_str("Missing ")
        } else {
            String::from_str("Exceeding ")
        };
        let hours = decimal_text(h);
        let minutes = decimal_text(m);
        let seconds = decimal_text(s);
        text.append(hours.as_str());
        text.append(" hours, ");
        text.append(minutes.as_str());
        text.append(" minutes, ");
        text.append(seconds.as_str());
        text.append(" seconds.");
        text
    }
}

} // verus!
