use vstd::prelude::*;

use crate::strutil::spec_digits;
use crate::strutil::u64_to_string;

verus! {

/// Minutes in a day.
pub const DAY_INTERVAL: u64 = 1440;

/// Minutes in an hour.
pub const HR_INTERVAL: u64 = 60;

/// Hours in half a day.
pub const DAY_HALF: u64 = 12;

/// The game clock: whole days plus minutes within the day.
pub struct GameTime {
    pub day: u64,
    pub min: u64,
}

/// A minute count zero-padded to two digits.
pub open spec fn spec_pad2(m: nat) -> Seq<char> {
    if m < 10 {
        seq!['0'] + spec_digits(m)
    } else {
        spec_digits(m)
    }
}

/// The clock-face hour text for an hour of the day.
pub open spec fn spec_hour_text(hr: nat) -> Seq<char> {
    if hr > 12 {
        spec_digits((hr - 12) as nat)
    } else if hr == 0 {
        spec_digits(12)
    } else {
        spec_digits(hr)
    }
}

/// A walking duration rendered in minutes, hours or days.
pub open spec fn spec_duration_text(d: nat) -> Seq<char> {
    if d < 60 {
        spec_digits(d) + " minutes"@
    } else if d < 1440 {
        spec_digits(d / 60) + " hours and "@ + spec_digits(d % 60) + " minutes"@
    } else {
        spec_digits(d / 1440) + " days, "@ + spec_digits(d / 60) + " hours, and "@ + spec_digits(
            d % 60,
        ) + " minutes"@
    }
}

impl GameTime {
    /// Advances the clock by `n` minutes, carrying whole days; a minute
    /// total past the end of a day rolls over once.
    pub fn advance(&mut self, n: u64)
        requires
            old(self).min + 1439 <= u64::MAX,
            old(self).day + n / 1440 + 1 <= u64::MAX,
        ensures
            ({
                let days = n / 1440;
                let mins = n % 1440;
                if old(self).min + mins > 1440 {
                    final(self).min == old(self).min + mins - 1440 && final(self).day == old(
                        self,
                    ).day + days + 1
                } else {
                    final(self).min == old(self).min + mins && final(self).day == old(self).day
                        + days
                }
            }),
    {
        let days = n / DAY_INTERVAL;
        let mins = n % DAY_INTERVAL;

        self.day = self.day + days;
        self.min = self.min + mins;

        if self.min > DAY_INTERVAL {
            self.min = self.min - DAY_INTERVAL;
            self.day = self.day + 1;
        }
    }

    /// The hour of the day.
    pub fn hrs(&self) -> (r: u64)
        ensures
            r == self.min / 60,
    {
        self.min / HR_INTERVAL
    }

    /// Whether the clock reads night-time.
    pub fn is_night(&self) -> (r: bool)
        ensures
            r == (self.min > 1200 || self.min < 360),
    {
        self.min > 1200 || self.min < 360
    }

    /// The clock face: hour, zero-padded minutes, and AM or PM.
    pub fn display_time(&self) -> (r: String)
        ensures
            r@ == spec_hour_text((self.min / 60) as nat) + ":"@ + spec_pad2((self.min % 60) as nat)
                + " "@ + (if self.min / 60 > 12 {
                "PM"@
            } else {
                "AM"@
            }),
    {
        let hr = self.hrs();
        let pm = hr > DAY_HALF;

        let hour_text = if pm {
            u64_to_string(hr - DAY_HALF)
        } else {
            if hr == 0 {
                u64_to_string(12)
            } else {
                u64_to_string(hr)
            }
        };

        let m = self.min % HR_INTERVAL;
        let pad = if m < 10 {
            String::from_str("0").concat(u64_to_string(m).as_str())
        } else {
            u64_to_string(m)
        };
        proof {
            reveal_strlit("0");
            assert(pad@ == spec_pad2((self.min % 60) as nat));
        }

        let mut r = hour_text;
        r.append(":");
        r.append(pad.as_str());
        r.append(" ");
        r.append(if pm {
            "PM"
        } else {
            "AM"
        });
        r
    }

    /// The clock and the day of the journey, in words.
    pub fn display(&self) -> (r: String)
        ensures
            r@ == "The time is "@ + (spec_hour_text((self.min / 60) as nat) + ":"@ + spec_pad2(
                (self.min % 60) as nat,
            ) + " "@ + (if self.min / 60 > 12 {
                "PM"@
            } else {
                "AM"@
            })) + ". It is day "@ + spec_digits(self.day as nat) + " of your journey."@,
    {
        let mut r = String::from_str("The time is ");
        r.append(self.display_time().as_str());
        r.append(". It is day ");
        r.append(u64_to_string(self.day).as_str());
        r.append(" of your journey.");
        r
    }

    /// A duration of `d` minutes, in words.
    pub fn duration(d: u64) -> (r: String)
        ensures
            r@ == spec_duration_text(d as nat),
    {
        if d < HR_INTERVAL {
            let mut r = u64_to_string(d);
            r.append(" minutes");
            r
        } else if d < DAY_INTERVAL {
            let mut r = u64_to_string(d / HR_INTERVAL);
            r.append(" hours and ");
            r.append(u64_to_string(d % HR_INTERVAL).as_str());
            r.append(" minutes");
            r
        } else {
            let mut r = u64_to_string(d / DAY_INTERVAL);
            r.append(" days, ");
            r.append(u64_to_string(d / HR_INTERVAL).as_str());
            r.append(" hours, and ");
            r.append(u64_to_string(d % HR_INTERVAL).as_str());
            r.append(" minutes");
            r
        }
    }
}

} // verus!
