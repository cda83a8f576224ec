//! Human-readable uptimes such as "3 hours".
use vstd::prelude::*;
use vstd::string::*;
use crate::text::{dec, push_decimal};

verus! {

/// `n` followed by a unit: `"1 <singular>"` for one, `"<n> <plural>"` otherwise.
pub open spec fn amount_text(n: nat, singular: Seq<char>, plural: Seq<char>) -> Seq<char> {
    if n == 1 {
        seq!['1', ' '] + singular
    } else {
        dec(n) + seq![' '] + plural
    }
}

/// The uptime text for `secs` seconds: the largest of seconds, minutes,
/// hours and days whose count is non-zero after carrying, truncated.
pub open spec fn uptime_text(secs: nat) -> Seq<char> {
    let minutes = secs / 60;
    let hours = minutes / 60;
    let days = hours / 24;
    if secs < 60 {
        amount_text(secs, "second"@, "seconds"@)
    } else if minutes < 60 {
        amount_text(minutes, "minute"@, "minutes"@)
    } else if hours < 24 {
        amount_text(hours, "hour"@, "hours"@)
    } else {
        amount_text(days, "day"@, "days"@)
    }
}

/// An uptime-style description of a duration, kept at whole seconds.
#[derive(Clone, Copy, PartialEq, Eq, Debug)]
pub struct FormattedUptime {
    secs: u64,
}

impl FormattedUptime {
    /// The duration in whole seconds.
    pub closed spec fn seconds(&self) -> nat {
        self.secs as nat
    }

    /// Describes a duration of `secs` whole seconds.
    pub fn new(secs: u64) -> (r: Self)
        ensures
            r.seconds() == secs,
    {
        FormattedUptime { secs }
    }

    /// Whether the duration is under one second.
    pub fn is_just_now(&self) -> (r: bool)
        ensures
            r == (self.seconds() == 0),
    {
        self.secs == 0
    }

    /// The text, such as "0 seconds", "1 minute" or "7 days".
    pub fn to_string(&self) -> (r: String)
        ensures
            r@ == uptime_text(self.seconds()),
    {
        let mut s = String::new();
        let secs = self.secs;
        let minutes = secs / 60;
        let hours = minutes / 60;
        let days = hours / 24;
        if secs < 60 {
            push_amount(&mut s, secs, "second", "seconds");
        } else if minutes < 60 {
            push_amount(&mut s, minutes, "minute", "minutes");
        } else if hours < 24 {
            push_amount(&mut s, hours, "hour", "hours");
        } else {
            push_amount(&mut s, days, "day", "days");
        }
        s
    }
}

fn push_amount(s: &mut String, n: u64, singular: &str, plural: &str)
    requires
        old(s)@ == Seq::<char>::empty(),
    ensures
        final(s)@ == amount_text(n as nat, singular@, plural@),
{
    if n == 1 {
        s.append("1 ");
        s.append(singular);
        proof {
            reveal_strlit("1 ");
        }
        assert(s@ =~= amount_text(n as nat, singular@, plural@));
    } else {
        push_decimal(s, n);
        s.append(" ");
        s.append(plural);
        proof {
            reveal_strlit(" ");
        }
        assert(s@ =~= amount_text(n as nat, singular@, plural@));
    }
}

} // verus!
