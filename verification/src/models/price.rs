//! Price-history request intervals.

use vstd::prelude::*;

verus! {

/// The granularity at which the CLOB API reports price history.
#[derive(Debug, Clone, Copy, PartialEq, Eq, Structural)]
pub enum Interval {
    OneMinute,
    FiveMinutes,
    OneHour,
    OneDay,
}

impl Interval {
    /// The API spelling of the interval.
    pub open spec fn api_name(self) -> Seq<char> {
        match self {
            Interval::OneMinute => "1m"@,
            Interval::FiveMinutes => "5m"@,
            Interval::OneHour => "1h"@,
            Interval::OneDay => "1d"@,
        }
    }

    /// The length of the interval in seconds.
    pub open spec fn seconds(self) -> int {
        match self {
            Interval::OneMinute => 60,
            Interval::FiveMinutes => 300,
            Interval::OneHour => 3600,
            Interval::OneDay => 86400,
        }
    }

    /// The query-parameter value of the interval.
    pub fn as_str(&self) -> (r: &'static str)
        ensures
            r@ == self.api_name(),
    {
        match self {
            Interval::OneMinute => {
                proof {
                    reveal_strlit("1m");
                }
                "1m"
            },
            Interval::FiveMinutes => {
                proof {
                    reveal_strlit("5m");
                }
                "5m"
            },
            Interval::OneHour => {
                proof {
                    reveal_strlit("1h");
                }
                "1h"
            },
            Interval::OneDay => {
                proof {
                    reveal_strlit("1d");
                }
                "1d"
            },
        }
    }

    /// The interval in seconds.
    pub fn as_seconds(&self) -> (r: i64)
        ensures
            r == self.seconds(),
            r > 0,
    {
        match self {
            Interval::OneMinute => 60,
            Interval::FiveMinutes => 300,
            Interval::OneHour => 3600,
            Interval::OneDay => 86400,
        }
    }
}

} // verus!
