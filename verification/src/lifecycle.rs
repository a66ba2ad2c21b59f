use vstd::prelude::*;

verus! {

/// The market's phase. Transitions only ever run
/// Uninitialized -> Open (initialize) and Open -> Closed (close).
#[derive(Clone, Copy, Debug, PartialEq, Eq, Structural)]
pub enum MarketPhase {
    Uninitialized,
    Open,
    Closed,
}

/// An optional trading deadline, as an absolute UNIX timestamp.
/// `None` means trading never auto-closes by time.
#[derive(Clone, Copy, Debug, PartialEq, Eq)]
pub struct TimeWindow {
    pub deadline: Option<i64>,
}

impl TimeWindow {
    /// Is trading still open for submissions at `now`?
    pub open spec fn spec_accepts(self, now: i64) -> bool {
        match self.deadline {
            None => true,
            Some(d) => now <= d,
        }
    }

    /// Has the trading period ended at `now`, so that the market may close?
    /// With no deadline set, closure is allowed at any time.
    pub open spec fn spec_ended(self, now: i64) -> bool {
        match self.deadline {
            None => true,
            Some(d) => now > d,
        }
    }

    pub fn accepts_trade(&self, now: i64) -> (r: bool)
        ensures
            r == self.spec_accepts(now),
    {
        match self.deadline {
            None => true,
            Some(d) => now <= d,
        }
    }

    pub fn has_ended(&self, now: i64) -> (r: bool)
        ensures
            r == self.spec_ended(now),
    {
        match self.deadline {
            None => true,
            Some(d) => now > d,
        }
    }
}

} // verus!
