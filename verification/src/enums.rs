//! The kinds of periods, phases, rebalances and pool events.
use vstd::prelude::*;

verus! {

/// How long one simulation period lasts.
#[derive(Debug, Clone, Copy, PartialEq, Eq, Structural)]
pub enum LookUpPeriod {
    TwoSeconds,
    FiveSeconds,
    TwelveSeconds,
    Minutely,
    Hourly,
    FourHourly,
    Daily,
}

impl LookUpPeriod {
    /// The length of the period in seconds.
    pub open spec fn secs(self) -> int {
        match self {
            LookUpPeriod::TwoSeconds => 2,
            LookUpPeriod::FiveSeconds => 5,
            LookUpPeriod::TwelveSeconds => 12,
            LookUpPeriod::Minutely => 60,
            LookUpPeriod::Hourly => 3600,
            LookUpPeriod::FourHourly => 14400,
            LookUpPeriod::Daily => 86400,
        }
    }

    /// The period of `s` seconds, five seconds where there is none.
    pub fn from_secs(s: u32) -> (r: Self)
        ensures
            r.secs() == s || r == LookUpPeriod::FiveSeconds,
            forall|p: LookUpPeriod| #[trigger] p.secs() == s ==> r == p,
    {
        match s {
            2 => LookUpPeriod::TwoSeconds,
            5 => LookUpPeriod::FiveSeconds,
            12 => LookUpPeriod::TwelveSeconds,
            60 => LookUpPeriod::Minutely,
            3600 => LookUpPeriod::Hourly,
            14400 => LookUpPeriod::FourHourly,
            86400 => LookUpPeriod::Daily,
            _ => LookUpPeriod::FiveSeconds,
        }
    }

    pub fn as_secs(self) -> (r: u32)
        ensures
            r == self.secs(),
    {
        match self {
            LookUpPeriod::TwoSeconds => 2,
            LookUpPeriod::FiveSeconds => 5,
            LookUpPeriod::TwelveSeconds => 12,
            LookUpPeriod::Minutely => 60,
            LookUpPeriod::Hourly => 3600,
            LookUpPeriod::FourHourly => 14400,
            LookUpPeriod::Daily => 86400,
        }
    }
}

#[derive(Debug, Clone, Copy, PartialEq, Eq, Structural)]
pub enum Phase {
    AfterNewTimePeriod,
    AfterEventApplied,
}

/// What changed a vault.
#[derive(Debug, Clone, Copy, PartialEq, Eq, Structural)]
pub enum Rebalance {
    Dlv,
    Alm,
    RegulateDebt,
    Arbitrage,
    LevAmm,
    Snapshot,
    CircuitBreaker,
    SlowRecenter,
    CrCircuitBreaker,
    VolCircuitBreaker,
    StagedWithdrawal,
}

/// The kinds of pool events.
#[derive(Debug, Clone, Copy, PartialEq, Eq, Structural)]
pub enum EventType {
    Mint,
    Burn,
    Swap,
}

impl EventType {
    /// The number that stands for the kind in recorded events.
    pub open spec fn code(self) -> int {
        match self {
            EventType::Mint => 1,
            EventType::Burn => 2,
            EventType::Swap => 3,
        }
    }

    /// The kind with a number; `None` where there is none.
    pub fn try_from_i32(v: i32) -> (r: Option<Self>)
        ensures
            r matches Some(e) ==> e.code() == v,
            r is None ==> !(1 <= v <= 3),
    {
        match v {
            1 => Some(EventType::Mint),
            2 => Some(EventType::Burn),
            3 => Some(EventType::Swap),
            _ => None,
        }
    }

    /// The kind with a number.
    pub fn from_i32(v: i32) -> (r: Self)
        requires
            1 <= v <= 3,
        ensures
            r.code() == v,
    {
        match v {
            1 => EventType::Mint,
            2 => EventType::Burn,
            _ => EventType::Swap,
        }
    }
}

} // verus!
