use vstd::prelude::*;
use crate::address::Key;

verus! {

/// Smallest units (lamports) that earn one reward point.
pub const LAMPORTS_PER_POINT: u64 = 10_000_000;

/// How an investment was made; automatic investments earn half again as many points.
#[derive(Clone, Copy, PartialEq, Eq, Structural, Debug)]
pub enum InvestmentType {
    Manual,
    Auto,
}

/// The ways an instruction of the program can fail.
#[derive(Clone, Copy, PartialEq, Eq, Structural, Debug)]
pub enum InvestmentError {
    InvalidAmount,
    UserNotActive,
    MathOverflow,
    NoRewardsAvailable,
}

/// The per-owner summary record.
#[derive(Clone, Copy, Debug, PartialEq, Eq)]
pub struct UserAccount {
    pub owner: Key,
    pub total_invested: u64,
    pub total_sol_received: u64,
    pub investment_count: u64,
    pub last_investment_time: i64,
    pub is_active: bool,
    pub reward_points: u64,
}

/// One append-only entry of the investment log.
#[derive(Debug, PartialEq, Eq)]
pub struct InvestmentRecord {
    pub user: Key,
    pub amount: u64,
    pub timestamp: i64,
    pub investment_type: InvestmentType,
    pub transaction_signature: String,
}

/// An investment record as a value: (owner, amount, time, kind, reference).
pub type RecordView = (Seq<u8>, u64, i64, InvestmentType, Seq<char>);

impl View for InvestmentRecord {
    type V = RecordView;

    open spec fn view(&self) -> Self::V {
        (self.user@, self.amount, self.timestamp, self.investment_type, self.transaction_signature@)
    }
}

/// Read-only projection of a summary record.
#[derive(Clone, Copy, Debug, PartialEq, Eq)]
pub struct UserStats {
    pub total_invested: u64,
    pub total_sol_received: u64,
    pub investment_count: u64,
    pub reward_points: u64,
    pub last_investment_time: i64,
    pub is_active: bool,
}

/// Points earned by a manual investment of `amount` lamports.
pub open spec fn manual_points(amount: u64) -> nat {
    (amount / LAMPORTS_PER_POINT) as nat
}

/// Points earned by an automatic investment: 1.5 times the manual base, truncated.
pub open spec fn auto_points(amount: u64) -> nat {
    (manual_points(amount) * 3 / 2) as nat
}

pub open spec fn points_for(amount: u64, kind: InvestmentType) -> nat {
    match kind {
        InvestmentType::Manual => manual_points(amount),
        InvestmentType::Auto => auto_points(amount),
    }
}

/// The summary record that a fresh owner starts with.
pub open spec fn fresh_account(owner: Key, now: i64) -> UserAccount {
    UserAccount {
        owner,
        total_invested: 0,
        total_sol_received: 0,
        investment_count: 0,
        last_investment_time: now,
        is_active: true,
        reward_points: 0,
    }
}

/// What one investment does to a summary record: the updated record, or the
/// error that rejects it.
pub open spec fn investment_outcome(
    a: UserAccount,
    amount: u64,
    kind: InvestmentType,
    now: i64,
) -> Result<UserAccount, InvestmentError> {
    if amount == 0 {
        Err(InvestmentError::InvalidAmount)
    } else if !a.is_active {
        Err(InvestmentError::UserNotActive)
    } else if a.total_invested + amount > u64::MAX || a.total_sol_received + amount > u64::MAX
        || a.investment_count + 1 > u64::MAX || a.reward_points + points_for(amount, kind)
        > u64::MAX {
        Err(InvestmentError::MathOverflow)
    } else {
        Ok(
            UserAccount {
                owner: a.owner,
                total_invested: (a.total_invested + amount) as u64,
                total_sol_received: (a.total_sol_received + amount) as u64,
                investment_count: (a.investment_count + 1) as u64,
                last_investment_time: now,
                is_active: a.is_active,
                reward_points: (a.reward_points + points_for(amount, kind)) as u64,
            },
        )
    }
}

pub open spec fn stats_of(a: UserAccount) -> UserStats {
    UserStats {
        total_invested: a.total_invested,
        total_sol_received: a.total_sol_received,
        investment_count: a.investment_count,
        reward_points: a.reward_points,
        last_investment_time: a.last_investment_time,
        is_active: a.is_active,
    }
}

/// Reward points earned by investing `amount` lamports in the given way.
pub fn reward_points_for(amount: u64, kind: InvestmentType) -> (r: u64)
    ensures
        r == points_for(amount, kind),
{
    let base = amount / LAMPORTS_PER_POINT;
    match kind {
        InvestmentType::Manual => base,
        InvestmentType::Auto => {
            assert(base * 3 <= u64::MAX) by (nonlinear_arith)
                requires
                    base == amount / 10_000_000,
            ;
            base * 3 / 2
        },
    }
}

impl UserAccount {
    /// A summary record for `owner` with every counter at zero, active, stamped `now`.
    pub fn new(owner: Key, now: i64) -> (r: UserAccount)
        ensures
            r == fresh_account(owner, now),
    {
        UserAccount {
            owner,
            total_invested: 0,
            total_sol_received: 0,
            investment_count: 0,
            last_investment_time: now,
            is_active: true,
            reward_points: 0,
        }
    }

    /// Applies one investment, all of it or, on an error, none of it.
    pub fn record_investment(&mut self, amount: u64, kind: InvestmentType, now: i64) -> (r: Result<
        (),
        InvestmentError,
    >)
        ensures
            match investment_outcome(*old(self), amount, kind, now) {
                Ok(next) => r is Ok && *final(self) == next,
                Err(e) => r == Err::<(), InvestmentError>(e) && *final(self) == *old(self),
            },
    {
        if amount == 0 {
            return Err(InvestmentError::InvalidAmount);
        }
        if !self.is_active {
            return Err(InvestmentError::UserNotActive);
        }
        let total_invested = match self.total_invested.checked_add(amount) {
            Some(v) => v,
            None => return Err(InvestmentError::MathOverflow),
        };
        let total_sol_received = match self.total_sol_received.checked_add(amount) {
            Some(v) => v,
            None => return Err(InvestmentError::MathOverflow),
        };
        let investment_count = match self.investment_count.checked_add(1) {
            Some(v) => v,
            None => return Err(InvestmentError::MathOverflow),
        };
        let points = reward_points_for(amount, kind);
        let reward_points = match self.reward_points.checked_add(points) {
            Some(v) => v,
            None => return Err(InvestmentError::MathOverflow),
        };
        self.total_invested = total_invested;
        self.total_sol_received = total_sol_received;
        self.investment_count = investment_count;
        self.last_investment_time = now;
        self.reward_points = reward_points;
        Ok(())
    }

    /// Takes all accrued points, leaving none; fails when there are none.
    pub fn take_rewards(&mut self) -> (r: Result<u64, InvestmentError>)
        ensures
            old(self).reward_points == 0 ==> r == Err::<u64, InvestmentError>(
                InvestmentError::NoRewardsAvailable,
            ) && *final(self) == *old(self),
            old(self).reward_points > 0 ==> r == Ok::<u64, InvestmentError>(
                old(self).reward_points,
            ) && *final(self) == (UserAccount { reward_points: 0, ..*old(self) }),
    {
        if self.reward_points == 0 {
            return Err(InvestmentError::NoRewardsAvailable);
        }
        let claimed = self.reward_points;
        self.reward_points = 0;
        Ok(claimed)
    }

    pub fn stats(&self) -> (r: UserStats)
        ensures
            r == stats_of(*self),
    {
        UserStats {
            total_invested: self.total_invested,
            total_sol_received: self.total_sol_received,
            investment_count: self.investment_count,
            reward_points: self.reward_points,
            last_investment_time: self.last_investment_time,
            is_active: self.is_active,
        }
    }
}

} // verus!
