use vstd::prelude::*;
use crate::account::{
    fresh_account, investment_outcome, stats_of, InvestmentError, InvestmentRecord, RecordView,
    InvestmentType, UserAccount, UserStats,
};
use crate::address::{key_text, key_to_string, Key};

verus! {

/// Accounts of `initialize_user`: the summary record being created and its owner.
pub struct InitializeUser {
    pub user_account: UserAccount,
    pub user: Key,
}

/// Accounts of `invest` and `auto_invest`: the owner's summary record, the fresh
/// investment record being created, and the owner.
pub struct Invest {
    pub user_account: UserAccount,
    pub investment_record: InvestmentRecord,
    pub user: Key,
}

/// Accounts of `claim_rewards`.
pub struct ClaimRewards {
    pub user_account: UserAccount,
    pub user: Key,
}

/// Accounts of `get_user_stats`.
pub struct GetUserStats {
    pub user_account: UserAccount,
    pub user: Key,
}

/// The log entry that an investment of `amount` by `user` at `now` writes.
pub open spec fn record_of(user: Key, amount: u64, now: i64, kind: InvestmentType) -> RecordView {
    (user@, amount, now, kind, key_text(user@))
}

/// What `invest` and `auto_invest` do to their accounts.
pub open spec fn invest_effect(
    pre: Invest,
    post: Invest,
    amount: u64,
    kind: InvestmentType,
    now: i64,
    r: Result<(), InvestmentError>,
) -> bool {
    match investment_outcome(pre.user_account, amount, kind, now) {
        Ok(next) => {
            &&& r is Ok
            &&& post.user_account == next
            &&& post.investment_record@ == record_of(pre.user, amount, now, kind)
            &&& post.user == pre.user
        },
        Err(e) => r == Err::<(), InvestmentError>(e) && post == pre,
    }
}

/// Fills in the summary record of a new owner: counters at zero, active, stamped `now`.
pub fn initialize_user(ctx: &mut InitializeUser, now: i64)
    ensures
        final(ctx).user_account == fresh_account(old(ctx).user, now),
        final(ctx).user == old(ctx).user,
{
    ctx.user_account = UserAccount::new(ctx.user, now);
}

fn process(ctx: &mut Invest, amount: u64, kind: InvestmentType, now: i64) -> (r: Result<
    (),
    InvestmentError,
>)
    ensures
        invest_effect(*old(ctx), *final(ctx), amount, kind, now, r),
{
    match ctx.user_account.record_investment(amount, kind, now) {
        Ok(()) => {},
        Err(e) => return Err(e),
    }
    let signature = key_to_string(&ctx.user);
    ctx.investment_record = InvestmentRecord {
        user: ctx.user,
        amount,
        timestamp: now,
        investment_type: kind,
        transaction_signature: signature,
    };
    Ok(())
}

/// Records a manual investment of `amount_in_lamports`, earning one point per
/// `LAMPORTS_PER_POINT` lamports.
pub fn invest(ctx: &mut Invest, amount_in_lamports: u64, now: i64) -> (r: Result<
    (),
    InvestmentError,
>)
    ensures
        invest_effect(*old(ctx), *final(ctx), amount_in_lamports, InvestmentType::Manual, now, r),
{
    process(ctx, amount_in_lamports, InvestmentType::Manual, now)
}

/// Records an automatic investment of `amount_in_lamports`, earning 1.5 times the
/// points of a manual one, truncated.
pub fn auto_invest(ctx: &mut Invest, amount_in_lamports: u64, now: i64) -> (r: Result<
    (),
    InvestmentError,
>)
    ensures
        invest_effect(*old(ctx), *final(ctx), amount_in_lamports, InvestmentType::Auto, now, r),
{
    process(ctx, amount_in_lamports, InvestmentType::Auto, now)
}

/// Hands out all accrued reward points and resets them to zero; fails when there
/// are none.
pub fn claim_rewards(ctx: &mut ClaimRewards) -> (r: Result<u64, InvestmentError>)
    ensures
        old(ctx).user_account.reward_points == 0 ==> r == Err::<u64, InvestmentError>(
            InvestmentError::NoRewardsAvailable,
        ) && *final(ctx) == *old(ctx),
        old(ctx).user_account.reward_points > 0 ==> r == Ok::<u64, InvestmentError>(
            old(ctx).user_account.reward_points,
        ) && final(ctx).user_account == (UserAccount {
            reward_points: 0,
            ..old(ctx).user_account
        }) && final(ctx).user == old(ctx).user,
{
    ctx.user_account.take_rewards()
}

/// The counters of the owner's summary record.
pub fn get_user_stats(ctx: &GetUserStats) -> (r: UserStats)
    ensures
        r == stats_of(ctx.user_account),
{
    ctx.user_account.stats()
}

} // verus!
