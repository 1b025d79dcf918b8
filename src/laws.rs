//! Facts about runs of several calls, proved over the spec functions that the
//! operations' contracts use.
use vstd::prelude::*;
use crate::account::{
    investment_outcome, InvestmentError, InvestmentType, RecordView, UserAccount,
};
use crate::address::{derived, investment_seeds, user_seeds, Key};
use crate::instructions::record_of;
use crate::ledger::{claim_outcome, investment_step, stats_lookup, LedgerError};

verus! {

/// Applies investments `(amount, kind, time)` to a summary record in order,
/// stopping at the first error.
pub open spec fn run_account(a: UserAccount, steps: Seq<(u64, InvestmentType, i64)>) -> Result<
    UserAccount,
    InvestmentError,
>
    decreases steps.len(),
{
    if steps.len() == 0 {
        Ok(a)
    } else {
        match investment_outcome(a, steps[0].0, steps[0].1, steps[0].2) {
            Ok(next) => run_account(next, steps.drop_first()),
            Err(e) => Err(e),
        }
    }
}

pub open spec fn amount_sum(steps: Seq<(u64, InvestmentType, i64)>) -> nat
    decreases steps.len(),
{
    if steps.len() == 0 {
        0
    } else {
        steps[0].0 as nat + amount_sum(steps.drop_first())
    }
}

/// After a run of successful investments the count has grown by the number of
/// investments, and both totals by the sum of their amounts.
pub proof fn investment_counters_add_up(a: UserAccount, steps: Seq<(u64, InvestmentType, i64)>)
    requires
        run_account(a, steps) is Ok,
    ensures
        match run_account(a, steps) {
            Ok(b) => {
                &&& b.investment_count == a.investment_count + steps.len()
                &&& b.total_invested == a.total_invested + amount_sum(steps)
                &&& b.total_sol_received == a.total_sol_received + amount_sum(steps)
            },
            Err(_) => false,
        },
    decreases steps.len(),
{
    if steps.len() > 0 {
        match investment_outcome(a, steps[0].0, steps[0].1, steps[0].2) {
            Ok(next) => investment_counters_add_up(next, steps.drop_first()),
            Err(_) => {},
        }
    }
}

/// A manual investment of `amount` adds `amount / 10_000_000` points.
pub proof fn manual_reward_formula(a: UserAccount, amount: u64, now: i64)
    requires
        investment_outcome(a, amount, InvestmentType::Manual, now) is Ok,
    ensures
        match investment_outcome(a, amount, InvestmentType::Manual, now) {
            Ok(b) => b.reward_points == a.reward_points + amount / 10_000_000,
            Err(_) => false,
        },
{
}

/// An automatic investment of `amount` adds `(amount / 10_000_000) * 3 / 2` points.
pub proof fn auto_reward_formula(a: UserAccount, amount: u64, now: i64)
    requires
        investment_outcome(a, amount, InvestmentType::Auto, now) is Ok,
    ensures
        match investment_outcome(a, amount, InvestmentType::Auto, now) {
            Ok(b) => b.reward_points == a.reward_points + (amount / 10_000_000) * 3 / 2,
            Err(_) => false,
        },
{
}

/// After a successful claim the owner's stats show no points, and a second
/// claim fails with `NoRewardsAvailable`.
pub proof fn claim_resets_rewards(users: Map<Seq<u8>, UserAccount>, program: Seq<u8>, user: Key)
    requires
        claim_outcome(users, program, user) is Ok,
    ensures
        match claim_outcome(users, program, user) {
            Ok((points, after)) => {
                &&& points > 0
                &&& stats_lookup(after, program, user) matches Ok(s) && s.reward_points == 0
                &&& claim_outcome(after, program, user) == Err::<
                    (u64, Map<Seq<u8>, UserAccount>),
                    LedgerError,
                >(LedgerError::Program(InvestmentError::NoRewardsAvailable))
            },
            Err(_) => false,
        },
{
}

/// Whether an investment by `user` reaches the instruction: its summary record
/// exists and the address of its next investment record is free.
pub open spec fn reaches_instruction(
    users: Map<Seq<u8>, UserAccount>,
    records: Map<Seq<u8>, RecordView>,
    program: Seq<u8>,
    user: Key,
) -> bool {
    match derived(user_seeds(user@), program) {
        Some(ua) => users.contains_key(ua) && match derived(
            investment_seeds(user@, users[ua].investment_count),
            program,
        ) {
            Some(ra) => !records.contains_key(ra),
            None => false,
        },
        None => false,
    }
}

pub open spec fn account_of(users: Map<Seq<u8>, UserAccount>, program: Seq<u8>, user: Key) -> UserAccount {
    users[derived(user_seeds(user@), program)->Some_0]
}

/// An investment of zero fails with `InvalidAmount` once it reaches the
/// instruction, and never succeeds.
pub proof fn zero_amount_rejected(
    users: Map<Seq<u8>, UserAccount>,
    records: Map<Seq<u8>, RecordView>,
    program: Seq<u8>,
    user: Key,
    kind: InvestmentType,
    now: i64,
)
    ensures
        investment_step(users, records, program, user, 0, kind, now) is Err,
        reaches_instruction(users, records, program, user) ==> investment_step(
            users,
            records,
            program,
            user,
            0,
            kind,
            now,
        ) == Err::<(Map<Seq<u8>, UserAccount>, Map<Seq<u8>, RecordView>), LedgerError>(
            LedgerError::Program(InvestmentError::InvalidAmount),
        ),
{
}

/// A positive investment by an inactive owner fails with `UserNotActive`.
pub proof fn inactive_user_rejected(
    users: Map<Seq<u8>, UserAccount>,
    records: Map<Seq<u8>, RecordView>,
    program: Seq<u8>,
    user: Key,
    amount: u64,
    kind: InvestmentType,
    now: i64,
)
    requires
        reaches_instruction(users, records, program, user),
        !account_of(users, program, user).is_active,
        amount > 0,
    ensures
        investment_step(users, records, program, user, amount, kind, now) == Err::<(Map<Seq<u8>, UserAccount>, Map<Seq<u8>, RecordView>), LedgerError>(
            LedgerError::Program(InvestmentError::UserNotActive),
        ),
{
}

/// A positive investment by an active owner that would carry `total_invested`
/// past `u64::MAX` fails with `MathOverflow`.
pub proof fn overflow_rejected(
    users: Map<Seq<u8>, UserAccount>,
    records: Map<Seq<u8>, RecordView>,
    program: Seq<u8>,
    user: Key,
    amount: u64,
    kind: InvestmentType,
    now: i64,
)
    requires
        reaches_instruction(users, records, program, user),
        account_of(users, program, user).is_active,
        amount > 0,
        account_of(users, program, user).total_invested + amount > u64::MAX,
    ensures
        investment_step(users, records, program, user, amount, kind, now) == Err::<(Map<Seq<u8>, UserAccount>, Map<Seq<u8>, RecordView>), LedgerError>(
            LedgerError::Program(InvestmentError::MathOverflow),
        ),
{
}

/// Applies investments `(owner, amount, kind, time)` to the store in order,
/// stopping at the first error.
pub open spec fn run_ledger(
    users: Map<Seq<u8>, UserAccount>,
    records: Map<Seq<u8>, RecordView>,
    program: Seq<u8>,
    calls: Seq<(Key, u64, InvestmentType, i64)>,
) -> Result<
    (Map<Seq<u8>, UserAccount>, Map<Seq<u8>, RecordView>),
    LedgerError,
>
    decreases calls.len(),
{
    if calls.len() == 0 {
        Ok((users, records))
    } else {
        match investment_step(users, records, program, calls[0].0, calls[0].1, calls[0].2, calls[0].3) {
            Ok((u, r)) => run_ledger(u, r, program, calls.drop_first()),
            Err(e) => Err(e),
        }
    }
}

/// Every record of `before` stands unchanged in `after`.
pub open spec fn keeps_records(
    before: Map<Seq<u8>, RecordView>,
    after: Map<Seq<u8>, RecordView>,
) -> bool {
    forall|k: Seq<u8>| #[trigger] before.contains_key(k) ==> after.contains_key(k) && after[k] == before[k]
}

proof fn one_step_adds_one_record(
    users: Map<Seq<u8>, UserAccount>,
    records: Map<Seq<u8>, RecordView>,
    program: Seq<u8>,
    user: Key,
    amount: u64,
    kind: InvestmentType,
    now: i64,
)
    requires
        records.dom().finite(),
    ensures
        match investment_step(users, records, program, user, amount, kind, now) {
            Ok((_, r)) => {
                &&& r.dom().finite()
                &&& r.dom().len() == records.dom().len() + 1
                &&& keeps_records(records, r)
            },
            Err(_) => true,
        },
{
    if let Some(ua) = derived(user_seeds(user@), program) {
        if users.contains_key(ua) {
            if let Some(ra) = derived(investment_seeds(user@, users[ua].investment_count), program) {
                if !records.contains_key(ra) {
                    let r = records.insert(ra, record_of(user, amount, now, kind));
                    assert(r.dom() =~= records.dom().insert(ra));
                }
            }
        }
    }
}

/// Successful investments each create their record at an address that was free:
/// `n` of them add `n` records and leave every earlier record as it was.
pub proof fn investment_records_distinct(
    users: Map<Seq<u8>, UserAccount>,
    records: Map<Seq<u8>, RecordView>,
    program: Seq<u8>,
    calls: Seq<(Key, u64, InvestmentType, i64)>,
)
    requires
        records.dom().finite(),
        run_ledger(users, records, program, calls) is Ok,
    ensures
        match run_ledger(users, records, program, calls) {
            Ok((_, r)) => {
                &&& r.dom().finite()
                &&& r.dom().len() == records.dom().len() + calls.len()
                &&& keeps_records(records, r)
            },
            Err(_) => false,
        },
    decreases calls.len(),
{
    if calls.len() > 0 {
        one_step_adds_one_record(users, records, program, calls[0].0, calls[0].1, calls[0].2, calls[0].3);
        match investment_step(users, records, program, calls[0].0, calls[0].1, calls[0].2, calls[0].3) {
            Ok((u, r)) => {
                investment_records_distinct(u, r, program, calls.drop_first());
                assert(run_ledger(users, records, program, calls) == run_ledger(
                    u,
                    r,
                    program,
                    calls.drop_first(),
                ));
                let last = run_ledger(users, records, program, calls)->Ok_0.1;
                assert forall|k: Seq<u8>| #[trigger] records.contains_key(k) implies last.contains_key(k)
                    && last[k] == records[k] by {
                    assert(r.contains_key(k) && r[k] == records[k]);
                    assert(last.contains_key(k) && last[k] == r[k]);
                }
                assert(keeps_records(records, last));
            },
            Err(_) => {},
        }
    } else {
        let last = run_ledger(users, records, program, calls)->Ok_0.1;
        assert(last == records);
        assert(keeps_records(records, last));
    }
}

/// The `(amount, kind, time)` part of each call.
pub open spec fn calls_as_steps(calls: Seq<(Key, u64, InvestmentType, i64)>) -> Seq<
    (u64, InvestmentType, i64),
> {
    calls.map_values(|c: (Key, u64, InvestmentType, i64)| (c.1, c.2, c.3))
}

/// The address of the summary record of `user`.
pub open spec fn user_slot(program: Seq<u8>, user: Key) -> Seq<u8> {
    derived(user_seeds(user@), program)->Some_0
}

/// A run of investments by one owner in the store changes that owner's summary
/// record exactly as the same investments applied to the record alone.
pub proof fn ledger_run_follows_account(
    users: Map<Seq<u8>, UserAccount>,
    records: Map<Seq<u8>, RecordView>,
    program: Seq<u8>,
    user: Key,
    calls: Seq<(Key, u64, InvestmentType, i64)>,
)
    requires
        forall|i: int| 0 <= i < calls.len() ==> calls[i].0 == user,
        run_ledger(users, records, program, calls) is Ok,
    ensures
        match run_ledger(users, records, program, calls) {
            Ok((after, _)) => run_account(users[user_slot(program, user)], calls_as_steps(calls))
                == Ok::<UserAccount, InvestmentError>(after[user_slot(program, user)]),
            Err(_) => false,
        },
    decreases calls.len(),
{
    let steps = calls_as_steps(calls);
    if calls.len() > 0 {
        assert(steps.drop_first() =~= calls_as_steps(calls.drop_first()));
        match investment_step(users, records, program, calls[0].0, calls[0].1, calls[0].2, calls[0].3) {
            Ok((u, r)) => {
                ledger_run_follows_account(u, r, program, user, calls.drop_first());
            },
            Err(_) => {},
        }
    }
}

/// After a run of successful investments by one owner in the store, its count
/// has grown by the number of calls and both totals by the sum of their amounts.
pub proof fn ledger_counters_add_up(
    users: Map<Seq<u8>, UserAccount>,
    records: Map<Seq<u8>, RecordView>,
    program: Seq<u8>,
    user: Key,
    calls: Seq<(Key, u64, InvestmentType, i64)>,
)
    requires
        forall|i: int| 0 <= i < calls.len() ==> calls[i].0 == user,
        run_ledger(users, records, program, calls) is Ok,
    ensures
        match run_ledger(users, records, program, calls) {
            Ok((after, _)) => {
                let a = users[user_slot(program, user)];
                let b = after[user_slot(program, user)];
                &&& b.investment_count == a.investment_count + calls.len()
                &&& b.total_invested == a.total_invested + amount_sum(calls_as_steps(calls))
                &&& b.total_sol_received == a.total_sol_received + amount_sum(calls_as_steps(calls))
            },
            Err(_) => false,
        },
{
    ledger_run_follows_account(users, records, program, user, calls);
    investment_counters_add_up(users[user_slot(program, user)], calls_as_steps(calls));
}

} // verus!
