use anchor_lang::prelude::Pubkey;
use investment_program::account::{
    reward_points_for, InvestmentError, InvestmentType, UserAccount, LAMPORTS_PER_POINT,
};
use investment_program::address::{investment_address, u64_le_bytes, user_address, Key};
use investment_program::instructions::{
    auto_invest, claim_rewards, get_user_stats, initialize_user, invest, ClaimRewards,
    GetUserStats, InitializeUser, Invest,
};
use investment_program::account::InvestmentRecord;
use investment_program::ledger::{Ledger, LedgerError};

fn program() -> Key {
    Key::new([7u8; 32])
}

fn owner() -> Key {
    let mut b = [0u8; 32];
    for (i, x) in b.iter_mut().enumerate() {
        *x = (i as u8).wrapping_mul(37).wrapping_add(11);
    }
    Key::new(b)
}

fn ready_ledger() -> Ledger {
    let mut l = Ledger::new(program());
    assert_eq!(l.initialize_user(owner(), 1_000), Ok(()));
    l
}

fn blank_record() -> InvestmentRecord {
    InvestmentRecord {
        user: Key::new([0u8; 32]),
        amount: 0,
        timestamp: 0,
        investment_type: InvestmentType::Manual,
        transaction_signature: String::new(),
    }
}

fn invest_ctx(account: UserAccount) -> Invest {
    Invest { user_account: account, investment_record: blank_record(), user: owner() }
}

#[test]
fn initialize_sets_fresh_counters() {
    let l = ready_ledger();
    let s = l.get_user_stats(owner()).unwrap();
    assert_eq!(s.total_invested, 0);
    assert_eq!(s.total_sol_received, 0);
    assert_eq!(s.investment_count, 0);
    assert_eq!(s.reward_points, 0);
    assert_eq!(s.last_investment_time, 1_000);
    assert!(s.is_active);
}

#[test]
fn initialize_twice_is_refused() {
    let mut l = ready_ledger();
    assert_eq!(l.initialize_user(owner(), 2_000), Err(LedgerError::AccountAlreadyExists));
    assert_eq!(l.get_user_stats(owner()).unwrap().last_investment_time, 1_000);
}

#[test]
fn invest_without_account_is_refused() {
    let mut l = Ledger::new(program());
    assert_eq!(l.invest(owner(), 10, 5), Err(LedgerError::AccountNotFound));
    assert_eq!(l.get_user_stats(owner()), Err(LedgerError::AccountNotFound));
    assert_eq!(l.claim_rewards(owner()), Err(LedgerError::AccountNotFound));
    assert_eq!(l.record_count(), 0);
}

#[test]
fn manual_reward_example() {
    let mut l = ready_ledger();
    assert_eq!(l.invest(owner(), 50_000_000, 2_000), Ok(()));
    let s = l.get_user_stats(owner()).unwrap();
    assert_eq!(s.reward_points, 5);
    assert_eq!(s.total_invested, 50_000_000);
    assert_eq!(s.total_sol_received, 50_000_000);
    assert_eq!(s.investment_count, 1);
    assert_eq!(s.last_investment_time, 2_000);
}

#[test]
fn auto_reward_example() {
    let mut l = ready_ledger();
    assert_eq!(l.auto_invest(owner(), 50_000_000, 2_000), Ok(()));
    assert_eq!(l.get_user_stats(owner()).unwrap().reward_points, 7);
}

#[test]
fn reward_formula_values() {
    assert_eq!(LAMPORTS_PER_POINT, 10_000_000);
    assert_eq!(reward_points_for(9_999_999, InvestmentType::Manual), 0);
    assert_eq!(reward_points_for(10_000_000, InvestmentType::Manual), 1);
    assert_eq!(reward_points_for(10_000_000, InvestmentType::Auto), 1);
    assert_eq!(reward_points_for(20_000_000, InvestmentType::Auto), 3);
    assert_eq!(reward_points_for(u64::MAX, InvestmentType::Manual), 1_844_674_407_370);
    assert_eq!(reward_points_for(u64::MAX, InvestmentType::Auto), 2_767_011_611_055);
}

#[test]
fn counters_add_up_over_calls() {
    let mut l = ready_ledger();
    let amounts = [30_000_000u64, 1, 25_000_000, 7];
    for (i, a) in amounts.iter().enumerate() {
        let r = if i % 2 == 0 { l.invest(owner(), *a, 10 + i as i64) } else { l.auto_invest(owner(), *a, 10 + i as i64) };
        assert_eq!(r, Ok(()));
    }
    let s = l.get_user_stats(owner()).unwrap();
    assert_eq!(s.investment_count, 4);
    assert_eq!(s.total_invested, 55_000_008);
    assert_eq!(s.total_sol_received, 55_000_008);
    assert_eq!(s.reward_points, 3 + 0 + 2 + 0);
    assert_eq!(s.last_investment_time, 13);
}

#[test]
fn claim_resets_points() {
    let mut l = ready_ledger();
    assert_eq!(l.invest(owner(), 50_000_000, 2_000), Ok(()));
    assert_eq!(l.claim_rewards(owner()), Ok(5));
    assert_eq!(l.get_user_stats(owner()).unwrap().reward_points, 0);
    assert_eq!(
        l.claim_rewards(owner()),
        Err(LedgerError::Program(InvestmentError::NoRewardsAvailable))
    );
}

#[test]
fn claim_without_points_fails() {
    let mut l = ready_ledger();
    assert_eq!(l.invest(owner(), 9_999_999, 2_000), Ok(()));
    assert_eq!(
        l.claim_rewards(owner()),
        Err(LedgerError::Program(InvestmentError::NoRewardsAvailable))
    );
}

#[test]
fn zero_amount_changes_nothing() {
    let mut l = ready_ledger();
    let before = l.get_user_stats(owner()).unwrap();
    assert_eq!(l.invest(owner(), 0, 2_000), Err(LedgerError::Program(InvestmentError::InvalidAmount)));
    assert_eq!(l.auto_invest(owner(), 0, 2_000), Err(LedgerError::Program(InvestmentError::InvalidAmount)));
    assert_eq!(l.get_user_stats(owner()).unwrap(), before);
    assert_eq!(l.record_count(), 0);
}

#[test]
fn inactive_user_is_rejected() {
    let mut account = UserAccount::new(owner(), 5);
    account.is_active = false;
    let mut ctx = invest_ctx(account);
    assert_eq!(invest(&mut ctx, 10, 9), Err(InvestmentError::UserNotActive));
    assert_eq!(auto_invest(&mut ctx, 10, 9), Err(InvestmentError::UserNotActive));
    assert_eq!(ctx.user_account, account);
    assert_eq!(ctx.investment_record, blank_record());
}

#[test]
fn overflow_is_rejected_without_change() {
    let mut l = ready_ledger();
    assert_eq!(l.invest(owner(), u64::MAX, 2_000), Ok(()));
    let before = l.get_user_stats(owner()).unwrap();
    assert_eq!(l.invest(owner(), 1, 3_000), Err(LedgerError::Program(InvestmentError::MathOverflow)));
    assert_eq!(l.get_user_stats(owner()).unwrap(), before);
    assert_eq!(l.record_count(), 1);
}

#[test]
fn overflow_of_reward_points_is_rejected() {
    let mut account = UserAccount::new(owner(), 5);
    account.reward_points = u64::MAX;
    let mut ctx = invest_ctx(account);
    assert_eq!(invest(&mut ctx, 10_000_000, 9), Err(InvestmentError::MathOverflow));
    assert_eq!(invest(&mut ctx, 9_999_999, 9), Ok(()));
    assert_eq!(ctx.user_account.investment_count, 1);
}

#[test]
fn records_get_distinct_addresses() {
    let mut l = ready_ledger();
    for i in 0..5u64 {
        assert_eq!(l.invest(owner(), 10_000_000 * (i + 1), 100 + i as i64), Ok(()));
    }
    assert_eq!(l.record_count(), 5);
    let mut seen: Vec<Key> = Vec::new();
    for i in 0..5u64 {
        let a = investment_address(&program(), &owner(), i).unwrap();
        assert!(!seen.contains(&a));
        let rec = l.investment_record(&a).unwrap();
        assert_eq!(rec.amount, 10_000_000 * (i + 1));
        assert_eq!(rec.timestamp, 100 + i as i64);
        seen.push(a);
    }
}

#[test]
fn record_holds_the_call() {
    let mut l = ready_ledger();
    assert_eq!(l.auto_invest(owner(), 42, 77), Ok(()));
    let a = investment_address(&program(), &owner(), 0).unwrap();
    let rec = l.investment_record(&a).unwrap();
    assert_eq!(rec.user, owner());
    assert_eq!(rec.amount, 42);
    assert_eq!(rec.timestamp, 77);
    assert_eq!(rec.investment_type, InvestmentType::Auto);
    let text = Pubkey::new_from_array(owner().bytes).to_string();
    assert_eq!(rec.transaction_signature, text);
    assert!(rec.transaction_signature.len() <= 88);
}

#[test]
fn lookup_is_repeatable() {
    let mut l = ready_ledger();
    assert_eq!(l.invest(owner(), 70_000_000, 2_000), Ok(()));
    let first = l.get_user_stats(owner());
    let second = l.get_user_stats(owner());
    assert_eq!(first, second);
    assert_eq!(first.unwrap().reward_points, 7);
}

#[test]
fn addresses_follow_program_derivation() {
    let p = Pubkey::new_from_array(program().bytes);
    let o = owner();
    let (expected_user, _) = Pubkey::find_program_address(&[b"user", &o.bytes], &p);
    assert_eq!(user_address(&program(), &o).unwrap().bytes, expected_user.to_bytes());
    let (expected_rec, _) =
        Pubkey::find_program_address(&[b"investment", &o.bytes, &3u64.to_le_bytes()], &p);
    assert_eq!(investment_address(&program(), &o, 3).unwrap().bytes, expected_rec.to_bytes());
    let a = user_address(&program(), &o).unwrap();
    assert!(l_has_user(&a));
}

fn l_has_user(a: &Key) -> bool {
    let l = ready_ledger();
    l.user_account(a).map(|acct| acct.owner == owner()).unwrap_or(false)
}

#[test]
fn le_bytes_and_key_compare() {
    assert_eq!(u64_le_bytes(0x0102_0304_0506_0708), 0x0102_0304_0506_0708u64.to_le_bytes().to_vec());
    assert_eq!(owner().to_vec(), owner().bytes.to_vec());
    assert!(owner().same_as(&owner()));
    assert!(!owner().same_as(&program()));
}

#[test]
fn instruction_handlers_on_contexts() {
    let mut init = InitializeUser { user_account: UserAccount::new(program(), 0), user: owner() };
    initialize_user(&mut init, 33);
    assert_eq!(init.user_account, UserAccount::new(owner(), 33));
    let mut ctx = invest_ctx(init.user_account);
    assert_eq!(auto_invest(&mut ctx, 100_000_000, 40), Ok(()));
    assert_eq!(ctx.user_account.reward_points, 15);
    let mut claim = ClaimRewards { user_account: ctx.user_account, user: owner() };
    assert_eq!(claim_rewards(&mut claim), Ok(15));
    assert_eq!(claim_rewards(&mut claim), Err(InvestmentError::NoRewardsAvailable));
    let stats = get_user_stats(&GetUserStats { user_account: claim.user_account, user: owner() });
    assert_eq!(stats.reward_points, 0);
    assert_eq!(stats.investment_count, 1);
    assert_eq!(stats.last_investment_time, 40);
}
