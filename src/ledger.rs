use vstd::prelude::*;
use crate::account::{
    fresh_account, investment_outcome, stats_of, InvestmentError, InvestmentRecord, RecordView,
    InvestmentType, UserAccount, UserStats,
};
use crate::address::{
    derived, investment_address, investment_seeds, user_address, user_seeds, Key,
};
use crate::instructions::{
    self, record_of, ClaimRewards, GetUserStats, InitializeUser, Invest,
};

verus! {

/// Why the store refuses a call, or the instruction's own error.
#[derive(Clone, Copy, PartialEq, Eq, Structural, Debug)]
pub enum LedgerError {
    /// No program-derived address exists for the record's seeds.
    AddressUnavailable,
    /// The owner's summary record has not been created.
    AccountNotFound,
    /// A record already stands at the address being created.
    AccountAlreadyExists,
    /// The instruction itself failed.
    Program(InvestmentError),
}

/// Whether some entry of a keyed list has the address `k`.
pub open spec fn has_key<T>(s: Seq<(Key, T)>, k: Seq<u8>) -> bool {
    exists|i: int| 0 <= i < s.len() && s[i].0@ == k
}

/// No address occurs twice in a keyed list.
pub open spec fn keys_unique<T>(s: Seq<(Key, T)>) -> bool {
    forall|i: int, j: int|
        0 <= i < s.len() && 0 <= j < s.len() && i != j ==> s[i].0@ != s[j].0@
}

/// A position of the address `k` in a keyed list (the only one, where keys are unique).
pub open spec fn slot_of<T>(s: Seq<(Key, T)>, k: Seq<u8>) -> int {
    choose|i: int| 0 <= i < s.len() && s[i].0@ == k
}

/// The entries of a keyed list as a map from address to `f` of the value.
pub open spec fn as_map<T, V>(s: Seq<(Key, T)>, f: spec_fn(T) -> V) -> Map<Seq<u8>, V> {
    Map::new(|k: Seq<u8>| has_key(s, k), |k: Seq<u8>| f(s[slot_of(s, k)].1))
}

proof fn lemma_slot<T>(s: Seq<(Key, T)>, i: int)
    requires
        keys_unique(s),
        0 <= i < s.len(),
    ensures
        has_key(s, s[i].0@),
        slot_of(s, s[i].0@) == i,
{
    assert(has_key(s, s[i].0@));
}

proof fn lemma_as_map_update<T, V>(s: Seq<(Key, T)>, i: int, v: T, f: spec_fn(T) -> V)
    requires
        keys_unique(s),
        0 <= i < s.len(),
    ensures
        keys_unique(s.update(i, (s[i].0, v))),
        as_map(s.update(i, (s[i].0, v)), f) == as_map(s, f).insert(s[i].0@, f(v)),
{
    let t = s.update(i, (s[i].0, v));
    assert forall|k: Seq<u8>| has_key(t, k) == has_key(s, k) by {
        if has_key(s, k) {
            let j = slot_of(s, k);
            assert(t[j].0@ == k);
        }
        if has_key(t, k) {
            let j = slot_of(t, k);
            assert(s[j].0@ == k);
        }
    }
    assert forall|k: Seq<u8>| has_key(t, k) implies as_map(t, f)[k] == as_map(s, f).insert(
        s[i].0@,
        f(v),
    )[k] by {
        let j = slot_of(t, k);
        lemma_slot(s, j);
        if k == s[i].0@ {
            assert(j == i);
        }
    }
    assert(as_map(t, f) =~= as_map(s, f).insert(s[i].0@, f(v)));
}

proof fn lemma_as_map_push<T, V>(s: Seq<(Key, T)>, key: Key, v: T, f: spec_fn(T) -> V)
    requires
        keys_unique(s),
        !has_key(s, key@),
    ensures
        keys_unique(s.push((key, v))),
        as_map(s.push((key, v)), f) == as_map(s, f).insert(key@, f(v)),
{
    let t = s.push((key, v));
    assert forall|i: int, j: int|
        0 <= i < t.len() && 0 <= j < t.len() && i != j implies t[i].0@ != t[j].0@ by {
        if i == s.len() {
            assert(s[j].0@ != key@);
        } else if j == s.len() {
            assert(s[i].0@ != key@);
        }
    }
    assert forall|k: Seq<u8>| has_key(t, k) == (has_key(s, k) || k == key@) by {
        if has_key(s, k) {
            let j = slot_of(s, k);
            assert(t[j].0@ == k);
        }
        if k == key@ {
            assert(t[s.len() as int].0@ == k);
        }
        if has_key(t, k) && k != key@ {
            let j = slot_of(t, k);
            assert(s[j].0@ == k);
        }
    }
    assert forall|k: Seq<u8>| has_key(t, k) implies as_map(t, f)[k] == as_map(s, f).insert(
        key@,
        f(v),
    )[k] by {
        let j = slot_of(t, k);
        if k == key@ {
            lemma_slot(t, s.len() as int);
        } else {
            lemma_slot(s, slot_of(s, k));
            lemma_slot(t, slot_of(s, k));
        }
    }
    assert(as_map(t, f) =~= as_map(s, f).insert(key@, f(v)));
}

fn find_slot<T>(s: &Vec<(Key, T)>, k: &Key) -> (r: Option<usize>)
    ensures
        match r {
            Some(i) => i < s@.len() && s@[i as int].0@ == k@,
            None => !has_key(s@, k@),
        },
{
    let mut i: usize = 0;
    while i < s.len()
        invariant
            0 <= i <= s@.len(),
            forall|j: int| 0 <= j < i ==> s@[j].0@ != k@,
        decreases s@.len() - i,
    {
        if s[i].0.same_as(k) {
            return Some(i);
        }
        i = i + 1;
    }
    None
}

/// How the store shows an investment record: (owner, amount, time, kind, reference).
pub open spec fn record_entry() -> spec_fn(InvestmentRecord) -> RecordView {
    |r: InvestmentRecord| r@
}

/// How the store shows a summary record: as it is.
pub open spec fn account_entry() -> spec_fn(UserAccount) -> UserAccount {
    |a: UserAccount| a
}

/// What creating the summary record of `user` does to the summary records.
pub open spec fn initialize_outcome(
    users: Map<Seq<u8>, UserAccount>,
    program: Seq<u8>,
    user: Key,
    now: i64,
) -> Result<Map<Seq<u8>, UserAccount>, LedgerError> {
    match derived(user_seeds(user@), program) {
        None => Err(LedgerError::AddressUnavailable),
        Some(a) => if users.contains_key(a) {
            Err(LedgerError::AccountAlreadyExists)
        } else {
            Ok(users.insert(a, fresh_account(user, now)))
        },
    }
}

/// What one investment by `user` does to the summary records and the log.
pub open spec fn investment_step(
    users: Map<Seq<u8>, UserAccount>,
    records: Map<Seq<u8>, RecordView>,
    program: Seq<u8>,
    user: Key,
    amount: u64,
    kind: InvestmentType,
    now: i64,
) -> Result<
    (Map<Seq<u8>, UserAccount>, Map<Seq<u8>, RecordView>),
    LedgerError,
> {
    match derived(user_seeds(user@), program) {
        None => Err(LedgerError::AddressUnavailable),
        Some(ua) => if !users.contains_key(ua) {
            Err(LedgerError::AccountNotFound)
        } else {
            match derived(investment_seeds(user@, users[ua].investment_count), program) {
                None => Err(LedgerError::AddressUnavailable),
                Some(ra) => if records.contains_key(ra) {
                    Err(LedgerError::AccountAlreadyExists)
                } else {
                    match investment_outcome(users[ua], amount, kind, now) {
                        Err(e) => Err(LedgerError::Program(e)),
                        Ok(next) => Ok(
                            (
                                users.insert(ua, next),
                                records.insert(ra, record_of(user, amount, now, kind)),
                            ),
                        ),
                    }
                },
            }
        },
    }
}

/// What claiming by `user` does: the points handed out and the summary records after.
pub open spec fn claim_outcome(
    users: Map<Seq<u8>, UserAccount>,
    program: Seq<u8>,
    user: Key,
) -> Result<(u64, Map<Seq<u8>, UserAccount>), LedgerError> {
    match derived(user_seeds(user@), program) {
        None => Err(LedgerError::AddressUnavailable),
        Some(ua) => if !users.contains_key(ua) {
            Err(LedgerError::AccountNotFound)
        } else if users[ua].reward_points == 0 {
            Err(LedgerError::Program(InvestmentError::NoRewardsAvailable))
        } else {
            Ok((users[ua].reward_points, users.insert(ua, UserAccount { reward_points: 0, ..users[ua] })))
        },
    }
}

/// The counters of the summary record of `user`.
pub open spec fn stats_lookup(
    users: Map<Seq<u8>, UserAccount>,
    program: Seq<u8>,
    user: Key,
) -> Result<UserStats, LedgerError> {
    match derived(user_seeds(user@), program) {
        None => Err(LedgerError::AddressUnavailable),
        Some(ua) => if users.contains_key(ua) {
            Ok(stats_of(users[ua]))
        } else {
            Err(LedgerError::AccountNotFound)
        },
    }
}

/// A record as allocated before an instruction fills it in.
fn blank_account() -> UserAccount {
    UserAccount {
        owner: Key { bytes: [0u8; 32] },
        total_invested: 0,
        total_sol_received: 0,
        investment_count: 0,
        last_investment_time: 0,
        is_active: false,
        reward_points: 0,
    }
}

fn blank_record() -> InvestmentRecord {
    InvestmentRecord {
        user: Key { bytes: [0u8; 32] },
        amount: 0,
        timestamp: 0,
        investment_type: InvestmentType::Manual,
        transaction_signature: String::new(),
    }
}

/// The records of one deployed program, keyed by their derived addresses.
pub struct Ledger {
    program_id: Key,
    users: Vec<(Key, UserAccount)>,
    records: Vec<(Key, InvestmentRecord)>,
}

impl Ledger {
    pub closed spec fn wf(&self) -> bool {
        keys_unique(self.users@) && keys_unique(self.records@)
    }

    pub closed spec fn program(&self) -> Seq<u8> {
        self.program_id@
    }

    /// Summary records by address.
    pub closed spec fn users(&self) -> Map<Seq<u8>, UserAccount> {
        as_map(self.users@, account_entry())
    }

    /// Investment records by address.
    pub closed spec fn records(&self) -> Map<Seq<u8>, RecordView> {
        as_map(self.records@, record_entry())
    }

    /// An empty store for the program `program_id`.
    pub fn new(program_id: Key) -> (r: Ledger)
        ensures
            r.wf(),
            r.program() == program_id@,
            r.users() == Map::<Seq<u8>, UserAccount>::empty(),
            r.records() == Map::<Seq<u8>, RecordView>::empty(),
    {
        let r = Ledger { program_id, users: Vec::new(), records: Vec::new() };
        assert(r.users() =~= Map::<Seq<u8>, UserAccount>::empty());
        assert(r.records() =~= Map::<Seq<u8>, RecordView>::empty());
        r
    }

    /// Creates the summary record of `user`, once.
    pub fn initialize_user(&mut self, user: Key, now: i64) -> (r: Result<(), LedgerError>)
        requires
            old(self).wf(),
        ensures
            final(self).wf(),
            final(self).program() == old(self).program(),
            final(self).records() == old(self).records(),
            match initialize_outcome(old(self).users(), old(self).program(), user, now) {
                Ok(users) => r is Ok && final(self).users() == users,
                Err(e) => r == Err::<(), LedgerError>(e) && final(self).users() == old(self).users(),
            },
    {
        let ua = match user_address(&self.program_id, &user) {
            Some(a) => a,
            None => return Err(LedgerError::AddressUnavailable),
        };
        match find_slot(&self.users, &ua) {
            Some(i) => {
                proof {
                    lemma_slot(self.users@, i as int);
                }
                return Err(LedgerError::AccountAlreadyExists);
            },
            None => {},
        }
        let mut ctx = InitializeUser { user_account: blank_account(), user };
        instructions::initialize_user(&mut ctx, now);
        proof {
            lemma_as_map_push(self.users@, ua, ctx.user_account, account_entry());
        }
        self.users.push((ua, ctx.user_account));
        Ok(())
    }

    fn apply_investment(&mut self, user: Key, amount: u64, kind: InvestmentType, now: i64) -> (r:
        Result<(), LedgerError>)
        requires
            old(self).wf(),
        ensures
            final(self).wf(),
            final(self).program() == old(self).program(),
            match investment_step(
                old(self).users(),
                old(self).records(),
                old(self).program(),
                user,
                amount,
                kind,
                now,
            ) {
                Ok((users, records)) => r is Ok && final(self).users() == users && final(self).records() == records,
                Err(e) => r == Err::<(), LedgerError>(e) && final(self).users() == old(self).users() && final(self).records() == old(self).records(),
            },
    {
        let ua = match user_address(&self.program_id, &user) {
            Some(a) => a,
            None => return Err(LedgerError::AddressUnavailable),
        };
        let i = match find_slot(&self.users, &ua) {
            Some(i) => i,
            None => return Err(LedgerError::AccountNotFound),
        };
        proof {
            lemma_slot(self.users@, i as int);
        }
        let account = self.users[i].1;
        let ra = match investment_address(&self.program_id, &user, account.investment_count) {
            Some(a) => a,
            None => return Err(LedgerError::AddressUnavailable),
        };
        match find_slot(&self.records, &ra) {
            Some(j) => {
                proof {
                    lemma_slot(self.records@, j as int);
                }
                return Err(LedgerError::AccountAlreadyExists);
            },
            None => {},
        }
        let mut ctx = Invest { user_account: account, investment_record: blank_record(), user };
        let res = match kind {
            InvestmentType::Manual => instructions::invest(&mut ctx, amount, now),
            InvestmentType::Auto => instructions::auto_invest(&mut ctx, amount, now),
        };
        match res {
            Ok(()) => {},
            Err(e) => return Err(LedgerError::Program(e)),
        }
        let Invest { user_account, investment_record, user: _ } = ctx;
        let key = self.users[i].0;
        proof {
            lemma_as_map_update(self.users@, i as int, user_account, account_entry());
            lemma_as_map_push(self.records@, ra, investment_record, record_entry());
        }
        self.users.set(i, (key, user_account));
        self.records.push((ra, investment_record));
        Ok(())
    }

    /// Records a manual investment by `user`, at the address that its investment
    /// count gives.
    pub fn invest(&mut self, user: Key, amount_in_lamports: u64, now: i64) -> (r: Result<
        (),
        LedgerError,
    >)
        requires
            old(self).wf(),
        ensures
            final(self).wf(),
            final(self).program() == old(self).program(),
            match investment_step(
                old(self).users(),
                old(self).records(),
                old(self).program(),
                user,
                amount_in_lamports,
                InvestmentType::Manual,
                now,
            ) {
                Ok((users, records)) => r is Ok && final(self).users() == users && final(self).records() == records,
                Err(e) => r == Err::<(), LedgerError>(e) && final(self).users() == old(self).users() && final(self).records() == old(self).records(),
            },
    {
        self.apply_investment(user, amount_in_lamports, InvestmentType::Manual, now)
    }

    /// Records an automatic investment by `user`, with 1.5 times the points.
    pub fn auto_invest(&mut self, user: Key, amount_in_lamports: u64, now: i64) -> (r: Result<
        (),
        LedgerError,
    >)
        requires
            old(self).wf(),
        ensures
            final(self).wf(),
            final(self).program() == old(self).program(),
            match investment_step(
                old(self).users(),
                old(self).records(),
                old(self).program(),
                user,
                amount_in_lamports,
                InvestmentType::Auto,
                now,
            ) {
                Ok((users, records)) => r is Ok && final(self).users() == users && final(self).records() == records,
                Err(e) => r == Err::<(), LedgerError>(e) && final(self).users() == old(self).users() && final(self).records() == old(self).records(),
            },
    {
        self.apply_investment(user, amount_in_lamports, InvestmentType::Auto, now)
    }

    /// Hands out all reward points of `user` and resets them to zero.
    pub fn claim_rewards(&mut self, user: Key) -> (r: Result<u64, LedgerError>)
        requires
            old(self).wf(),
        ensures
            final(self).wf(),
            final(self).program() == old(self).program(),
            final(self).records() == old(self).records(),
            match claim_outcome(old(self).users(), old(self).program(), user) {
                Ok((points, users)) => r == Ok::<u64, LedgerError>(points) && final(self).users()
                    == users,
                Err(e) => r == Err::<u64, LedgerError>(e) && final(self).users() == old(self).users(),
            },
    {
        let ua = match user_address(&self.program_id, &user) {
            Some(a) => a,
            None => return Err(LedgerError::AddressUnavailable),
        };
        let i = match find_slot(&self.users, &ua) {
            Some(i) => i,
            None => return Err(LedgerError::AccountNotFound),
        };
        proof {
            lemma_slot(self.users@, i as int);
        }
        let mut ctx = ClaimRewards { user_account: self.users[i].1, user };
        let points = match instructions::claim_rewards(&mut ctx) {
            Ok(p) => p,
            Err(e) => return Err(LedgerError::Program(e)),
        };
        let key = self.users[i].0;
        proof {
            lemma_as_map_update(self.users@, i as int, ctx.user_account, account_entry());
        }
        self.users.set(i, (key, ctx.user_account));
        Ok(points)
    }

    /// The counters of the summary record of `user`; changes nothing.
    pub fn get_user_stats(&self, user: Key) -> (r: Result<UserStats, LedgerError>)
        requires
            self.wf(),
        ensures
            r == stats_lookup(self.users(), self.program(), user),
    {
        let ua = match user_address(&self.program_id, &user) {
            Some(a) => a,
            None => return Err(LedgerError::AddressUnavailable),
        };
        let i = match find_slot(&self.users, &ua) {
            Some(i) => i,
            None => return Err(LedgerError::AccountNotFound),
        };
        proof {
            lemma_slot(self.users@, i as int);
        }
        let ctx = GetUserStats { user_account: self.users[i].1, user };
        Ok(instructions::get_user_stats(&ctx))
    }

    /// The summary record stored at `address`.
    pub fn user_account(&self, address: &Key) -> (r: Option<UserAccount>)
        requires
            self.wf(),
        ensures
            match r {
                Some(a) => self.users().contains_key(address@) && a == self.users()[address@],
                None => !self.users().contains_key(address@),
            },
    {
        match find_slot(&self.users, address) {
            Some(i) => {
                proof {
                    lemma_slot(self.users@, i as int);
                }
                Some(self.users[i].1)
            },
            None => None,
        }
    }

    /// The investment record stored at `address`.
    pub fn investment_record(&self, address: &Key) -> (r: Option<&InvestmentRecord>)
        requires
            self.wf(),
        ensures
            match r {
                Some(rec) => self.records().contains_key(address@) && rec@ == self.records()[address@],
                None => !self.records().contains_key(address@),
            },
    {
        match find_slot(&self.records, address) {
            Some(i) => {
                proof {
                    lemma_slot(self.records@, i as int);
                }
                Some(&self.records[i].1)
            },
            None => None,
        }
    }

    /// The number of investment records.
    pub fn record_count(&self) -> (r: usize)
        requires
            self.wf(),
        ensures
            self.records().dom().finite(),
            r == self.records().dom().len(),
    {
        proof {
            self.lemma_records_count();
        }
        self.records.len()
    }

    proof fn lemma_records_count(&self)
        requires
            self.wf(),
        ensures
            self.records().dom().finite(),
            self.records().dom().len() == self.records@.len(),
    {
        let s = self.records@;
        let keys = s.map_values(|p: (Key, InvestmentRecord)| p.0@);
        assert forall|i: int, j: int| 0 <= i < keys.len() && 0 <= j < keys.len() && i != j implies keys[i] != keys[j] by {}
        keys.unique_seq_to_set();
        assert forall|k: Seq<u8>| self.records().dom().contains(k) == keys.to_set().contains(k) by {
            if has_key(s, k) {
                let i = slot_of(s, k);
                assert(keys[i] == k);
            }
            if keys.to_set().contains(k) {
                let i = choose|i: int| 0 <= i < keys.len() && keys[i] == k;
                assert(s[i].0@ == k);
            }
        }
        assert(self.records().dom() =~= keys.to_set());
    }

    pub fn program_id(&self) -> (r: Key)
        ensures
            r@ == self.program(),
    {
        self.program_id
    }
}

} // verus!
