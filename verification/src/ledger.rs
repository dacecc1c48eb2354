use vstd::prelude::*;
use crate::claim::{apply_claim, claim_spec, lemma_claim_step};
use crate::errors::ErrorCode;
use crate::state::{EmployeeAccount, Identity, VestingAccount, MAX_COMPANY_NAME_LEN};

verus! {

/// A pool record together with the derived address it is stored under.
#[derive(Debug)]
pub struct PoolEntry {
    pub address: Identity,
    pub account: VestingAccount,
}

/// The durable record store the host keeps the vesting state in: pool
/// records keyed by their derived address, schedule records keyed by the
/// pair (pool address, beneficiary). Each operation below is one
/// serialized, all-or-nothing transaction against this store.
pub struct VestingLedger {
    pools: Vec<PoolEntry>,
    schedules: Vec<EmployeeAccount>,
}

impl VestingLedger {
    /// The stored pool records, in insertion order.
    pub closed spec fn spec_pools(self) -> Seq<PoolEntry> {
        self.pools@
    }

    /// The stored schedule records, in insertion order.
    pub closed spec fn spec_schedules(self) -> Seq<EmployeeAccount> {
        self.schedules@
    }

    /// Some pool record is stored under `address`.
    pub open spec fn has_pool(self, address: Identity) -> bool {
        exists|i: int|
            0 <= i < self.spec_pools().len() && self.spec_pools()[i].address == address
    }

    /// The position of the pool stored under `address`; meaningful only
    /// when `has_pool` holds (and then unique, by `wf`).
    pub open spec fn pool_index(self, address: Identity) -> int {
        choose|i: int|
            0 <= i < self.spec_pools().len() && self.spec_pools()[i].address == address
    }

    /// The pool record stored under `address`.
    pub open spec fn spec_pool(self, address: Identity) -> VestingAccount {
        self.spec_pools()[self.pool_index(address)].account
    }

    /// Some schedule record is stored for this pool and beneficiary.
    pub open spec fn has_schedule(self, pool_address: Identity, beneficiary: Identity) -> bool {
        exists|i: int|
            0 <= i < self.spec_schedules().len() && self.spec_schedules()[i].vesting_account
                == pool_address && self.spec_schedules()[i].beneficiary == beneficiary
    }

    /// The position of the schedule for this pool and beneficiary;
    /// meaningful only when `has_schedule` holds (and then unique).
    pub open spec fn schedule_index(self, pool_address: Identity, beneficiary: Identity) -> int {
        choose|i: int|
            0 <= i < self.spec_schedules().len() && self.spec_schedules()[i].vesting_account
                == pool_address && self.spec_schedules()[i].beneficiary == beneficiary
    }

    /// The schedule record for this pool and beneficiary.
    pub open spec fn spec_schedule(self, pool_address: Identity, beneficiary: Identity) -> EmployeeAccount {
        self.spec_schedules()[self.schedule_index(pool_address, beneficiary)]
    }

    /// Well-formed store: every pool label fits its record, pool
    /// addresses are unique, every schedule keeps its invariant, there is
    /// at most one schedule per (pool, beneficiary) pair, and every
    /// schedule belongs to a stored pool.
    pub open spec fn wf(self) -> bool {
        &&& forall|i: int|
            0 <= i < self.spec_pools().len() ==> (#[trigger] self.spec_pools()[i]).account.wf()
        &&& forall|i: int, j: int|
            0 <= i < j < self.spec_pools().len() ==> (#[trigger] self.spec_pools()[i]).address != (
            #[trigger] self.spec_pools()[j]).address
        &&& forall|i: int|
            0 <= i < self.spec_schedules().len() ==> (#[trigger] self.spec_schedules()[i]).wf()
        &&& forall|i: int, j: int|
            0 <= i < j < self.spec_schedules().len() ==> !((#[trigger] self.spec_schedules()[i]).vesting_account
                == (#[trigger] self.spec_schedules()[j]).vesting_account && self.spec_schedules()[i].beneficiary
                == self.spec_schedules()[j].beneficiary)
        &&& forall|i: int|
            0 <= i < self.spec_schedules().len() ==> self.has_pool(
                (#[trigger] self.spec_schedules()[i]).vesting_account,
            )
    }

    /// An empty store.
    pub fn new() -> (r: Self)
        ensures
            r.wf(),
            r.spec_pools() == Seq::<PoolEntry>::empty(),
            r.spec_schedules() == Seq::<EmployeeAccount>::empty(),
    {
        VestingLedger { pools: Vec::new(), schedules: Vec::new() }
    }

    /// In a well-formed store the pool index is the only matching one.
    proof fn lemma_pool_index_is(self, address: Identity, i: int)
        requires
            self.wf(),
            0 <= i < self.spec_pools().len(),
            self.spec_pools()[i].address == address,
        ensures
            self.pool_index(address) == i,
            self.has_pool(address),
    {
        assert(self.has_pool(address));
        let j = self.pool_index(address);
        if i < j {
            assert(self.spec_pools()[i].address != self.spec_pools()[j].address);
        } else if j < i {
            assert(self.spec_pools()[j].address != self.spec_pools()[i].address);
        }
    }

    /// In a well-formed store the schedule index is the only matching one.
    proof fn lemma_schedule_index_is(self, pool_address: Identity, beneficiary: Identity, i: int)
        requires
            self.wf(),
            0 <= i < self.spec_schedules().len(),
            self.spec_schedules()[i].vesting_account == pool_address,
            self.spec_schedules()[i].beneficiary == beneficiary,
        ensures
            self.schedule_index(pool_address, beneficiary) == i,
            self.has_schedule(pool_address, beneficiary),
    {
        assert(self.has_schedule(pool_address, beneficiary));
        let j = self.schedule_index(pool_address, beneficiary);
        if i < j {
            assert(!(self.spec_schedules()[i].vesting_account == self.spec_schedules()[j].vesting_account
                && self.spec_schedules()[i].beneficiary == self.spec_schedules()[j].beneficiary));
        } else if j < i {
            assert(!(self.spec_schedules()[j].vesting_account == self.spec_schedules()[i].vesting_account
                && self.spec_schedules()[j].beneficiary == self.spec_schedules()[i].beneficiary));
        }
    }

    /// The position of the pool stored under `address`, if any.
    fn find_pool_index(&self, address: Identity) -> (r: Option<usize>)
        ensures
            r matches Some(i) ==> i < self.spec_pools().len() && self.spec_pools()[i as int].address
                == address,
            r is None ==> !self.has_pool(address),
    {
        let n = self.pools.len();
        for i in 0..n
            invariant
                n == self.spec_pools().len(),
                forall|j: int| 0 <= j < i ==> (#[trigger] self.spec_pools()[j]).address != address,
        {
            if self.pools[i].address == address {
                return Some(i);
            }
        }
        None
    }

    /// The position of the schedule for this pool and beneficiary, if any.
    fn find_schedule_index(&self, pool_address: Identity, beneficiary: Identity) -> (r: Option<
        usize,
    >)
        ensures
            r matches Some(i) ==> i < self.spec_schedules().len() && self.spec_schedules()[i as int].vesting_account
                == pool_address && self.spec_schedules()[i as int].beneficiary == beneficiary,
            r is None ==> !self.has_schedule(pool_address, beneficiary),
    {
        let n = self.schedules.len();
        for i in 0..n
            invariant
                n == self.spec_schedules().len(),
                forall|j: int|
                    0 <= j < i ==> !((#[trigger] self.spec_schedules()[j]).vesting_account
                        == pool_address && self.spec_schedules()[j].beneficiary == beneficiary),
        {
            if self.schedules[i].vesting_account == pool_address && self.schedules[i].beneficiary
                == beneficiary {
                return Some(i);
            }
        }
        None
    }

    /// Claim whatever has vested for `beneficiary`'s schedule in the
    /// pool at `pool_address`, as one serialized, all-or-nothing
    /// transaction: the claimant must be the recorded beneficiary, the
    /// cliff must have passed, and something must be claimable; then the
    /// returned amount is transferred out of custody and the schedule's
    /// withdrawal ledger moves forward by exactly that amount. On any
    /// error the store is unchanged.
    pub fn claim_tokens(
        &mut self,
        pool_address: Identity,
        beneficiary: Identity,
        claimant: Identity,
        now: i64,
    ) -> (r: Result<i64, ErrorCode>)
        requires
            old(self).wf(),
            old(self).has_schedule(pool_address, beneficiary),
        ensures
            final(self).wf(),
            final(self).spec_pools() == old(self).spec_pools(),
            final(self).has_schedule(pool_address, beneficiary),
            final(self).schedule_index(pool_address, beneficiary) == old(self).schedule_index(
                pool_address,
                beneficiary,
            ),
            final(self).spec_schedule(pool_address, beneficiary) == claim_spec(
                old(self).spec_schedule(pool_address, beneficiary),
                claimant,
                now as int,
            ).0,
            final(self).spec_schedules() == old(self).spec_schedules().update(
                old(self).schedule_index(pool_address, beneficiary),
                claim_spec(old(self).spec_schedule(pool_address, beneficiary), claimant, now as int).0,
            ),
            r matches Ok(a) ==> claim_spec(
                old(self).spec_schedule(pool_address, beneficiary),
                claimant,
                now as int,
            ).1 == Ok::<int, ErrorCode>(a as int),
            r matches Err(c) ==> claim_spec(
                old(self).spec_schedule(pool_address, beneficiary),
                claimant,
                now as int,
            ).1 == Err::<int, ErrorCode>(c) && final(self).spec_schedules() == old(
                self,
            ).spec_schedules(),
            claimant != old(self).spec_schedule(pool_address, beneficiary).beneficiary ==> r
                == Err::<i64, ErrorCode>(ErrorCode::Unauthorized),
    {
        let i = self.find_schedule_index(pool_address, beneficiary).unwrap();
        proof {
            self.lemma_schedule_index_is(pool_address, beneficiary, i as int);
        }
        let mut s = self.schedules[i];
        let r = apply_claim(&mut s, claimant, now);
        proof {
            lemma_claim_step(old(self).spec_schedules()[i as int], claimant, now as int);
        }
        self.schedules[i] = s;
        proof {
            let olds = old(self).spec_schedules();
            let news = self.spec_schedules();
            let n = olds.len() as int;
            let ii = i as int;
            assert(news == olds.update(ii, s));
            assert(s.vesting_account == olds[ii].vesting_account);
            assert(s.beneficiary == olds[ii].beneficiary);
            assert forall|k: int| 0 <= k < news.len() implies (#[trigger] news[k]).wf() by {
                if k != ii {
                    assert(news[k] == olds[k]);
                }
            }
            assert forall|a: int, b: int|
                0 <= a < b < news.len() implies !((#[trigger] news[a]).vesting_account == (
            #[trigger] news[b]).vesting_account && news[a].beneficiary == news[b].beneficiary) by {
                assert(news[a].vesting_account == olds[a].vesting_account && news[a].beneficiary
                    == olds[a].beneficiary);
                assert(news[b].vesting_account == olds[b].vesting_account && news[b].beneficiary
                    == olds[b].beneficiary);
            }
            assert forall|k: int|
                0 <= k < news.len() implies self.has_pool(
                (#[trigger] news[k]).vesting_account,
            ) by {
                assert(self.spec_pools() == old(self).spec_pools());
                assert(news[k].vesting_account == olds[k].vesting_account);
                assert(old(self).has_pool(olds[k].vesting_account));
                let w = old(self).pool_index(olds[k].vesting_account);
                assert(self.spec_pools()[w].address == olds[k].vesting_account);
            }
            assert(self.wf());
            self.lemma_schedule_index_is(pool_address, beneficiary, ii);
            if r is Err {
                assert(s == olds[ii]);
                assert(news =~= olds);
            }
        }
        r
    }

    /// The pool record stored under `address`, if any.
    pub fn get_pool(&self, address: Identity) -> (r: Option<&VestingAccount>)
        requires
            self.wf(),
        ensures
            r matches Some(p) ==> self.has_pool(address) && *p == self.spec_pool(address),
            r is None ==> !self.has_pool(address),
    {
        match self.find_pool_index(address) {
            Some(i) => {
                proof {
                    self.lemma_pool_index_is(address, i as int);
                }
                Some(&self.pools[i].account)
            },
            None => None,
        }
    }

    /// Create an organization's vesting pool: a pool record stored under
    /// its derived `address`, custodied at the derived
    /// `treasury_token_account`, with the two derivation nonces recorded
    /// for re-derivation at claim time. Fails if the derivation collides
    /// with a pool already stored under the same address; nothing is
    /// overwritten.
    pub fn create_vesting_account(
        &mut self,
        address: Identity,
        owner: Identity,
        mint: Identity,
        treasury_token_account: Identity,
        treasury_bump: u8,
        bump: u8,
        company_name: String,
    ) -> (r: Result<(), ErrorCode>)
        requires
            old(self).wf(),
            company_name@.len() <= MAX_COMPANY_NAME_LEN,
        ensures
            final(self).wf(),
            final(self).spec_schedules() == old(self).spec_schedules(),
            old(self).has_pool(address) ==> r == Err::<(), ErrorCode>(
                ErrorCode::AccountAlreadyInUse,
            ) && final(self).spec_pools() == old(self).spec_pools(),
            !old(self).has_pool(address) ==> r == Ok::<(), ErrorCode>(())
                && final(self).spec_pools() == old(self).spec_pools().push(
                (PoolEntry {
                    address,
                    account: VestingAccount {
                        owner,
                        mint,
                        treasury_token_account,
                        treasury_bump,
                        bump,
                        company_name,
                    },
                }),
            ),
            final(self).has_pool(address),
            !old(self).has_pool(address) ==> final(self).spec_pool(address) == (VestingAccount {
                owner,
                mint,
                treasury_token_account,
                treasury_bump,
                bump,
                company_name,
            }),
    {
        match self.find_pool_index(address) {
            Some(i) => {
                proof {
                    self.lemma_pool_index_is(address, i as int);
                }
                Err(ErrorCode::AccountAlreadyInUse)
            },
            None => {
                let entry = PoolEntry {
                    address,
                    account: VestingAccount {
                        owner,
                        mint,
                        treasury_token_account,
                        treasury_bump,
                        bump,
                        company_name,
                    },
                };
                proof {
                    assert(!old(self).has_pool(address));
                }
                self.pools.push(entry);
                proof {
                    let olds = old(self).spec_pools();
                    let news = self.spec_pools();
                    let n = olds.len() as int;
                    assert(news[n].address == address);
                    assert(news[n].account.wf());
                    assert forall|i: int| 0 <= i < n implies (#[trigger] news[i]).address
                        != address by {
                        if news[i].address == address {
                            assert(olds[i].address == address);
                            assert(old(self).has_pool(address));
                        }
                    }
                    assert forall|k: int|
                        0 <= k < self.spec_schedules().len() implies self.has_pool(
                        (#[trigger] self.spec_schedules()[k]).vesting_account,
                    ) by {
                        assert(self.spec_schedules()[k] == old(self).spec_schedules()[k]);
                        assert(old(self).has_pool(old(self).spec_schedules()[k].vesting_account));
                        let w = old(self).pool_index(self.spec_schedules()[k].vesting_account);
                        assert(news[w] == olds[w]);
                    }
                    assert forall|i: int|
                        0 <= i < news.len() implies (#[trigger] news[i]).account.wf() by {
                        if i < n {
                            assert(news[i] == olds[i]);
                            assert(olds[i].account.wf());
                        }
                    }
                    assert forall|i: int, j: int|
                        0 <= i < j < news.len() implies (#[trigger] news[i]).address != (
                    #[trigger] news[j]).address by {
                        if j < n {
                            assert(news[i] == olds[i]);
                            assert(news[j] == olds[j]);
                        } else {
                            assert(news[i] == olds[i]);
                        }
                    }
                    assert forall|k: int|
                        0 <= k < self.spec_schedules().len() implies (#[trigger] self.spec_schedules()[k]).wf() by {
                        assert(self.spec_schedules()[k] == old(self).spec_schedules()[k]);
                    }
                    assert forall|i: int, j: int|
                        0 <= i < j < self.spec_schedules().len() implies !((
                    #[trigger] self.spec_schedules()[i]).vesting_account == (
                    #[trigger] self.spec_schedules()[j]).vesting_account
                        && self.spec_schedules()[i].beneficiary
                        == self.spec_schedules()[j].beneficiary) by {
                        assert(self.spec_schedules()[i] == old(self).spec_schedules()[i]);
                        assert(self.spec_schedules()[j] == old(self).spec_schedules()[j]);
                    }
                    assert(self.wf());
                    self.lemma_pool_index_is(address, n);
                }
                Ok(())
            },
        }
    }

    /// Create one employee's schedule inside a pool. Only the pool's
    /// recorded owner may authorize it; the timing and amount inputs are
    /// caller-supplied and are validated before anything is written; a
    /// second schedule for the same (pool, beneficiary) pair is refused.
    /// On success the schedule starts with nothing withdrawn.
    pub fn create_employee_vesting(
        &mut self,
        pool_address: Identity,
        authorizer: Identity,
        beneficiary: Identity,
        start_time: i64,
        end_time: i64,
        total_amount: i64,
        cliff_time: i64,
        bump: u8,
    ) -> (r: Result<(), ErrorCode>)
        requires
            old(self).wf(),
            old(self).has_pool(pool_address),
        ensures
            final(self).wf(),
            final(self).spec_pools() == old(self).spec_pools(),
            authorizer != old(self).spec_pool(pool_address).owner ==> r == Err::<(), ErrorCode>(
                ErrorCode::Unauthorized,
            ) && final(self).spec_schedules() == old(self).spec_schedules(),
            authorizer == old(self).spec_pool(pool_address).owner
                && !EmployeeAccount::valid_parameters(start_time, end_time, total_amount, cliff_time)
                ==> r == Err::<(), ErrorCode>(ErrorCode::InvalidScheduleParameters)
                && final(self).spec_schedules() == old(self).spec_schedules(),
            authorizer == old(self).spec_pool(pool_address).owner
                && EmployeeAccount::valid_parameters(start_time, end_time, total_amount, cliff_time)
                && old(self).has_schedule(pool_address, beneficiary) ==> r == Err::<(), ErrorCode>(
                ErrorCode::AccountAlreadyInUse,
            ) && final(self).spec_schedules() == old(self).spec_schedules(),
            authorizer == old(self).spec_pool(pool_address).owner
                && EmployeeAccount::valid_parameters(start_time, end_time, total_amount, cliff_time)
                && !old(self).has_schedule(pool_address, beneficiary) ==> r == Ok::<(), ErrorCode>(
                (),
            ) && final(self).spec_schedules() == old(self).spec_schedules().push(
                (EmployeeAccount {
                    vesting_account: pool_address,
                    beneficiary,
                    start_time,
                    end_time,
                    total_amount,
                    total_withdrawn: 0,
                    cliff_time,
                    bump,
                }),
            ) && final(self).has_schedule(pool_address, beneficiary) && final(self).spec_schedule(
                pool_address,
                beneficiary,
            ) == (EmployeeAccount {
                vesting_account: pool_address,
                beneficiary,
                start_time,
                end_time,
                total_amount,
                total_withdrawn: 0,
                cliff_time,
                bump,
            }),
    {
        let i = self.find_pool_index(pool_address).unwrap();
        proof {
            self.lemma_pool_index_is(pool_address, i as int);
        }
        if authorizer != self.pools[i].account.owner {
            return Err(ErrorCode::Unauthorized);
        }
        if !(0 <= total_amount && start_time <= cliff_time && cliff_time <= end_time && start_time
            < end_time) {
            return Err(ErrorCode::InvalidScheduleParameters);
        }
        match self.find_schedule_index(pool_address, beneficiary) {
            Some(_) => Err(ErrorCode::AccountAlreadyInUse),
            None => {
                let entry = EmployeeAccount {
                    vesting_account: pool_address,
                    beneficiary,
                    start_time,
                    end_time,
                    total_amount,
                    total_withdrawn: 0,
                    cliff_time,
                    bump,
                };
                proof {
                    assert(!old(self).has_schedule(pool_address, beneficiary));
                }
                self.schedules.push(entry);
                proof {
                    let olds = old(self).spec_schedules();
                    let news = self.spec_schedules();
                    let n = olds.len() as int;
                    assert(news[n] == entry);
                    assert(news[n].wf());
                    assert forall|k: int|
                        0 <= k < n implies !((#[trigger] news[k]).vesting_account == pool_address
                        && news[k].beneficiary == beneficiary) by {
                        assert(news[k] == olds[k]);
                        if olds[k].vesting_account == pool_address && olds[k].beneficiary
                            == beneficiary {
                            assert(old(self).has_schedule(pool_address, beneficiary));
                        }
                    }
                    assert forall|k: int| 0 <= k < news.len() implies (#[trigger] news[k]).wf() by {
                        if k < n {
                            assert(news[k] == olds[k]);
                        }
                    }
                    assert forall|a: int, b: int|
                        0 <= a < b < news.len() implies !((#[trigger] news[a]).vesting_account == (
                    #[trigger] news[b]).vesting_account && news[a].beneficiary
                        == news[b].beneficiary) by {
                        assert(news[a] == olds[a]);
                        if b < n {
                            assert(news[b] == olds[b]);
                        }
                    }
                    assert forall|k: int|
                        0 <= k < news.len() implies self.has_pool(
                        (#[trigger] news[k]).vesting_account,
                    ) by {
                        assert(self.spec_pools() == old(self).spec_pools());
                        if k < n {
                            assert(news[k] == olds[k]);
                            assert(old(self).has_pool(olds[k].vesting_account));
                            let w = old(self).pool_index(olds[k].vesting_account);
                            assert(self.spec_pools()[w].address == olds[k].vesting_account);
                        } else {
                            let w = old(self).pool_index(pool_address);
                            assert(self.spec_pools()[w].address == pool_address);
                        }
                    }
                    assert(self.wf());
                    self.lemma_schedule_index_is(pool_address, beneficiary, n);
                }
                Ok(())
            },
        }
    }

    /// The schedule record for this pool and beneficiary, if any.
    pub fn get_schedule(&self, pool_address: Identity, beneficiary: Identity) -> (r: Option<
        EmployeeAccount,
    >)
        requires
            self.wf(),
        ensures
            r matches Some(s) ==> self.has_schedule(pool_address, beneficiary) && s
                == self.spec_schedule(pool_address, beneficiary),
            r is None ==> !self.has_schedule(pool_address, beneficiary),
    {
        match self.find_schedule_index(pool_address, beneficiary) {
            Some(i) => {
                proof {
                    self.lemma_schedule_index_is(pool_address, beneficiary, i as int);
                }
                Some(self.schedules[i])
            },
            None => None,
        }
    }
}

} // verus!
