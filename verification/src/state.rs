use vstd::prelude::*;

verus! {

/// The longest company name a pool record can carry.
pub const MAX_COMPANY_NAME_LEN: usize = 50;

/// A 32-byte account identity (a public key or a derived address),
/// held as four 64-bit words so that equality is plain word equality.
#[derive(Clone, Copy, PartialEq, Eq, Structural, Debug, Hash)]
pub struct Identity {
    pub w0: u64,
    pub w1: u64,
    pub w2: u64,
    pub w3: u64,
}

/// One organization's vesting pool: who owns it, which asset it vests,
/// where the locked balance is custodied, and its label.
///
/// The custody address (`treasury_token_account`) is a deterministically
/// derived address with no independent signing key; the two recorded
/// nonces let it be re-derived at claim time without search. The pool is
/// created once and never mutated thereafter.
#[derive(Debug)]
pub struct VestingAccount {
    /// Identity of the organization; only this identity may authorize
    /// new schedules in this pool.
    pub owner: Identity,
    /// Identifier of the fungible asset type being vested.
    pub mint: Identity,
    /// Derived custody address holding the locked token balance.
    pub treasury_token_account: Identity,
    /// Derivation nonce of the custody address.
    pub treasury_bump: u8,
    /// Derivation nonce of the pool's own address.
    pub bump: u8,
    /// Human-readable label, bounded to `MAX_COMPANY_NAME_LEN` characters.
    pub company_name: String,
}

impl VestingAccount {
    /// Well-formed: the label fits the fixed-layout record.
    pub open spec fn wf(self) -> bool {
        self.company_name@.len() <= MAX_COMPANY_NAME_LEN
    }
}

/// One employee's allocation within a pool: timing parameters, total
/// entitlement, and the running ledger of what was already withdrawn.
///
/// Mutated only by the claim engine, which increments `total_withdrawn`.
#[derive(Clone, Copy, PartialEq, Eq, Structural, Debug)]
pub struct EmployeeAccount {
    /// Address of the pool this schedule belongs to.
    pub vesting_account: Identity,
    /// Identity authorized to claim; any other claimant is rejected.
    pub beneficiary: Identity,
    /// When vesting begins (seconds since epoch).
    pub start_time: i64,
    /// When vesting completes; strictly after `start_time`.
    pub end_time: i64,
    /// Total entitlement, fixed at creation; non-negative.
    pub total_amount: i64,
    /// Cumulative amount already released; starts at 0 and never
    /// decreases; never exceeds `total_amount`.
    pub total_withdrawn: i64,
    /// Before this time no claim succeeds; between `start_time` and
    /// `end_time` inclusive.
    pub cliff_time: i64,
    /// Derivation nonce of the schedule's own address.
    pub bump: u8,
}

impl EmployeeAccount {
    /// Well-formed: the timing invariant and the withdrawal-ledger bounds.
    pub open spec fn wf(self) -> bool {
        &&& 0 <= self.total_amount
        &&& 0 <= self.total_withdrawn <= self.total_amount
        &&& self.start_time <= self.cliff_time <= self.end_time
        &&& self.start_time < self.end_time
    }

    /// The timing and amount inputs a schedule may be created from.
    pub open spec fn valid_parameters(
        start_time: i64,
        end_time: i64,
        total_amount: i64,
        cliff_time: i64,
    ) -> bool {
        &&& 0 <= total_amount
        &&& start_time <= cliff_time <= end_time
        &&& start_time < end_time
    }
}

} // verus!
