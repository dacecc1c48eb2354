use vesting::errors::ErrorCode;
use vesting::ledger::VestingLedger;
use vesting::state::{Identity, MAX_COMPANY_NAME_LEN};

fn ident(n: u64) -> Identity {
    Identity { w0: n, w1: 0, w2: 0, w3: n }
}

struct Fixture {
    ledger: VestingLedger,
    pool: Identity,
    owner: Identity,
    beneficiary: Identity,
}

fn pool_fixture() -> Fixture {
    let mut ledger = VestingLedger::new();
    let pool = ident(100);
    let owner = ident(1);
    let r = ledger.create_vesting_account(
        pool,
        owner,
        ident(2),
        ident(3),
        255,
        254,
        String::from("acme"),
    );
    assert_eq!(r, Ok(()));
    Fixture { ledger, pool, owner, beneficiary: ident(10) }
}

#[test]
fn create_pool_records_its_fields() {
    let f = pool_fixture();
    let p = f.ledger.get_pool(f.pool).expect("pool must be stored");
    assert_eq!(p.owner, f.owner);
    assert_eq!(p.mint, ident(2));
    assert_eq!(p.treasury_token_account, ident(3));
    assert_eq!(p.treasury_bump, 255);
    assert_eq!(p.bump, 254);
    assert_eq!(p.company_name, "acme");
    assert!(f.ledger.get_pool(ident(999)).is_none());
}

#[test]
fn duplicate_pool_address_is_refused() {
    let mut f = pool_fixture();
    let r = f.ledger.create_vesting_account(
        f.pool,
        ident(50),
        ident(51),
        ident(52),
        1,
        2,
        String::from("other"),
    );
    assert_eq!(r, Err(ErrorCode::AccountAlreadyInUse));
    // The first record stays; the late arrival changes nothing.
    assert_eq!(f.ledger.get_pool(f.pool).unwrap().company_name, "acme");
}

#[test]
fn company_name_bound_is_fifty() {
    let mut f = pool_fixture();
    let name: String = std::iter::repeat('x').take(MAX_COMPANY_NAME_LEN).collect();
    let r = f.ledger.create_vesting_account(ident(101), f.owner, ident(2), ident(4), 255, 253, name);
    assert_eq!(r, Ok(()));
}

#[test]
fn schedule_creation_requires_the_pool_owner() {
    let mut f = pool_fixture();
    let stranger = ident(66);
    let r = f.ledger.create_employee_vesting(f.pool, stranger, f.beneficiary, 0, 1000, 500, 100, 252);
    assert_eq!(r, Err(ErrorCode::Unauthorized));
    assert!(f.ledger.get_schedule(f.pool, f.beneficiary).is_none());
}

#[test]
fn schedule_creation_validates_parameters() {
    let mut f = pool_fixture();
    let owner = f.owner;
    let ben = f.beneficiary;
    // Negative entitlement.
    let r = f.ledger.create_employee_vesting(f.pool, owner, ben, 0, 1000, -1, 100, 252);
    assert_eq!(r, Err(ErrorCode::InvalidScheduleParameters));
    // Zero-duration vesting.
    let r = f.ledger.create_employee_vesting(f.pool, owner, ben, 1000, 1000, 500, 1000, 252);
    assert_eq!(r, Err(ErrorCode::InvalidScheduleParameters));
    // Cliff before start.
    let r = f.ledger.create_employee_vesting(f.pool, owner, ben, 100, 1000, 500, 50, 252);
    assert_eq!(r, Err(ErrorCode::InvalidScheduleParameters));
    // Cliff after end.
    let r = f.ledger.create_employee_vesting(f.pool, owner, ben, 0, 1000, 500, 1500, 252);
    assert_eq!(r, Err(ErrorCode::InvalidScheduleParameters));
    assert!(f.ledger.get_schedule(f.pool, ben).is_none());
}

#[test]
fn schedule_starts_with_nothing_withdrawn() {
    let mut f = pool_fixture();
    let r = f.ledger.create_employee_vesting(f.pool, f.owner, f.beneficiary, 0, 1000, 500, 100, 252);
    assert_eq!(r, Ok(()));
    let s = f.ledger.get_schedule(f.pool, f.beneficiary).expect("schedule must be stored");
    assert_eq!(s.vesting_account, f.pool);
    assert_eq!(s.beneficiary, f.beneficiary);
    assert_eq!(s.start_time, 0);
    assert_eq!(s.end_time, 1000);
    assert_eq!(s.total_amount, 500);
    assert_eq!(s.total_withdrawn, 0);
    assert_eq!(s.cliff_time, 100);
    assert_eq!(s.bump, 252);
}

#[test]
fn one_schedule_per_pool_and_beneficiary() {
    let mut f = pool_fixture();
    let r = f.ledger.create_employee_vesting(f.pool, f.owner, f.beneficiary, 0, 1000, 500, 100, 252);
    assert_eq!(r, Ok(()));
    let r = f.ledger.create_employee_vesting(f.pool, f.owner, f.beneficiary, 0, 2000, 900, 0, 252);
    assert_eq!(r, Err(ErrorCode::AccountAlreadyInUse));
    // The first schedule is untouched.
    let s = f.ledger.get_schedule(f.pool, f.beneficiary).unwrap();
    assert_eq!(s.total_amount, 500);
    // A different beneficiary in the same pool is fine.
    let r = f.ledger.create_employee_vesting(f.pool, f.owner, ident(11), 0, 2000, 900, 0, 252);
    assert_eq!(r, Ok(()));
}

#[test]
fn claim_through_the_ledger_full_scenario() {
    let mut f = pool_fixture();
    let ben = f.beneficiary;
    f.ledger
        .create_employee_vesting(f.pool, f.owner, ben, 0, 1000, 1000, 100, 252)
        .unwrap();

    assert_eq!(f.ledger.claim_tokens(f.pool, ben, ben, 50), Err(ErrorCode::ClaimNotAvailable));
    assert_eq!(f.ledger.claim_tokens(f.pool, ben, ben, 100), Ok(100));
    assert_eq!(f.ledger.claim_tokens(f.pool, ben, ben, 500), Ok(400));
    assert_eq!(f.ledger.claim_tokens(f.pool, ben, ben, 1000), Ok(500));
    assert_eq!(f.ledger.claim_tokens(f.pool, ben, ben, 2000), Err(ErrorCode::NothingToClaim));
    assert_eq!(f.ledger.get_schedule(f.pool, ben).unwrap().total_withdrawn, 1000);
}

#[test]
fn claim_by_non_beneficiary_is_unauthorized() {
    let mut f = pool_fixture();
    let ben = f.beneficiary;
    f.ledger
        .create_employee_vesting(f.pool, f.owner, ben, 0, 1000, 1000, 100, 252)
        .unwrap();
    // Even the pool owner may not claim another's schedule.
    assert_eq!(f.ledger.claim_tokens(f.pool, ben, f.owner, 500), Err(ErrorCode::Unauthorized));
    assert_eq!(f.ledger.claim_tokens(f.pool, ben, ident(77), 500), Err(ErrorCode::Unauthorized));
    assert_eq!(f.ledger.get_schedule(f.pool, ben).unwrap().total_withdrawn, 0);
}

#[test]
fn claims_on_one_schedule_leave_others_alone() {
    let mut f = pool_fixture();
    let a = ident(10);
    let b = ident(11);
    f.ledger.create_employee_vesting(f.pool, f.owner, a, 0, 10, 100, 0, 252).unwrap();
    f.ledger.create_employee_vesting(f.pool, f.owner, b, 0, 10, 100, 0, 252).unwrap();
    assert_eq!(f.ledger.claim_tokens(f.pool, a, a, 5), Ok(50));
    assert_eq!(f.ledger.get_schedule(f.pool, a).unwrap().total_withdrawn, 50);
    assert_eq!(f.ledger.get_schedule(f.pool, b).unwrap().total_withdrawn, 0);
    assert_eq!(f.ledger.claim_tokens(f.pool, b, b, 10), Ok(100));
    assert_eq!(f.ledger.get_schedule(f.pool, b).unwrap().total_withdrawn, 100);
}
