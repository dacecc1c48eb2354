use vstd::prelude::*;
use vstd::arithmetic::div_mod::{
    lemma_div_by_multiple, lemma_div_is_ordered, lemma_div_pos_is_pos, lemma_multiply_divide_le,
};
use vstd::arithmetic::mul::{
    lemma_mul_inequality, lemma_mul_is_commutative, lemma_mul_nonnegative, lemma_mul_upper_bound,
};
use crate::errors::ErrorCode;
use crate::state::{EmployeeAccount, Identity};

verus! {

/// The entitlement unlocked by elapsed time alone: `total` scaled by the
/// elapsed fraction of the schedule, floor-divided. The elapsed-time basis
/// is clamped to `[start, end]`, so the value is 0 at or before `start`
/// and exactly `total` at or after `end`. The cliff does not enter here;
/// it gates the claim itself.
pub open spec fn vested_spec(total: int, start: int, end: int, now: int) -> int {
    let t = if now > end {
        end
    } else {
        now
    };
    if t <= start {
        0
    } else {
        total * (t - start) / (end - start)
    }
}

/// What a claim at `now` may release: the vested amount minus what was
/// already withdrawn. Negative only if time ran backwards past an
/// earlier claim; the claim engine releases nothing in that case.
pub open spec fn claimable_spec(e: EmployeeAccount, now: int) -> int {
    vested_spec(
        e.total_amount as int,
        e.start_time as int,
        e.end_time as int,
        now,
    ) - e.total_withdrawn
}

/// The claim decision and ledger update as one atomic step: the schedule
/// after the claim, and either the amount to transfer or the error.
/// Authorization is checked before any computation, then the cliff, then
/// whether anything is claimable.
pub open spec fn claim_spec(e: EmployeeAccount, claimant: Identity, now: int) -> (
    EmployeeAccount,
    Result<int, ErrorCode>,
) {
    if claimant != e.beneficiary {
        (e, Err(ErrorCode::Unauthorized))
    } else if now < e.cliff_time {
        (e, Err(ErrorCode::ClaimNotAvailable))
    } else if claimable_spec(e, now) <= 0 {
        (e, Err(ErrorCode::NothingToClaim))
    } else {
        (
            (EmployeeAccount {
                total_withdrawn: (e.total_withdrawn + claimable_spec(e, now)) as i64,
                ..e
            }),
            Ok(claimable_spec(e, now)),
        )
    }
}

/// The vested amount never leaves `[0, total]`.
pub proof fn lemma_vested_bounds(total: int, start: int, end: int, now: int)
    requires
        0 <= total,
        start < end,
    ensures
        0 <= vested_spec(total, start, end, now) <= total,
{
    let t = if now > end {
        end
    } else {
        now
    };
    if t > start {
        let num = total * (t - start);
        lemma_mul_nonnegative(total, t - start);
        lemma_div_pos_is_pos(num, end - start);
        lemma_mul_is_commutative(total, t - start);
        lemma_mul_inequality(t - start, end - start, total);
        lemma_mul_is_commutative(end - start, total);
        lemma_multiply_divide_le(num, end - start, total);
    }
}

/// Vesting is monotone in time: a later reading never shows less.
pub proof fn lemma_vested_monotonic(total: int, start: int, end: int, t1: int, t2: int)
    requires
        0 <= total,
        start < end,
        t1 <= t2,
    ensures
        vested_spec(total, start, end, t1) <= vested_spec(total, start, end, t2),
{
    let c1 = if t1 > end {
        end
    } else {
        t1
    };
    let c2 = if t2 > end {
        end
    } else {
        t2
    };
    lemma_vested_bounds(total, start, end, t1);
    lemma_vested_bounds(total, start, end, t2);
    if c1 > start {
        lemma_mul_is_commutative(total, c1 - start);
        lemma_mul_is_commutative(total, c2 - start);
        lemma_mul_inequality(c1 - start, c2 - start, total);
        lemma_div_is_ordered(total * (c1 - start), total * (c2 - start), end - start);
    }
}

/// At or after `end` the whole entitlement has vested: the floor division
/// leaves no residue because the final reading divides `total * duration`
/// by `duration` exactly.
pub proof fn lemma_vested_complete(total: int, start: int, end: int, now: int)
    requires
        0 <= total,
        start < end,
        end <= now,
    ensures
        vested_spec(total, start, end, now) == total,
{
    lemma_mul_is_commutative(total, end - start);
    lemma_div_by_multiple(total, end - start);
}

/// One claim step preserves the schedule invariant, touches only the
/// withdrawal ledger, and pays out exactly the growth of that ledger.
pub proof fn lemma_claim_step(e: EmployeeAccount, claimant: Identity, now: int)
    requires
        e.wf(),
    ensures
        ({
            let (e2, r) = claim_spec(e, claimant, now);
            &&& e2.wf()
            &&& e2.vesting_account == e.vesting_account
            &&& e2.beneficiary == e.beneficiary
            &&& e2.start_time == e.start_time
            &&& e2.end_time == e.end_time
            &&& e2.total_amount == e.total_amount
            &&& e2.cliff_time == e.cliff_time
            &&& e2.bump == e.bump
            &&& e.total_withdrawn <= e2.total_withdrawn
            &&& (r matches Ok(a) ==> 0 < a && e2.total_withdrawn == e.total_withdrawn + a)
            &&& (r matches Ok(a) ==> e2.total_withdrawn == vested_spec(
                e.total_amount as int,
                e.start_time as int,
                e.end_time as int,
                now,
            ))
            &&& (r is Err ==> e2 == e)
        }),
{
    lemma_vested_bounds(e.total_amount as int, e.start_time as int, e.end_time as int, now);
}

/// Right after a successful claim, a second claim at the same time finds
/// nothing left: the first already consumed the whole claimable delta.
pub proof fn lemma_repeat_claim_fails(e: EmployeeAccount, claimant: Identity, now: int)
    requires
        e.wf(),
        claim_spec(e, claimant, now).1 is Ok,
    ensures
        claim_spec(claim_spec(e, claimant, now).0, claimant, now).1 == Err::<int, ErrorCode>(
            ErrorCode::NothingToClaim,
        ),
{
    lemma_claim_step(e, claimant, now);
}

/// The schedule after a sequence of claim requests, each a claimant and
/// a time, applied first to last.
pub open spec fn run_claims(e: EmployeeAccount, requests: Seq<(Identity, int)>) -> EmployeeAccount
    decreases requests.len(),
{
    if requests.len() == 0 {
        e
    } else {
        run_claims(claim_spec(e, requests[0].0, requests[0].1).0, requests.drop_first())
    }
}

/// The sum of the amounts actually transferred over a sequence of claim
/// requests; a failed request transfers nothing.
pub open spec fn claimed_total(e: EmployeeAccount, requests: Seq<(Identity, int)>) -> int
    decreases requests.len(),
{
    if requests.len() == 0 {
        0
    } else {
        (match claim_spec(e, requests[0].0, requests[0].1).1 {
            Ok(a) => a,
            Err(_) => 0,
        }) + claimed_total(claim_spec(e, requests[0].0, requests[0].1).0, requests.drop_first())
    }
}

/// Over any sequence of claim requests, the amounts transferred sum to
/// exactly the growth of the withdrawal ledger, and never exceed the
/// outstanding entitlement. Starting from a fresh schedule
/// (`total_withdrawn == 0`) the sum never exceeds `total_amount`.
pub proof fn lemma_claims_never_exceed_total(e: EmployeeAccount, requests: Seq<(Identity, int)>)
    requires
        e.wf(),
    ensures
        ({
            let e2 = run_claims(e, requests);
            &&& e2.wf()
            &&& e2.total_amount == e.total_amount
            &&& claimed_total(e, requests) == e2.total_withdrawn - e.total_withdrawn
            &&& claimed_total(e, requests) <= e.total_amount - e.total_withdrawn
        }),
    decreases requests.len(),
{
    if requests.len() != 0 {
        lemma_claim_step(e, requests[0].0, requests[0].1);
        lemma_claims_never_exceed_total(
            claim_spec(e, requests[0].0, requests[0].1).0,
            requests.drop_first(),
        );
    }
}

/// The vested amount at `now`, computed with a 128-bit intermediate so
/// the product `total_amount * elapsed` cannot overflow before the
/// floor division.
pub fn vested_amount(e: &EmployeeAccount, now: i64) -> (r: i64)
    requires
        e.wf(),
    ensures
        r == vested_spec(e.total_amount as int, e.start_time as int, e.end_time as int, now as int),
        0 <= r <= e.total_amount,
{
    proof {
        lemma_vested_bounds(
            e.total_amount as int,
            e.start_time as int,
            e.end_time as int,
            now as int,
        );
    }
    let t: i64 = if now > e.end_time {
        e.end_time
    } else {
        now
    };
    if t <= e.start_time {
        0
    } else {
        let total: u128 = e.total_amount as u128;
        let elapsed: u128 = ((t as i128) - (e.start_time as i128)) as u128;
        let duration: u128 = ((e.end_time as i128) - (e.start_time as i128)) as u128;
        proof {
            lemma_mul_upper_bound(
                total as int,
                0x7fff_ffff_ffff_ffff as int,
                elapsed as int,
                0xffff_ffff_ffff_ffff as int,
            );
        }
        let v: u128 = total * elapsed / duration;
        v as i64
    }
}

/// The claim decision alone, with no state touched: either the amount
/// the custody must transfer to the beneficiary, or the error. A host
/// that performs the external transfer between deciding and recording
/// calls this first and `complete_claim` after the transfer reports.
pub fn prepare_claim(e: &EmployeeAccount, claimant: Identity, now: i64) -> (r: Result<
    i64,
    ErrorCode,
>)
    requires
        e.wf(),
    ensures
        r matches Ok(a) ==> claim_spec(*e, claimant, now as int).1 == Ok::<int, ErrorCode>(a as int),
        r matches Err(c) ==> claim_spec(*e, claimant, now as int).1 == Err::<int, ErrorCode>(c),
        r matches Ok(a) ==> 0 < a <= e.total_amount - e.total_withdrawn,
{
    proof {
        lemma_claim_step(*e, claimant, now as int);
    }
    if claimant != e.beneficiary {
        Err(ErrorCode::Unauthorized)
    } else if now < e.cliff_time {
        Err(ErrorCode::ClaimNotAvailable)
    } else {
        let vested: i64 = vested_amount(e, now);
        if vested <= e.total_withdrawn {
            Err(ErrorCode::NothingToClaim)
        } else {
            Ok(vested - e.total_withdrawn)
        }
    }
}

/// The whole claim as one atomic step against the schedule: decide, and
/// on success move the withdrawal ledger forward by exactly the amount
/// transferred. For a host whose transaction commits the transfer and
/// the ledger update all-or-nothing.
pub fn apply_claim(e: &mut EmployeeAccount, claimant: Identity, now: i64) -> (r: Result<
    i64,
    ErrorCode,
>)
    requires
        old(e).wf(),
    ensures
        final(e).wf(),
        *final(e) == claim_spec(*old(e), claimant, now as int).0,
        r matches Ok(a) ==> claim_spec(*old(e), claimant, now as int).1 == Ok::<int, ErrorCode>(a as int),
        r matches Err(c) ==> claim_spec(*old(e), claimant, now as int).1 == Err::<int, ErrorCode>(c)
            && *final(e) == *old(e),
        r matches Ok(a) ==> 0 < a && final(e).total_withdrawn == old(e).total_withdrawn + a
            && final(e).total_withdrawn <= final(e).total_amount,
        claimant != old(e).beneficiary ==> r == Err::<i64, ErrorCode>(ErrorCode::Unauthorized)
            && *final(e) == *old(e),
        claimant == old(e).beneficiary && now < old(e).cliff_time ==> r == Err::<i64, ErrorCode>(
            ErrorCode::ClaimNotAvailable,
        ) && *final(e) == *old(e),
        r matches Ok(a) && old(e).end_time <= now ==> final(e).total_withdrawn == old(
            e,
        ).total_amount,
    {
    proof {
        lemma_claim_step(*old(e), claimant, now as int);
        if old(e).end_time <= now {
            lemma_vested_complete(
                old(e).total_amount as int,
                old(e).start_time as int,
                old(e).end_time as int,
                now as int,
            );
        }
    }
    let cur: EmployeeAccount = *e;
    match prepare_claim(&cur, claimant, now) {
        Ok(a) => {
            e.total_withdrawn = e.total_withdrawn + a;
            Ok(a)
        },
        Err(c) => Err(c),
    }
}

/// The commit half of a two-phase claim: after `prepare_claim` decided
/// `amount` and the host attempted the external transfer, record the
/// withdrawal if and only if the transfer committed. On a failed
/// transfer the whole claim fails and the ledger is untouched.
pub fn complete_claim(e: &mut EmployeeAccount, amount: i64, transfer_committed: bool) -> (r: Result<
    i64,
    ErrorCode,
>)
    requires
        old(e).wf(),
        0 < amount <= old(e).total_amount - old(e).total_withdrawn,
    ensures
        final(e).wf(),
        transfer_committed ==> r == Ok::<i64, ErrorCode>(amount) && *final(e) == (EmployeeAccount {
            total_withdrawn: (old(e).total_withdrawn + amount) as i64,
            ..*old(e)
        }),
        !transfer_committed ==> r == Err::<i64, ErrorCode>(ErrorCode::TransferFailed) && *final(e)
            == *old(e),
{
    if transfer_committed {
        e.total_withdrawn = e.total_withdrawn + amount;
        Ok(amount)
    } else {
        Err(ErrorCode::TransferFailed)
    }
}

} // verus!

