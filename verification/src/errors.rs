use vstd::prelude::*;

verus! {

/// Why a vesting operation was refused. Every failure is surfaced
/// synchronously to the caller and no operation partially commits.
#[derive(Clone, Copy, PartialEq, Eq, Structural, Debug)]
pub enum ErrorCode {
    /// Claim attempted before the schedule's cliff.
    ClaimNotAvailable,
    /// Vested minus already-withdrawn is zero; nothing to release.
    NothingToClaim,
    /// Caller is not the recorded beneficiary (claim) or not the
    /// recorded owner (schedule creation).
    Unauthorized,
    /// A record already exists under the derived address or key.
    AccountAlreadyInUse,
    /// The external token transfer did not commit; the claim as a whole
    /// fails and the withdrawal ledger is left untouched.
    TransferFailed,
    /// Malformed timing or amount inputs at schedule creation.
    InvalidScheduleParameters,
}

impl ErrorCode {
    /// A human-readable message for this error.
    pub fn message(&self) -> (r: &'static str)
        ensures
            self is ClaimNotAvailable ==> r@ == "Claiming is not available yet."@,
            self is NothingToClaim ==> r@ == "There is nothing to claim."@,
    {
        match self {
            ErrorCode::ClaimNotAvailable => "Claiming is not available yet.",
            ErrorCode::NothingToClaim => "There is nothing to claim.",
            ErrorCode::Unauthorized => "The caller is not authorized for this operation.",
            ErrorCode::AccountAlreadyInUse => "A record already exists under this key.",
            ErrorCode::TransferFailed => "The token transfer did not commit.",
            ErrorCode::InvalidScheduleParameters => "The schedule parameters are malformed.",
        }
    }
}

} // verus!
