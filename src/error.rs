use vstd::prelude::*;

verus! {

/// Every failure the escrow can report. All of them are returned to the
/// caller; none is silent.
#[derive(Copy, Clone, Debug, PartialEq, Eq, Structural)]
pub enum Error {
    ContractInitialized,
    ContractNotInitialized,
    MathOverflow,
    MathUnderflow,
    CampaignNotFound,
    CampaignGoalExceeded,
    ContributionBelowMinimum,
    AmountMustBePositive,
    CampaignGoalNotReached,
    ContributionNotFound,
    CampaignAlreadyExists,
    ProofNotFound,
    InvalidGoalAmount,
    InvalidMinDonation,
    InvalidMilestoneAmount,
    MilestoneAmountNotIncreasing,
    MilestoneNotFound,
    MilestoneAlreadyCompleted,
    InsufficientFundsForMilestone,
    MilestoneNotInSequence,
    MilestoneNotCompleted,
    CannotWithdrawFutureMilestone,
    NoFundsToWithdraw,
    Unauthorized,
    ProofAlreadyExists,
}

} // verus!
