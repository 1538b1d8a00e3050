//! Properties of the escrow that hold across its operations.
use vstd::prelude::*;
use crate::contract::CrowdfundingContract;
use crate::error::Error;

verus! {

/// In every reachable state, each campaign's current milestone is at most
/// its milestone count, and its amount raised is at most its goal. Every
/// operation of the ledger keeps `wf`, so this holds after any sequence of
/// operations from `CrowdfundingContract::new`.
pub proof fn lemma_campaign_bounds(ledger: &CrowdfundingContract, campaign_id: Seq<char>)
    requires
        ledger.wf(),
        ledger.campaigns().contains_key(campaign_id),
    ensures
        ledger.campaigns()[campaign_id].current_milestone
            <= ledger.campaigns()[campaign_id].milestones_count,
        0 <= ledger.campaigns()[campaign_id].total_raised <= ledger.campaigns()[campaign_id].goal,
{
}

/// Milestones are validated strictly in order: while milestone `k - 1` is
/// not completed, validating milestone `k > 1` fails with
/// `MilestoneNotInSequence` (given the call is authorized, everything it
/// names exists and the campaign has raised the milestone's target, which
/// are checked first).
pub proof fn lemma_validation_in_order(
    ledger: &CrowdfundingContract,
    caller: Seq<char>,
    campaign_id: Seq<char>,
    k: u32,
    proof_id: Seq<char>,
)
    requires
        ledger.wf(),
        k > 1,
        ledger.admin_error(caller) is None,
        ledger.campaigns().contains_key(campaign_id),
        ledger.milestones().contains_key((campaign_id, k)),
        ledger.proofs().contains_key((campaign_id, proof_id)),
        ledger.campaigns()[campaign_id].total_raised >= ledger.milestones()[(
            campaign_id,
            k,
        )].target_amount,
        !ledger.milestones()[(campaign_id, (k - 1) as u32)].completed,
    ensures
        ledger.validate_outcome_error(caller, campaign_id, k, proof_id) == Some(
            Error::MilestoneNotInSequence,
        ),
{
    assert(ledger.milestones().contains_key((campaign_id, k)));
    assert(ledger.milestones().contains_key((campaign_id, (k - 1) as u32)));
}

/// A contribution that would take a campaign past its goal fails with
/// `CampaignGoalExceeded` (once it is positive and at least the minimum
/// donation, which are checked first); a failed `contribute` leaves the
/// ledger as it was.
pub proof fn lemma_goal_never_exceeded(
    ledger: &CrowdfundingContract,
    contributor: Seq<char>,
    campaign_id: Seq<char>,
    amount: i128,
)
    requires
        ledger.wf(),
        ledger.campaigns().contains_key(campaign_id),
        amount >= ledger.campaigns()[campaign_id].min_donation,
        ledger.campaigns()[campaign_id].total_raised + amount > ledger.campaigns()[campaign_id].goal,
    ensures
        ledger.contribute_outcome_error(contributor, campaign_id, amount) == Some(
            Error::CampaignGoalExceeded,
        ),
{
}

/// Validating a milestone that is already completed fails with
/// `MilestoneAlreadyCompleted` (given the call is authorized and everything
/// it names exists); a failed validation leaves the ledger as it was.
pub proof fn lemma_no_revalidation(
    ledger: &CrowdfundingContract,
    caller: Seq<char>,
    campaign_id: Seq<char>,
    sequence: u32,
    proof_id: Seq<char>,
)
    requires
        ledger.wf(),
        ledger.admin_error(caller) is None,
        ledger.campaigns().contains_key(campaign_id),
        ledger.milestones().contains_key((campaign_id, sequence)),
        ledger.milestones()[(campaign_id, sequence)].completed,
        ledger.proofs().contains_key((campaign_id, proof_id)),
    ensures
        ledger.validate_outcome_error(caller, campaign_id, sequence, proof_id) == Some(
            Error::MilestoneAlreadyCompleted,
        ),
{
}

/// The escrow's accounting: a campaign's amount raised is the sum of the
/// stakes held in it, and its supporters are their number.
pub proof fn lemma_escrow_accounting(ledger: &CrowdfundingContract, campaign_id: Seq<char>)
    requires
        ledger.wf(),
        ledger.campaigns().contains_key(campaign_id),
    ensures
        ledger.campaigns()[campaign_id].total_raised == ledger.staked(campaign_id),
        ledger.campaigns()[campaign_id].supporters == ledger.stakers(campaign_id),
{
}

/// A contributor with an active stake in a campaign that has not been paid
/// out in full can always have it refunded, whatever the state of the
/// campaign's milestones.
pub proof fn lemma_refund_always_available(
    ledger: &CrowdfundingContract,
    contributor: Seq<char>,
    campaign_id: Seq<char>,
)
    requires
        ledger.wf(),
        ledger.contributions().contains_key((campaign_id, contributor)),
        ledger.campaigns().contains_key(campaign_id),
    ensures
        ledger.refund_outcome_error(contributor, campaign_id) is None,
{
    ledger.lemma_stake_covered(campaign_id, contributor);
}

} // verus!
