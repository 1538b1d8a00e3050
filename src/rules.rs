//! The decisions of the escrow on single records: given the records an
//! operation reads, what it fails with or what it writes back.
use vstd::prelude::*;
use crate::error::Error;
use crate::records::{Campaign, Milestone, Proof};

verus! {

/// The error `add_campaign` reports, if any.
pub open spec fn add_campaign_error(bound: bool, goal: i128, min_donation: i128) -> Option<Error> {
    if goal <= 0 {
        Some(Error::InvalidGoalAmount)
    } else if min_donation <= 0 || min_donation > goal {
        Some(Error::InvalidMinDonation)
    } else if bound {
        Some(Error::CampaignAlreadyExists)
    } else {
        None
    }
}

/// A fresh campaign: every counter at zero.
pub open spec fn new_campaign(
    id: String,
    creator: String,
    title: String,
    description: String,
    goal: i128,
    min_donation: i128,
) -> Campaign {
    Campaign {
        id,
        creator,
        title,
        description,
        goal,
        min_donation,
        total_raised: 0,
        supporters: 0,
        milestones_count: 0,
        current_milestone: 0,
        withdrawable_amount: 0,
    }
}

/// Checks a new campaign's amounts; `bound` tells whether its id is taken.
pub fn add_campaign(
    bound: bool,
    campaign_id: String,
    creator: String,
    title: String,
    description: String,
    goal: i128,
    min_donation: i128,
) -> (r: Result<Campaign, Error>)
    ensures
        match add_campaign_error(bound, goal, min_donation) {
            Some(e) => r == Err::<Campaign, Error>(e),
            None => r == Ok::<Campaign, Error>(
                new_campaign(campaign_id, creator, title, description, goal, min_donation),
            ),
        },
        r is Ok ==> r->Ok_0.wf(),
{
    if goal <= 0 {
        return Err(Error::InvalidGoalAmount);
    }
    if min_donation <= 0 || min_donation > goal {
        return Err(Error::InvalidMinDonation);
    }
    if bound {
        return Err(Error::CampaignAlreadyExists);
    }
    Ok(
        Campaign {
            id: campaign_id,
            creator,
            title,
            description,
            goal,
            min_donation,
            total_raised: 0,
            supporters: 0,
            milestones_count: 0,
            current_milestone: 0,
            withdrawable_amount: 0,
        },
    )
}

/// The error `contribute` reports, if any; `prior` is what the contributor
/// has already put into the campaign.
pub open spec fn contribute_error(c: Campaign, prior: Option<i128>, amount: i128) -> Option<Error> {
    if amount <= 0 {
        Some(Error::AmountMustBePositive)
    } else if amount < c.min_donation {
        Some(Error::ContributionBelowMinimum)
    } else if c.total_raised + amount > c.goal {
        Some(Error::CampaignGoalExceeded)
    } else if prior is None && c.supporters == u32::MAX {
        Some(Error::MathOverflow)
    } else if prior is Some && prior->Some_0 + amount > i128::MAX {
        Some(Error::MathOverflow)
    } else {
        None
    }
}

/// The campaign after a contribution of `amount`.
pub open spec fn contributed(c: Campaign, first: bool, amount: i128) -> Campaign {
    Campaign {
        total_raised: (c.total_raised + amount) as i128,
        supporters: if first { (c.supporters + 1) as u32 } else { c.supporters },
        ..c
    }
}

/// Accepts `amount` into a campaign. On success gives the updated campaign
/// and the contributor's new total.
pub fn contribute(campaign: &Campaign, prior: Option<i128>, amount: i128) -> (r: Result<
    (Campaign, i128),
    Error,
>)
    requires
        campaign.wf(),
    ensures
        match contribute_error(*campaign, prior, amount) {
            Some(e) => r == Err::<(Campaign, i128), Error>(e),
            None => r == Ok::<(Campaign, i128), Error>(
                (
                    contributed(*campaign, prior is None, amount),
                    (match prior {
                        Some(p) => p + amount,
                        None => amount as int,
                    }) as i128,
                ),
            ),
        },
        r is Ok ==> r->Ok_0.0.wf(),
{
    if amount <= 0 {
        return Err(Error::AmountMustBePositive);
    }
    if amount < campaign.min_donation {
        return Err(Error::ContributionBelowMinimum);
    }
    if amount > campaign.goal - campaign.total_raised {
        return Err(Error::CampaignGoalExceeded);
    }
    let total: i128 = match prior {
        Some(p) => {
            if p > i128::MAX - amount {
                return Err(Error::MathOverflow);
            }
            p + amount
        },
        None => {
            if campaign.supporters == u32::MAX {
                return Err(Error::MathOverflow);
            }
            amount
        },
    };
    let mut updated = campaign.duplicate();
    updated.total_raised = campaign.total_raised + amount;
    if prior.is_none() {
        updated.supporters = campaign.supporters + 1;
    }
    Ok((updated, total))
}

/// The error `create_milestone` reports, if any; `previous` is the
/// campaign's last milestone, if one could be read.
pub open spec fn create_milestone_error(
    c: Campaign,
    previous: Option<Milestone>,
    target_amount: i128,
) -> Option<Error> {
    if target_amount <= 0 || target_amount > c.goal {
        Some(Error::InvalidMilestoneAmount)
    } else if c.milestones_count == u32::MAX {
        Some(Error::MathOverflow)
    } else if c.milestones_count > 0 && previous is None {
        Some(Error::MilestoneNotFound)
    } else if c.milestones_count > 0 && target_amount <= previous->Some_0.target_amount {
        Some(Error::MilestoneAmountNotIncreasing)
    } else {
        None
    }
}

pub open spec fn read_milestone(m: Option<&Milestone>) -> Option<Milestone> {
    match m {
        Some(x) => Some(*x),
        None => None,
    }
}

/// The milestone that comes next in a campaign: not yet completed.
pub open spec fn next_milestone(c: Campaign, target_amount: i128, description: String) -> Milestone {
    Milestone {
        campaign_id: c.id,
        sequence: (c.milestones_count + 1) as u32,
        target_amount,
        description,
        completed: false,
        proof_id: None,
        completed_at: None,
    }
}

/// Appends a milestone to a campaign's plan. On success gives the campaign
/// with its new milestone count and the new milestone.
pub fn create_milestone(
    campaign: &Campaign,
    previous: Option<&Milestone>,
    target_amount: i128,
    description: String,
) -> (r: Result<(Campaign, Milestone), Error>)
    requires
        campaign.wf(),
    ensures
        match create_milestone_error(*campaign, read_milestone(previous), target_amount) {
            Some(e) => r == Err::<(Campaign, Milestone), Error>(e),
            None => r == Ok::<(Campaign, Milestone), Error>(
                (
                    (Campaign { milestones_count: (campaign.milestones_count + 1) as u32, ..*campaign }),
                    next_milestone(*campaign, target_amount, description),
                ),
            ),
        },
        r is Ok ==> r->Ok_0.0.wf(),
{
    if target_amount <= 0 || target_amount > campaign.goal {
        return Err(Error::InvalidMilestoneAmount);
    }
    if campaign.milestones_count == u32::MAX {
        return Err(Error::MathOverflow);
    }
    let sequence = campaign.milestones_count + 1;
    if sequence > 1 {
        match previous {
            None => {
                return Err(Error::MilestoneNotFound);
            },
            Some(prev) => {
                if target_amount <= prev.target_amount {
                    return Err(Error::MilestoneAmountNotIncreasing);
                }
            },
        }
    }
    let milestone = Milestone {
        campaign_id: campaign.id.clone(),
        sequence,
        target_amount,
        description,
        completed: false,
        proof_id: None,
        completed_at: None,
    };
    let mut updated = campaign.duplicate();
    updated.milestones_count = sequence;
    Ok((updated, milestone))
}

/// The error `validate_milestone_with_proof` reports, if any, once the
/// campaign, the milestone and the proof have been found.
pub open spec fn validate_error(c: Campaign, m: Milestone) -> Option<Error> {
    if m.completed {
        Some(Error::MilestoneAlreadyCompleted)
    } else if c.total_raised < m.target_amount {
        Some(Error::InsufficientFundsForMilestone)
    } else if m.sequence != c.current_milestone + 1 {
        Some(Error::MilestoneNotInSequence)
    } else {
        None
    }
}

/// The campaign once milestone `m` is validated: it is the current one, and
/// its target replaces the withdrawable amount.
pub open spec fn validated_campaign(c: Campaign, m: Milestone) -> Campaign {
    Campaign { current_milestone: m.sequence, withdrawable_amount: m.target_amount, ..c }
}

/// The milestone once validated against `proof_id` at time `now`.
pub open spec fn completed_milestone(m: Milestone, proof_id: String, now: u64) -> Milestone {
    Milestone { completed: true, proof_id: Some(proof_id), completed_at: Some(now), ..m }
}

/// Validates `milestone`: marks it completed and makes it the
/// campaign's current milestone.
pub fn validate_milestone_with_proof(
    campaign: &Campaign,
    milestone: &Milestone,
    proof_id: &String,
    now: u64,
) -> (r: Result<(Campaign, Milestone), Error>)
    requires
        campaign.wf(),
    ensures
        match validate_error(*campaign, *milestone) {
            Some(e) => r == Err::<(Campaign, Milestone), Error>(e),
            None => r == Ok::<(Campaign, Milestone), Error>(
                (
                    validated_campaign(*campaign, *milestone),
                    completed_milestone(*milestone, *proof_id, now),
                ),
            ),
        },
        r is Ok && milestone.sequence <= campaign.milestones_count && 0 <= milestone.target_amount
            ==> r->Ok_0.0.wf(),
{
    if milestone.completed {
        return Err(Error::MilestoneAlreadyCompleted);
    }
    if campaign.total_raised < milestone.target_amount {
        return Err(Error::InsufficientFundsForMilestone);
    }
    if campaign.current_milestone == u32::MAX || milestone.sequence != campaign.current_milestone
        + 1 {
        return Err(Error::MilestoneNotInSequence);
    }
    let mut updated = campaign.duplicate();
    updated.current_milestone = milestone.sequence;
    updated.withdrawable_amount = milestone.target_amount;
    let mut done = milestone.duplicate();
    done.completed = true;
    done.proof_id = Some(proof_id.clone());
    done.completed_at = Some(now);
    Ok((updated, done))
}

/// The error `withdraw_milestone_funds` reports, if any, once the campaign
/// and the milestone have been found.
pub open spec fn withdraw_milestone_error(c: Campaign, m: Milestone) -> Option<Error> {
    if !m.completed {
        Some(Error::MilestoneNotCompleted)
    } else if m.sequence > c.current_milestone {
        Some(Error::CannotWithdrawFutureMilestone)
    } else if m.target_amount <= 0 || c.withdrawable_amount < m.target_amount {
        Some(Error::NoFundsToWithdraw)
    } else {
        None
    }
}

/// Releases a completed milestone's funds: the withdrawable amount drops to
/// zero and the milestone's target is paid out.
pub fn withdraw_milestone_funds(campaign: &Campaign, milestone: &Milestone) -> (r: Result<
    (Campaign, i128),
    Error,
>)
    requires
        campaign.wf(),
    ensures
        match withdraw_milestone_error(*campaign, *milestone) {
            Some(e) => r == Err::<(Campaign, i128), Error>(e),
            None => r == Ok::<(Campaign, i128), Error>(
                ((Campaign { withdrawable_amount: 0, ..*campaign }), milestone.target_amount),
            ),
        },
        r is Ok ==> r->Ok_0.0.wf(),
{
    if !milestone.completed {
        return Err(Error::MilestoneNotCompleted);
    }
    if milestone.sequence > campaign.current_milestone {
        return Err(Error::CannotWithdrawFutureMilestone);
    }
    let withdrawable = milestone.target_amount;
    if withdrawable <= 0 || campaign.withdrawable_amount < withdrawable {
        return Err(Error::NoFundsToWithdraw);
    }
    let mut updated = campaign.duplicate();
    updated.withdrawable_amount = 0;
    Ok((updated, withdrawable))
}

/// The error `refund` reports, if any, for a stake of `amount`.
pub open spec fn refund_error(c: Campaign, amount: i128) -> Option<Error> {
    if amount > c.total_raised || c.supporters == 0 {
        Some(Error::MathUnderflow)
    } else {
        None
    }
}

/// Gives a contributor's stake of `amount` back: the campaign loses it and
/// one supporter.
pub fn refund(campaign: &Campaign, amount: i128) -> (r: Result<Campaign, Error>)
    requires
        campaign.wf(),
        0 < amount,
    ensures
        match refund_error(*campaign, amount) {
            Some(e) => r == Err::<Campaign, Error>(e),
            None => r == Ok::<Campaign, Error>(
                (Campaign {
                    total_raised: (campaign.total_raised - amount) as i128,
                    supporters: (campaign.supporters - 1) as u32,
                    ..*campaign
                }),
            ),
        },
        r is Ok ==> r->Ok_0.wf(),
{
    if amount > campaign.total_raised || campaign.supporters == 0 {
        return Err(Error::MathUnderflow);
    }
    let mut updated = campaign.duplicate();
    updated.total_raised = campaign.total_raised - amount;
    updated.supporters = campaign.supporters - 1;
    Ok(updated)
}

/// Pays out a campaign that reached its goal, all at once: gives the amount
/// raised.
pub fn withdraw(campaign: &Campaign) -> (r: Result<i128, Error>)
    ensures
        r == if campaign.total_raised < campaign.goal {
            Err::<i128, Error>(Error::CampaignGoalNotReached)
        } else {
            Ok::<i128, Error>(campaign.total_raised)
        },
{
    if campaign.total_raised < campaign.goal {
        return Err(Error::CampaignGoalNotReached);
    }
    Ok(campaign.total_raised)
}

/// A proof record; fails when its id is taken (`bound`) in the campaign.
pub fn log_proof(
    bound: bool,
    proof_id: String,
    campaign_id: String,
    uri: String,
    description: String,
    now: u64,
) -> (r: Result<Proof, Error>)
    ensures
        r == if bound {
            Err::<Proof, Error>(Error::ProofAlreadyExists)
        } else {
            Ok::<Proof, Error>(
                Proof { id: proof_id, campaign_id, uri, description, timestamp: now },
            )
        },
{
    if bound {
        return Err(Error::ProofAlreadyExists);
    }
    Ok(Proof { id: proof_id, campaign_id, uri, description, timestamp: now })
}

} // verus!
