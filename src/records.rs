use vstd::prelude::*;

verus! {

/// A funding goal with its accumulated state and milestone plan.
#[derive(Clone, Debug)]
pub struct Campaign {
    pub id: String,
    pub creator: String,
    pub title: String,
    pub description: String,
    pub goal: i128,
    pub min_donation: i128,
    pub total_raised: i128,
    pub supporters: u32,
    /// Highest milestone sequence number created.
    pub milestones_count: u32,
    /// Highest milestone sequence number validated (0 = none).
    pub current_milestone: u32,
    /// Funds currently unlocked for withdrawal by the creator.
    pub withdrawable_amount: i128,
}

impl Campaign {
    /// The bounds every stored campaign keeps.
    pub open spec fn wf(&self) -> bool {
        &&& 0 < self.min_donation <= self.goal
        &&& 0 <= self.total_raised <= self.goal
        &&& self.current_milestone <= self.milestones_count
        &&& 0 <= self.withdrawable_amount
    }

    /// A copy of the record, equal to it.
    pub fn duplicate(&self) -> (r: Campaign)
        ensures
            r == *self,
    {
        Campaign {
            id: self.id.clone(),
            creator: self.creator.clone(),
            title: self.title.clone(),
            description: self.description.clone(),
            goal: self.goal,
            min_donation: self.min_donation,
            total_raised: self.total_raised,
            supporters: self.supporters,
            milestones_count: self.milestones_count,
            current_milestone: self.current_milestone,
            withdrawable_amount: self.withdrawable_amount,
        }
    }
}

/// An ordered funding checkpoint of a campaign.
#[derive(Clone, Debug)]
pub struct Milestone {
    pub campaign_id: String,
    /// 1, 2, 3, ... assigned by the ledger.
    pub sequence: u32,
    /// Cumulative funding needed to reach this milestone.
    pub target_amount: i128,
    pub description: String,
    pub completed: bool,
    /// The proof that validated this milestone.
    pub proof_id: Option<String>,
    /// Ledger time of the validation.
    pub completed_at: Option<u64>,
}

/// A copy of an optional string, equal to it.
pub fn copy_opt_string(s: &Option<String>) -> (r: Option<String>)
    ensures
        r == *s,
{
    match s {
        Some(x) => Some(x.clone()),
        None => None,
    }
}

impl Milestone {
    /// A copy of the record, equal to it.
    pub fn duplicate(&self) -> (r: Milestone)
        ensures
            r == *self,
    {
        Milestone {
            campaign_id: self.campaign_id.clone(),
            sequence: self.sequence,
            target_amount: self.target_amount,
            description: self.description.clone(),
            completed: self.completed,
            proof_id: copy_opt_string(&self.proof_id),
            completed_at: self.completed_at,
        }
    }
}

/// An opaque claim submitted to justify a milestone's completion.
#[derive(Clone, Debug)]
pub struct Proof {
    pub id: String,
    pub campaign_id: String,
    pub uri: String,
    pub description: String,
    /// Ledger time of the submission.
    pub timestamp: u64,
}

impl Proof {
    /// A copy of the record, equal to it.
    pub fn duplicate(&self) -> (r: Proof)
        ensures
            r == *self,
    {
        Proof {
            id: self.id.clone(),
            campaign_id: self.campaign_id.clone(),
            uri: self.uri.clone(),
            description: self.description.clone(),
            timestamp: self.timestamp,
        }
    }
}

/// What one identity has contributed in total to one campaign.
#[derive(Clone, Debug)]
pub struct Contribution {
    pub campaign_id: String,
    pub contributor: String,
    pub amount: i128,
}

} // verus!
