//! The escrow ledger: every campaign, milestone, proof and contribution
//! record, with the operations that move between its states.
use vstd::prelude::*;
use crate::error::Error;
use crate::records::{Campaign, Contribution, Milestone, Proof};
use crate::rules;
use crate::rules::{
    add_campaign_error, completed_milestone, contribute_error, contributed, create_milestone_error,
    new_campaign, next_milestone, refund_error, validate_error, validated_campaign,
    withdraw_milestone_error,
};
use crate::stakes::{
    lemma_stake_within_total, lemma_stakes_absent, lemma_stakes_push, lemma_stakes_remove,
    lemma_stakes_update, stake_count, stake_in, stake_total, staker_in,
};
use crate::table::{has_key, keys_unique, lemma_view_absent, lemma_view_at, lemma_view_push, lemma_view_remove, lemma_view_update, table_view};

verus! {

/// The identities fixed once at initialization.
#[derive(Clone, Debug)]
pub struct Config {
    /// The platform operator: logs proofs and validates milestones.
    pub admin: String,
    /// The asset that contributions are paid in.
    pub token: String,
    /// The ledger that issues completion credentials, if any.
    pub credential_issuer: Option<String>,
}

/// What the credential issuer is handed once a milestone is validated: the
/// ids of the campaign and the proof, the proof's metadata, and the campaign's
/// creator as recipient.
#[derive(Clone, Debug)]
pub struct Issuance {
    pub campaign_id: String,
    pub proof_id: String,
    pub uri: String,
    pub description: String,
    pub recipient: String,
}

pub open spec fn campaign_key() -> spec_fn(Campaign) -> Seq<char> {
    |c: Campaign| c.id@
}

pub open spec fn milestone_key() -> spec_fn(Milestone) -> (Seq<char>, u32) {
    |m: Milestone| (m.campaign_id@, m.sequence)
}

pub open spec fn proof_key() -> spec_fn(Proof) -> (Seq<char>, Seq<char>) {
    |p: Proof| (p.campaign_id@, p.id@)
}

pub open spec fn contribution_key() -> spec_fn(Contribution) -> (Seq<char>, Seq<char>) {
    |c: Contribution| (c.campaign_id@, c.contributor@)
}

/// The escrow's records. Campaigns are keyed by id, milestones by campaign
/// and sequence, proofs by campaign and proof id, contributions by campaign
/// and contributor.
pub struct CrowdfundingContract {
    config: Option<Config>,
    campaigns: Vec<Campaign>,
    /// Ids of campaigns paid out in full; they cannot be used again.
    closed: Vec<String>,
    milestones: Vec<Milestone>,
    proofs: Vec<Proof>,
    contributions: Vec<Contribution>,
}

impl CrowdfundingContract {
    pub closed spec fn config(&self) -> Option<Config> {
        self.config
    }

    pub closed spec fn campaigns(&self) -> Map<Seq<char>, Campaign> {
        table_view(self.campaigns@, campaign_key())
    }

    pub closed spec fn milestones(&self) -> Map<(Seq<char>, u32), Milestone> {
        table_view(self.milestones@, milestone_key())
    }

    pub closed spec fn proofs(&self) -> Map<(Seq<char>, Seq<char>), Proof> {
        table_view(self.proofs@, proof_key())
    }

    pub closed spec fn contributions(&self) -> Map<(Seq<char>, Seq<char>), Contribution> {
        table_view(self.contributions@, contribution_key())
    }

    /// Ids of campaigns that were paid out in full and removed.
    pub closed spec fn closed(&self) -> Set<Seq<char>> {
        Set::new(|id: Seq<char>| exists|i: int| 0 <= i < self.closed.len() && self.closed@[i]@ == id)
    }

    /// Each table holds one record per key, and every stake is positive.
    pub closed spec fn tables_wf(&self) -> bool {
        &&& keys_unique(self.campaigns@, campaign_key())
        &&& keys_unique(self.milestones@, milestone_key())
        &&& keys_unique(self.proofs@, proof_key())
        &&& keys_unique(self.contributions@, contribution_key())
        &&& forall|j: int| 0 <= j < self.contributions@.len() ==> 0 < #[trigger] self.contributions@[j].amount
    }

    /// The sum of the stakes held in campaign `campaign_id`.
    pub closed spec fn staked(&self, campaign_id: Seq<char>) -> int {
        stake_total(self.contributions@, campaign_id)
    }

    /// How many contributors hold a stake in campaign `campaign_id`.
    pub closed spec fn stakers(&self, campaign_id: Seq<char>) -> int {
        stake_count(self.contributions@, campaign_id)
    }

    /// Whether `id` is taken, by a live campaign or a closed one.
    pub open spec fn id_bound(&self, id: Seq<char>) -> bool {
        self.campaigns().contains_key(id) || self.closed().contains(id)
    }

    /// The invariant of the ledger. Every campaign keeps its bounds, in
    /// particular `current_milestone <= milestones_count`; its amount raised
    /// is the sum of the stakes held in it and its supporters their number;
    /// the milestones of
    /// a live campaign are numbered from 1 to its count with no gap, and
    /// exactly those up to its current milestone are completed.
    pub open spec fn wf(&self) -> bool {
        &&& self.tables_wf()
        &&& forall|id: Seq<char>| #[trigger]
            self.campaigns().contains_key(id) ==> {
                &&& self.campaigns()[id].wf()
                &&& self.campaigns()[id].id@ == id
                &&& self.campaigns()[id].total_raised == self.staked(id)
                &&& self.campaigns()[id].supporters == self.stakers(id)
                &&& forall|j: u32|
                    1 <= j <= self.campaigns()[id].milestones_count
                        ==> #[trigger] self.milestones().contains_key((id, j))
            }
        &&& forall|k: (Seq<char>, u32)| #[trigger]
            self.milestones().contains_key(k) ==> {
                let m = self.milestones()[k];
                &&& m.campaign_id@ == k.0
                &&& m.sequence == k.1
                &&& 0 < m.target_amount
                &&& self.id_bound(k.0)
                &&& self.campaigns().contains_key(k.0) ==> {
                    let c = self.campaigns()[k.0];
                    &&& 1 <= k.1 <= c.milestones_count
                    &&& (m.completed <==> k.1 <= c.current_milestone)
                }
            }
        &&& forall|k: (Seq<char>, Seq<char>)| #[trigger]
            self.proofs().contains_key(k) ==> {
                &&& self.proofs()[k].campaign_id@ == k.0
                &&& self.proofs()[k].id@ == k.1
            }
        &&& forall|k: (Seq<char>, Seq<char>)| #[trigger]
            self.contributions().contains_key(k) ==> {
                &&& self.contributions()[k].campaign_id@ == k.0
                &&& self.contributions()[k].contributor@ == k.1
                &&& 0 < self.contributions()[k].amount
                &&& self.id_bound(k.0)
            }
    }

    /// An empty, uninitialized ledger.
    pub fn new() -> (r: CrowdfundingContract)
        ensures
            r.wf(),
            r.config() is None,
            r.campaigns().is_empty(),
            r.milestones().is_empty(),
            r.proofs().is_empty(),
            r.contributions().is_empty(),
            r.closed().is_empty(),
    {
        let r = CrowdfundingContract {
            config: None,
            campaigns: Vec::new(),
            closed: Vec::new(),
            milestones: Vec::new(),
            proofs: Vec::new(),
            contributions: Vec::new(),
        };
        assert(r.campaigns() =~= Map::empty());
        assert(r.milestones() =~= Map::empty());
        assert(r.proofs() =~= Map::empty());
        assert(r.contributions() =~= Map::empty());
        assert(r.closed() =~= Set::empty());
        r
    }

    fn find_campaign(&self, id: &String) -> (r: Option<usize>)
        requires
            self.wf(),
        ensures
            match r {
                Some(i) => i < self.campaigns@.len() && self.campaigns@[i as int] == self.campaigns()[id@]
                    && self.campaigns().contains_key(id@),
                None => !self.campaigns().contains_key(id@),
            },
    {
        let mut i: usize = 0;
        while i < self.campaigns.len()
            invariant
                self.wf(),
                i <= self.campaigns@.len(),
                forall|j: int| 0 <= j < i ==> self.campaigns@[j].id@ != id@,
            decreases self.campaigns@.len() - i,
        {
            if self.campaigns[i].id == *id {
                proof {
                    lemma_view_at(self.campaigns@, campaign_key(), i as int);
                }
                return Some(i);
            }
            i = i + 1;
        }
        proof {
            lemma_view_absent(self.campaigns@, campaign_key(), id@);
        }
        None
    }

    fn is_closed(&self, id: &String) -> (r: bool)
        ensures
            r == self.closed().contains(id@),
    {
        let mut i: usize = 0;
        while i < self.closed.len()
            invariant
                i <= self.closed@.len(),
                forall|j: int| 0 <= j < i ==> self.closed@[j]@ != id@,
            decreases self.closed@.len() - i,
        {
            if self.closed[i] == *id {
                return true;
            }
            i = i + 1;
        }
        false
    }

    /// The campaign with id `campaign_id`.
    pub fn get_campaign(&self, campaign_id: &String) -> (r: Result<Campaign, Error>)
        requires
            self.wf(),
        ensures
            r == if self.campaigns().contains_key(campaign_id@) {
                Ok::<Campaign, Error>(self.campaigns()[campaign_id@])
            } else {
                Err::<Campaign, Error>(Error::CampaignNotFound)
            },
    {
        match self.find_campaign(campaign_id) {
            Some(i) => Ok(self.campaigns[i].duplicate()),
            None => Err(Error::CampaignNotFound),
        }
    }

    /// Opens a campaign for `creator`, whose authorization the caller has
    /// established. Fails on a non-positive goal, on a minimum donation that
    /// is not positive or above the goal, and on an id already used.
    pub fn add_campaign(
        &mut self,
        campaign_id: String,
        creator: String,
        title: String,
        description: String,
        goal: i128,
        min_donation: i128,
    ) -> (r: Result<(), Error>)
        requires
            old(self).wf(),
        ensures
            final(self).wf(),
            match add_campaign_error(old(self).id_bound(campaign_id@), goal, min_donation) {
                Some(e) => r == Err::<(), Error>(e) && *final(self) == *old(self),
                None => {
                    &&& r == Ok::<(), Error>(())
                    &&& final(self).campaigns() == old(self).campaigns().insert(
                        campaign_id@,
                        new_campaign(campaign_id, creator, title, description, goal, min_donation),
                    )
                    &&& final(self).config() == old(self).config()
                    &&& final(self).milestones() == old(self).milestones()
                    &&& final(self).proofs() == old(self).proofs()
                    &&& final(self).contributions() == old(self).contributions()
                    &&& final(self).closed() == old(self).closed()
                },
            },
    {
        let bound = self.find_campaign(&campaign_id).is_some() || self.is_closed(&campaign_id);
        let campaign = rules::add_campaign(
            bound,
            campaign_id,
            creator,
            title,
            description,
            goal,
            min_donation,
        );
        match campaign {
            Err(e) => Err(e),
            Ok(c) => {
                proof {
                    lemma_view_push(self.campaigns@, campaign_key(), c);
                }
                self.campaigns.push(c);
                proof {
                    assert(self.closed() == old(self).closed());
                    assert forall|k: (Seq<char>, u32)| #[trigger]
                        self.milestones().contains_key(k) implies k.0 != campaign_id@ by {
                        assert(old(self).milestones().contains_key(k));
                    }
                    assert forall|j: int| 0 <= j < self.contributions@.len() implies
                        #[trigger] self.contributions@[j].campaign_id@ != campaign_id@ by {
                        lemma_view_at(self.contributions@, contribution_key(), j);
                        let k = contribution_key()(self.contributions@[j]);
                        assert(old(self).contributions().contains_key(k));
                        assert(old(self).id_bound(k.0));
                    }
                    lemma_stakes_absent(self.contributions@, campaign_id@);
                    assert(self.milestones() == old(self).milestones());
                    assert(self.proofs() == old(self).proofs());
                    assert(self.contributions() == old(self).contributions());
                }
                Ok(())
            },
        }
    }

    fn find_milestone(&self, campaign_id: &String, sequence: u32) -> (r: Option<usize>)
        requires
            self.wf(),
        ensures
            match r {
                Some(i) => i < self.milestones@.len() && self.milestones@[i as int]
                    == self.milestones()[(campaign_id@, sequence)] && self.milestones().contains_key(
                    (campaign_id@, sequence),
                ),
                None => !self.milestones().contains_key((campaign_id@, sequence)),
            },
    {
        let mut i: usize = 0;
        while i < self.milestones.len()
            invariant
                self.wf(),
                i <= self.milestones@.len(),
                forall|j: int|
                    0 <= j < i ==> milestone_key()(self.milestones@[j]) != (campaign_id@, sequence),
            decreases self.milestones@.len() - i,
        {
            if self.milestones[i].sequence == sequence && self.milestones[i].campaign_id == *campaign_id {
                proof {
                    lemma_view_at(self.milestones@, milestone_key(), i as int);
                }
                return Some(i);
            }
            i = i + 1;
        }
        proof {
            lemma_view_absent(self.milestones@, milestone_key(), (campaign_id@, sequence));
        }
        None
    }

    fn find_proof(&self, campaign_id: &String, proof_id: &String) -> (r: Option<usize>)
        requires
            self.wf(),
        ensures
            match r {
                Some(i) => i < self.proofs@.len() && self.proofs@[i as int] == self.proofs()[(
                    campaign_id@,
                    proof_id@,
                )] && self.proofs().contains_key((campaign_id@, proof_id@)),
                None => !self.proofs().contains_key((campaign_id@, proof_id@)),
            },
    {
        let mut i: usize = 0;
        while i < self.proofs.len()
            invariant
                self.wf(),
                i <= self.proofs@.len(),
                forall|j: int|
                    0 <= j < i ==> proof_key()(self.proofs@[j]) != (campaign_id@, proof_id@),
            decreases self.proofs@.len() - i,
        {
            if self.proofs[i].id == *proof_id && self.proofs[i].campaign_id == *campaign_id {
                proof {
                    lemma_view_at(self.proofs@, proof_key(), i as int);
                }
                return Some(i);
            }
            i = i + 1;
        }
        proof {
            lemma_view_absent(self.proofs@, proof_key(), (campaign_id@, proof_id@));
        }
        None
    }

    fn find_contribution(&self, campaign_id: &String, contributor: &String) -> (r: Option<usize>)
        requires
            self.wf(),
        ensures
            match r {
                Some(i) => i < self.contributions@.len() && self.contributions@[i as int]
                    == self.contributions()[(campaign_id@, contributor@)]
                    && self.contributions().contains_key((campaign_id@, contributor@)),
                None => !self.contributions().contains_key((campaign_id@, contributor@)),
            },
    {
        let mut i: usize = 0;
        while i < self.contributions.len()
            invariant
                self.wf(),
                i <= self.contributions@.len(),
                forall|j: int|
                    0 <= j < i ==> contribution_key()(self.contributions@[j]) != (
                        campaign_id@,
                        contributor@,
                    ),
            decreases self.contributions@.len() - i,
        {
            if self.contributions[i].contributor == *contributor && self.contributions[i].campaign_id
                == *campaign_id {
                proof {
                    lemma_view_at(self.contributions@, contribution_key(), i as int);
                }
                return Some(i);
            }
            i = i + 1;
        }
        proof {
            lemma_view_absent(self.contributions@, contribution_key(), (campaign_id@, contributor@));
        }
        None
    }

    /// Fixes the administrator, the asset and the credential issuer; only
    /// once.
    pub fn initialize(
        &mut self,
        admin: String,
        token: String,
        credential_issuer: Option<String>,
    ) -> (r: Result<(), Error>)
        requires
            old(self).wf(),
        ensures
            final(self).wf(),
            if old(self).config() is Some {
                r == Err::<(), Error>(Error::ContractInitialized) && *final(self) == *old(self)
            } else {
                &&& r == Ok::<(), Error>(())
                &&& final(self).config() == Some(Config { admin, token, credential_issuer })
                &&& final(self).campaigns() == old(self).campaigns()
                &&& final(self).milestones() == old(self).milestones()
                &&& final(self).proofs() == old(self).proofs()
                &&& final(self).contributions() == old(self).contributions()
                &&& final(self).closed() == old(self).closed()
            },
    {
        if self.config.is_some() {
            return Err(Error::ContractInitialized);
        }
        self.config = Some(Config { admin, token, credential_issuer });
        proof {
            assert(self.closed() == old(self).closed());
            assert(self.campaigns() == old(self).campaigns());
            assert(self.milestones() == old(self).milestones());
            assert(self.proofs() == old(self).proofs());
            assert(self.contributions() == old(self).contributions());
        }
        Ok(())
    }

    pub fn has_admin(&self) -> (r: bool)
        ensures
            r == self.config() is Some,
    {
        self.config.is_some()
    }

    /// The platform administrator.
    pub fn get_admin(&self) -> (r: Result<String, Error>)
        ensures
            r == match self.config() {
                Some(c) => Ok::<String, Error>(c.admin),
                None => Err::<String, Error>(Error::ContractNotInitialized),
            },
    {
        match &self.config {
            Some(c) => Ok(c.admin.clone()),
            None => Err(Error::ContractNotInitialized),
        }
    }

    /// The asset that contributions are paid in.
    pub fn get_token(&self) -> (r: Result<String, Error>)
        ensures
            r == match self.config() {
                Some(c) => Ok::<String, Error>(c.token),
                None => Err::<String, Error>(Error::ContractNotInitialized),
            },
    {
        match &self.config {
            Some(c) => Ok(c.token.clone()),
            None => Err(Error::ContractNotInitialized),
        }
    }

    /// The ledger that issues completion credentials, if one was named.
    pub fn get_credential_issuer(&self) -> (r: Result<Option<String>, Error>)
        ensures
            r == match self.config() {
                Some(c) => Ok::<Option<String>, Error>(c.credential_issuer),
                None => Err::<Option<String>, Error>(Error::ContractNotInitialized),
            },
    {
        match &self.config {
            Some(c) => Ok(crate::records::copy_opt_string(&c.credential_issuer)),
            None => Err(Error::ContractNotInitialized),
        }
    }

    /// The error of an operation reserved to the administrator, for `caller`.
    pub open spec fn admin_error(&self, caller: Seq<char>) -> Option<Error> {
        match self.config() {
            None => Some(Error::ContractNotInitialized),
            Some(c) => if c.admin@ != caller {
                Some(Error::Unauthorized)
            } else {
                None
            },
        }
    }

    fn check_admin(&self, caller: &String) -> (r: Result<(), Error>)
        ensures
            r == match self.admin_error(caller@) {
                Some(e) => Err::<(), Error>(e),
                None => Ok::<(), Error>(()),
            },
    {
        match &self.config {
            None => Err(Error::ContractNotInitialized),
            Some(c) => if c.admin != *caller {
                Err(Error::Unauthorized)
            } else {
                Ok(())
            },
        }
    }

    /// What `contributor` has put into the campaign so far, if anything.
    pub open spec fn prior_stake(&self, campaign_id: Seq<char>, contributor: Seq<char>) -> Option<i128> {
        if self.contributions().contains_key((campaign_id, contributor)) {
            Some(self.contributions()[(campaign_id, contributor)].amount)
        } else {
            None
        }
    }

    /// The error `contribute` reports, if any.
    pub open spec fn contribute_outcome_error(
        &self,
        contributor: Seq<char>,
        campaign_id: Seq<char>,
        amount: i128,
    ) -> Option<Error> {
        if !self.campaigns().contains_key(campaign_id) {
            Some(Error::CampaignNotFound)
        } else {
            contribute_error(
                self.campaigns()[campaign_id],
                self.prior_stake(campaign_id, contributor),
                amount,
            )
        }
    }

    /// Puts `amount` from `contributor`, whose authorization the caller has
    /// established, into a campaign. The caller moves the funds into escrow.
    pub fn contribute(&mut self, contributor: String, campaign_id: String, amount: i128) -> (r: Result<
        (),
        Error,
    >)
        requires
            old(self).wf(),
        ensures
            final(self).wf(),
            match old(self).contribute_outcome_error(contributor@, campaign_id@, amount) {
                Some(e) => r == Err::<(), Error>(e) && *final(self) == *old(self),
                None => {
                    let prior = old(self).prior_stake(campaign_id@, contributor@);
                    &&& r == Ok::<(), Error>(())
                    &&& final(self).campaigns() == old(self).campaigns().insert(
                        campaign_id@,
                        contributed(old(self).campaigns()[campaign_id@], prior is None, amount),
                    )
                    &&& final(self).contributions() == old(self).contributions().insert(
                        (campaign_id@, contributor@),
                        Contribution {
                            campaign_id,
                            contributor,
                            amount: (match prior {
                                Some(p) => p + amount,
                                None => amount as int,
                            }) as i128,
                        },
                    )
                    &&& final(self).config() == old(self).config()
                    &&& final(self).milestones() == old(self).milestones()
                    &&& final(self).proofs() == old(self).proofs()
                    &&& final(self).closed() == old(self).closed()
                },
            },
    {
        let ci = match self.find_campaign(&campaign_id) {
            Some(i) => i,
            None => {
                return Err(Error::CampaignNotFound);
            },
        };
        let found = self.find_contribution(&campaign_id, &contributor);
        let prior = match found {
            Some(j) => Some(self.contributions[j].amount),
            None => None,
        };
        let (updated, stake) = match rules::contribute(&self.campaigns[ci], prior, amount) {
            Err(e) => {
                return Err(e);
            },
            Ok(x) => x,
        };
        let record = Contribution { campaign_id, contributor, amount: stake };
        let ghost before = self.contributions@;
        proof {
            lemma_view_update(self.campaigns@, campaign_key(), ci as int, updated);
        }
        self.campaigns.set(ci, updated);
        match found {
            Some(j) => {
                proof {
                    lemma_view_update(self.contributions@, contribution_key(), j as int, record);
                }
                self.contributions.set(j, record);
            },
            None => {
                proof {
                    lemma_view_push(self.contributions@, contribution_key(), record);
                }
                self.contributions.push(record);
            },
        }
        proof {
            assert(self.closed() == old(self).closed());
            assert(self.milestones() == old(self).milestones());
            assert(self.proofs() == old(self).proofs());
            assert forall|id: Seq<char>|
                #![trigger self.staked(id)]
                #![trigger self.stakers(id)]
                self.staked(id) == old(self).staked(id) + stake_in(record, id)
                    - (if found is Some { stake_in(before[found->Some_0 as int], id) } else { 0 })
                && self.stakers(id) == old(self).stakers(id) + (if found is Some { 0 } else { staker_in(record, id) }) by {
                match found {
                    Some(j) => {
                        lemma_view_at(before, contribution_key(), j as int);
                        lemma_stakes_update(before, j as int, record, id);
                    },
                    None => {
                        lemma_stakes_push(before, record, id);
                    },
                }
            }
            assert forall|j: int| 0 <= j < self.contributions@.len() implies 0 < #[trigger] self.contributions@[j].amount by {
                match found {
                    Some(f) => {
                        if j != f as int {
                            assert(self.contributions@[j] == before[j]);
                        }
                    },
                    None => {
                        if j < before.len() {
                            assert(self.contributions@[j] == before[j]);
                        }
                    },
                }
            }
        }
        Ok(())
    }

    /// The milestone read before appending one to a campaign: its last one.
    pub open spec fn last_milestone(&self, campaign_id: Seq<char>) -> Option<Milestone> {
        let n = self.campaigns()[campaign_id].milestones_count;
        if n > 0 && self.milestones().contains_key((campaign_id, n)) {
            Some(self.milestones()[(campaign_id, n)])
        } else {
            None
        }
    }

    /// The error `add_milestone` reports, if any.
    pub open spec fn add_milestone_error(
        &self,
        caller: Seq<char>,
        campaign_id: Seq<char>,
        target_amount: i128,
    ) -> Option<Error> {
        if !self.campaigns().contains_key(campaign_id) {
            Some(Error::CampaignNotFound)
        } else if self.campaigns()[campaign_id].creator@ != caller {
            Some(Error::Unauthorized)
        } else {
            create_milestone_error(
                self.campaigns()[campaign_id],
                self.last_milestone(campaign_id),
                target_amount,
            )
        }
    }

    /// Appends a milestone to the plan of a campaign; `caller` must be its
    /// creator. The target must be positive, at most the goal, and above the
    /// previous milestone's. Gives the new milestone's sequence number.
    pub fn add_milestone(
        &mut self,
        caller: &String,
        campaign_id: String,
        target_amount: i128,
        description: String,
    ) -> (r: Result<u32, Error>)
        requires
            old(self).wf(),
        ensures
            final(self).wf(),
            match old(self).add_milestone_error(caller@, campaign_id@, target_amount) {
                Some(e) => r == Err::<u32, Error>(e) && *final(self) == *old(self),
                None => {
                    let c = old(self).campaigns()[campaign_id@];
                    let seq = (c.milestones_count + 1) as u32;
                    &&& r == Ok::<u32, Error>(seq)
                    &&& final(self).campaigns() == old(self).campaigns().insert(
                        campaign_id@,
                        (Campaign { milestones_count: seq, ..c }),
                    )
                    &&& final(self).milestones() == old(self).milestones().insert(
                        (campaign_id@, seq),
                        next_milestone(c, target_amount, description),
                    )
                    &&& final(self).config() == old(self).config()
                    &&& final(self).proofs() == old(self).proofs()
                    &&& final(self).contributions() == old(self).contributions()
                    &&& final(self).closed() == old(self).closed()
                },
            },
    {
        let ci = match self.find_campaign(&campaign_id) {
            Some(i) => i,
            None => {
                return Err(Error::CampaignNotFound);
            },
        };
        if self.campaigns[ci].creator != *caller {
            return Err(Error::Unauthorized);
        }
        let count = self.campaigns[ci].milestones_count;
        let previous = if count > 0 {
            match self.find_milestone(&campaign_id, count) {
                Some(j) => Some(&self.milestones[j]),
                None => None,
            }
        } else {
            None
        };
        let (updated, milestone) = match rules::create_milestone(
            &self.campaigns[ci],
            previous,
            target_amount,
            description,
        ) {
            Err(e) => {
                return Err(e);
            },
            Ok(x) => x,
        };
        let seq = updated.milestones_count;
        proof {
            assert(!old(self).milestones().contains_key((campaign_id@, seq)));
            lemma_view_update(self.campaigns@, campaign_key(), ci as int, updated);
            lemma_view_push(self.milestones@, milestone_key(), milestone);
        }
        self.campaigns.set(ci, updated);
        self.milestones.push(milestone);
        proof {
            assert(self.closed() == old(self).closed());
            assert(self.proofs() == old(self).proofs());
            assert(self.contributions() == old(self).contributions());
            assert forall|k: (Seq<char>, u32)| #[trigger]
                self.milestones().contains_key(k) implies {
                    let m = self.milestones()[k];
                    &&& m.campaign_id@ == k.0
                    &&& m.sequence == k.1
                    &&& 0 < m.target_amount
                    &&& self.id_bound(k.0)
                    &&& self.campaigns().contains_key(k.0) ==> {
                        let c = self.campaigns()[k.0];
                        &&& 1 <= k.1 <= c.milestones_count
                        &&& (m.completed <==> k.1 <= c.current_milestone)
                    }
                } by {
                if k != (campaign_id@, seq) {
                    assert(old(self).milestones().contains_key(k));
                }
            }
        }
        Ok(seq)
    }

    /// Milestone `sequence` of a campaign.
    pub fn get_milestone(&self, campaign_id: &String, sequence: u32) -> (r: Result<Milestone, Error>)
        requires
            self.wf(),
        ensures
            r == if self.milestones().contains_key((campaign_id@, sequence)) {
                Ok::<Milestone, Error>(self.milestones()[(campaign_id@, sequence)])
            } else {
                Err::<Milestone, Error>(Error::MilestoneNotFound)
            },
    {
        match self.find_milestone(campaign_id, sequence) {
            Some(i) => Ok(self.milestones[i].duplicate()),
            None => Err(Error::MilestoneNotFound),
        }
    }

    /// The milestones numbered 1 to `n` of a campaign that can be read, in
    /// order; a number that cannot be read is skipped.
    pub open spec fn listed_milestones(&self, campaign_id: Seq<char>, n: nat) -> Seq<Milestone>
        decreases n,
    {
        if n == 0 {
            Seq::empty()
        } else {
            let rest = self.listed_milestones(campaign_id, (n - 1) as nat);
            if self.milestones().contains_key((campaign_id, n as u32)) {
                rest.push(self.milestones()[(campaign_id, n as u32)])
            } else {
                rest
            }
        }
    }

    /// All milestones of a campaign, from 1 to its count, skipping any that
    /// cannot be read.
    pub fn get_campaign_milestones(&self, campaign_id: &String) -> (r: Result<Vec<Milestone>, Error>)
        requires
            self.wf(),
        ensures
            match r {
                Ok(v) => self.campaigns().contains_key(campaign_id@) && v@ == self.listed_milestones(
                    campaign_id@,
                    self.campaigns()[campaign_id@].milestones_count as nat,
                ),
                Err(e) => !self.campaigns().contains_key(campaign_id@) && e == Error::CampaignNotFound,
            },
    {
        let ci = match self.find_campaign(campaign_id) {
            Some(i) => i,
            None => {
                return Err(Error::CampaignNotFound);
            },
        };
        let count = self.campaigns[ci].milestones_count;
        let mut listed: Vec<Milestone> = Vec::new();
        let mut seq: u32 = 0;
        while seq < count
            invariant
                self.wf(),
                seq <= count,
                listed@ == self.listed_milestones(campaign_id@, seq as nat),
            decreases count - seq,
        {
            seq = seq + 1;
            match self.find_milestone(campaign_id, seq) {
                Some(j) => {
                    listed.push(self.milestones[j].duplicate());
                },
                None => {},
            }
        }
        Ok(listed)
    }

    /// Logs a proof for a campaign at ledger time `now`; `caller` must be
    /// the administrator. A proof id is used once per campaign.
    pub fn add_proof(
        &mut self,
        caller: &String,
        proof_id: String,
        campaign_id: String,
        uri: String,
        description: String,
        now: u64,
    ) -> (r: Result<(), Error>)
        requires
            old(self).wf(),
        ensures
            final(self).wf(),
            match old(self).admin_error(caller@) {
                Some(e) => r == Err::<(), Error>(e) && *final(self) == *old(self),
                None => if old(self).proofs().contains_key((campaign_id@, proof_id@)) {
                    r == Err::<(), Error>(Error::ProofAlreadyExists) && *final(self) == *old(self)
                } else {
                    &&& r == Ok::<(), Error>(())
                    &&& final(self).proofs() == old(self).proofs().insert(
                        (campaign_id@, proof_id@),
                        Proof { id: proof_id, campaign_id, uri, description, timestamp: now },
                    )
                    &&& final(self).config() == old(self).config()
                    &&& final(self).campaigns() == old(self).campaigns()
                    &&& final(self).milestones() == old(self).milestones()
                    &&& final(self).contributions() == old(self).contributions()
                    &&& final(self).closed() == old(self).closed()
                },
            },
    {
        match self.check_admin(caller) {
            Err(e) => {
                return Err(e);
            },
            Ok(()) => {},
        }
        let bound = self.find_proof(&campaign_id, &proof_id).is_some();
        let proof = match rules::log_proof(bound, proof_id, campaign_id, uri, description, now) {
            Err(e) => {
                return Err(e);
            },
            Ok(p) => p,
        };
        proof {
            lemma_view_push(self.proofs@, proof_key(), proof);
        }
        self.proofs.push(proof);
        proof {
            assert(self.closed() == old(self).closed());
            assert(self.campaigns() == old(self).campaigns());
            assert(self.milestones() == old(self).milestones());
            assert(self.contributions() == old(self).contributions());
        }
        Ok(())
    }

    /// Proof `proof_id` of a campaign.
    pub fn get_proof(&self, campaign_id: &String, proof_id: &String) -> (r: Result<Proof, Error>)
        requires
            self.wf(),
        ensures
            r == if self.proofs().contains_key((campaign_id@, proof_id@)) {
                Ok::<Proof, Error>(self.proofs()[(campaign_id@, proof_id@)])
            } else {
                Err::<Proof, Error>(Error::ProofNotFound)
            },
    {
        match self.find_proof(campaign_id, proof_id) {
            Some(i) => Ok(self.proofs[i].duplicate()),
            None => Err(Error::ProofNotFound),
        }
    }

    /// The error `validate_milestone_with_proof` reports, if any.
    pub open spec fn validate_outcome_error(
        &self,
        caller: Seq<char>,
        campaign_id: Seq<char>,
        sequence: u32,
        proof_id: Seq<char>,
    ) -> Option<Error> {
        if self.admin_error(caller) is Some {
            self.admin_error(caller)
        } else if !self.campaigns().contains_key(campaign_id) {
            Some(Error::CampaignNotFound)
        } else if !self.milestones().contains_key((campaign_id, sequence)) {
            Some(Error::MilestoneNotFound)
        } else if !self.proofs().contains_key((campaign_id, proof_id)) {
            Some(Error::ProofNotFound)
        } else {
            validate_error(self.campaigns()[campaign_id], self.milestones()[(campaign_id, sequence)])
        }
    }

    /// Validates milestone `sequence` of a campaign against a logged proof,
    /// at ledger time `now`; `caller` must be the administrator. Milestones
    /// are validated one after the other, each once, and only when the
    /// campaign has raised its target. The milestone is marked completed, it
    /// becomes the campaign's current one, and its target replaces the
    /// withdrawable amount. Gives what the credential issuer is to be handed.
    pub fn validate_milestone_with_proof(
        &mut self,
        caller: &String,
        campaign_id: &String,
        sequence: u32,
        proof_id: &String,
        now: u64,
    ) -> (r: Result<Issuance, Error>)
        requires
            old(self).wf(),
        ensures
            final(self).wf(),
            match old(self).validate_outcome_error(caller@, campaign_id@, sequence, proof_id@) {
                Some(e) => r == Err::<Issuance, Error>(e) && *final(self) == *old(self),
                None => {
                    let c = old(self).campaigns()[campaign_id@];
                    let m = old(self).milestones()[(campaign_id@, sequence)];
                    let p = old(self).proofs()[(campaign_id@, proof_id@)];
                    &&& r == Ok::<Issuance, Error>(
                        Issuance {
                            campaign_id: *campaign_id,
                            proof_id: *proof_id,
                            uri: p.uri,
                            description: p.description,
                            recipient: c.creator,
                        },
                    )
                    &&& final(self).campaigns() == old(self).campaigns().insert(
                        campaign_id@,
                        validated_campaign(c, m),
                    )
                    &&& final(self).milestones() == old(self).milestones().insert(
                        (campaign_id@, sequence),
                        completed_milestone(m, *proof_id, now),
                    )
                    &&& final(self).config() == old(self).config()
                    &&& final(self).proofs() == old(self).proofs()
                    &&& final(self).contributions() == old(self).contributions()
                    &&& final(self).closed() == old(self).closed()
                },
            },
    {
        match self.check_admin(caller) {
            Err(e) => {
                return Err(e);
            },
            Ok(()) => {},
        }
        let ci = match self.find_campaign(campaign_id) {
            Some(i) => i,
            None => {
                return Err(Error::CampaignNotFound);
            },
        };
        let mi = match self.find_milestone(campaign_id, sequence) {
            Some(i) => i,
            None => {
                return Err(Error::MilestoneNotFound);
            },
        };
        let pi = match self.find_proof(campaign_id, proof_id) {
            Some(i) => i,
            None => {
                return Err(Error::ProofNotFound);
            },
        };
        let (updated, done) = match rules::validate_milestone_with_proof(
            &self.campaigns[ci],
            &self.milestones[mi],
            proof_id,
            now,
        ) {
            Err(e) => {
                return Err(e);
            },
            Ok(x) => x,
        };
        let issuance = Issuance {
            campaign_id: campaign_id.clone(),
            proof_id: proof_id.clone(),
            uri: self.proofs[pi].uri.clone(),
            description: self.proofs[pi].description.clone(),
            recipient: self.campaigns[ci].creator.clone(),
        };
        proof {
            lemma_view_update(self.milestones@, milestone_key(), mi as int, done);
            lemma_view_update(self.campaigns@, campaign_key(), ci as int, updated);
        }
        self.milestones.set(mi, done);
        self.campaigns.set(ci, updated);
        proof {
            assert(self.closed() == old(self).closed());
            assert(self.proofs() == old(self).proofs());
            assert(self.contributions() == old(self).contributions());
            assert forall|k: (Seq<char>, u32)| #[trigger]
                self.milestones().contains_key(k) implies {
                    let m = self.milestones()[k];
                    &&& m.campaign_id@ == k.0
                    &&& m.sequence == k.1
                    &&& 0 < m.target_amount
                    &&& self.id_bound(k.0)
                    &&& self.campaigns().contains_key(k.0) ==> {
                        let c = self.campaigns()[k.0];
                        &&& 1 <= k.1 <= c.milestones_count
                        &&& (m.completed <==> k.1 <= c.current_milestone)
                    }
                } by {
                assert(old(self).milestones().contains_key(k));
            }
        }
        Ok(issuance)
    }

    /// The error `withdraw_milestone_funds` reports, if any.
    pub open spec fn withdraw_milestone_outcome_error(
        &self,
        caller: Seq<char>,
        campaign_id: Seq<char>,
        sequence: u32,
    ) -> Option<Error> {
        if !self.campaigns().contains_key(campaign_id) {
            Some(Error::CampaignNotFound)
        } else if self.campaigns()[campaign_id].creator@ != caller {
            Some(Error::Unauthorized)
        } else if !self.milestones().contains_key((campaign_id, sequence)) {
            Some(Error::MilestoneNotFound)
        } else {
            withdraw_milestone_error(
                self.campaigns()[campaign_id],
                self.milestones()[(campaign_id, sequence)],
            )
        }
    }

    /// Releases the funds of a completed milestone to the campaign's creator,
    /// who must be `caller`: the withdrawable amount drops to zero and the
    /// milestone's target is given back, for the caller to pay out of
    /// escrow.
    pub fn withdraw_milestone_funds(
        &mut self,
        caller: &String,
        campaign_id: &String,
        sequence: u32,
    ) -> (r: Result<i128, Error>)
        requires
            old(self).wf(),
        ensures
            final(self).wf(),
            match old(self).withdraw_milestone_outcome_error(caller@, campaign_id@, sequence) {
                Some(e) => r == Err::<i128, Error>(e) && *final(self) == *old(self),
                None => {
                    let c = old(self).campaigns()[campaign_id@];
                    &&& r == Ok::<i128, Error>(old(self).milestones()[(campaign_id@, sequence)].target_amount)
                    &&& final(self).campaigns() == old(self).campaigns().insert(
                        campaign_id@,
                        (Campaign { withdrawable_amount: 0, ..c }),
                    )
                    &&& final(self).config() == old(self).config()
                    &&& final(self).milestones() == old(self).milestones()
                    &&& final(self).proofs() == old(self).proofs()
                    &&& final(self).contributions() == old(self).contributions()
                    &&& final(self).closed() == old(self).closed()
                },
            },
    {
        let ci = match self.find_campaign(campaign_id) {
            Some(i) => i,
            None => {
                return Err(Error::CampaignNotFound);
            },
        };
        if self.campaigns[ci].creator != *caller {
            return Err(Error::Unauthorized);
        }
        let mi = match self.find_milestone(campaign_id, sequence) {
            Some(i) => i,
            None => {
                return Err(Error::MilestoneNotFound);
            },
        };
        let (updated, amount) = match rules::withdraw_milestone_funds(
            &self.campaigns[ci],
            &self.milestones[mi],
        ) {
            Err(e) => {
                return Err(e);
            },
            Ok(x) => x,
        };
        proof {
            lemma_view_update(self.campaigns@, campaign_key(), ci as int, updated);
        }
        self.campaigns.set(ci, updated);
        proof {
            assert(self.closed() == old(self).closed());
            assert(self.milestones() == old(self).milestones());
            assert(self.proofs() == old(self).proofs());
            assert(self.contributions() == old(self).contributions());
        }
        Ok(amount)
    }

    /// The error `refund` reports, if any.
    pub open spec fn refund_outcome_error(&self, contributor: Seq<char>, campaign_id: Seq<char>) -> Option<
        Error,
    > {
        if !self.contributions().contains_key((campaign_id, contributor)) {
            Some(Error::ContributionNotFound)
        } else if !self.campaigns().contains_key(campaign_id) {
            Some(Error::CampaignNotFound)
        } else {
            refund_error(
                self.campaigns()[campaign_id],
                self.contributions()[(campaign_id, contributor)].amount,
            )
        }
    }

    /// Gives `contributor`, whose authorization the caller has established,
    /// their whole stake in a campaign back, whatever the state of its
    /// milestones: the campaign loses the stake and one supporter, the
    /// contribution record goes, and the stake is given back for the caller
    /// to pay out of escrow.
    pub fn refund(&mut self, contributor: &String, campaign_id: &String) -> (r: Result<i128, Error>)
        requires
            old(self).wf(),
        ensures
            final(self).wf(),
            match old(self).refund_outcome_error(contributor@, campaign_id@) {
                Some(e) => r == Err::<i128, Error>(e) && *final(self) == *old(self),
                None => {
                    let c = old(self).campaigns()[campaign_id@];
                    let stake = old(self).contributions()[(campaign_id@, contributor@)].amount;
                    &&& r == Ok::<i128, Error>(stake)
                    &&& final(self).campaigns() == old(self).campaigns().insert(
                        campaign_id@,
                        (Campaign {
                            total_raised: (c.total_raised - stake) as i128,
                            supporters: (c.supporters - 1) as u32,
                            ..c
                        }),
                    )
                    &&& final(self).contributions() == old(self).contributions().remove(
                        (campaign_id@, contributor@),
                    )
                    &&& final(self).config() == old(self).config()
                    &&& final(self).milestones() == old(self).milestones()
                    &&& final(self).proofs() == old(self).proofs()
                    &&& final(self).closed() == old(self).closed()
                },
            },
    {
        let ki = match self.find_contribution(campaign_id, contributor) {
            Some(i) => i,
            None => {
                return Err(Error::ContributionNotFound);
            },
        };
        let ci = match self.find_campaign(campaign_id) {
            Some(i) => i,
            None => {
                return Err(Error::CampaignNotFound);
            },
        };
        let stake = self.contributions[ki].amount;
        let updated = match rules::refund(&self.campaigns[ci], stake) {
            Err(e) => {
                return Err(e);
            },
            Ok(c) => c,
        };
        proof {
            lemma_view_update(self.campaigns@, campaign_key(), ci as int, updated);
            lemma_view_remove(self.contributions@, contribution_key(), ki as int);
        }
        let ghost before = self.contributions@;
        self.campaigns.set(ci, updated);
        self.contributions.remove(ki);
        proof {
            lemma_view_at(before, contribution_key(), ki as int);
            assert forall|id: Seq<char>|
                #![trigger self.staked(id)]
                #![trigger self.stakers(id)]
                self.staked(id) == old(self).staked(id) - stake_in(before[ki as int], id)
                && self.stakers(id) == old(self).stakers(id) - staker_in(before[ki as int], id) by {
                lemma_stakes_remove(before, ki as int, id);
            }
            assert forall|j: int| 0 <= j < self.contributions@.len() implies 0 < #[trigger] self.contributions@[j].amount by {
                assert(self.contributions@[j] == before[if j < ki { j } else { j + 1 }]);
            }
            assert(self.closed() == old(self).closed());
            assert(self.milestones() == old(self).milestones());
            assert(self.proofs() == old(self).proofs());
        }
        Ok(stake)
    }

    /// The error `withdraw` reports, if any.
    pub open spec fn withdraw_outcome_error(&self, caller: Seq<char>, campaign_id: Seq<char>) -> Option<
        Error,
    > {
        if !self.campaigns().contains_key(campaign_id) {
            Some(Error::CampaignNotFound)
        } else if self.campaigns()[campaign_id].creator@ != caller {
            Some(Error::Unauthorized)
        } else if self.campaigns()[campaign_id].total_raised < self.campaigns()[campaign_id].goal {
            Some(Error::CampaignGoalNotReached)
        } else {
            None
        }
    }

    /// Pays out a campaign without milestones once it has reached its goal;
    /// `caller` must be its creator. The campaign is removed for good and
    /// its id cannot be used again. Gives the amount raised, for the caller
    /// to pay out of escrow.
    pub fn withdraw(&mut self, caller: &String, campaign_id: &String) -> (r: Result<i128, Error>)
        requires
            old(self).wf(),
        ensures
            final(self).wf(),
            match old(self).withdraw_outcome_error(caller@, campaign_id@) {
                Some(e) => r == Err::<i128, Error>(e) && *final(self) == *old(self),
                None => {
                    &&& r == Ok::<i128, Error>(old(self).campaigns()[campaign_id@].total_raised)
                    &&& final(self).campaigns() == old(self).campaigns().remove(campaign_id@)
                    &&& final(self).closed() == old(self).closed().insert(campaign_id@)
                    &&& final(self).config() == old(self).config()
                    &&& final(self).milestones() == old(self).milestones()
                    &&& final(self).proofs() == old(self).proofs()
                    &&& final(self).contributions() == old(self).contributions()
                },
            },
    {
        let ci = match self.find_campaign(campaign_id) {
            Some(i) => i,
            None => {
                return Err(Error::CampaignNotFound);
            },
        };
        if self.campaigns[ci].creator != *caller {
            return Err(Error::Unauthorized);
        }
        let raised = match rules::withdraw(&self.campaigns[ci]) {
            Err(e) => {
                return Err(e);
            },
            Ok(a) => a,
        };
        proof {
            lemma_view_remove(self.campaigns@, campaign_key(), ci as int);
        }
        self.campaigns.remove(ci);
        self.closed.push(campaign_id.clone());
        proof {
            assert(self.closed() =~= old(self).closed().insert(campaign_id@)) by {
                assert(self.closed@[self.closed@.len() - 1]@ == campaign_id@);
                assert forall|id: Seq<char>| old(self).closed().contains(id) implies self.closed().contains(id) by {
                    let i = choose|i: int| 0 <= i < old(self).closed.len() && old(self).closed@[i]@ == id;
                    assert(self.closed@[i] == old(self).closed@[i]);
                }
            }
            assert(self.milestones() == old(self).milestones());
            assert(self.proofs() == old(self).proofs());
            assert(self.contributions() == old(self).contributions());
            assert forall|k: (Seq<char>, u32)| #[trigger]
                self.milestones().contains_key(k) implies self.id_bound(k.0) by {
                assert(old(self).milestones().contains_key(k));
                assert(old(self).id_bound(k.0));
            }
        }
        Ok(raised)
    }

    /// An active stake is covered by its campaign: it is at most the amount
    /// raised, and the campaign counts at least one supporter.
    pub proof fn lemma_stake_covered(&self, campaign_id: Seq<char>, contributor: Seq<char>)
        requires
            self.wf(),
            self.contributions().contains_key((campaign_id, contributor)),
            self.campaigns().contains_key(campaign_id),
        ensures
            self.contributions()[(campaign_id, contributor)].amount
                <= self.campaigns()[campaign_id].total_raised,
            1 <= self.campaigns()[campaign_id].supporters,
    {
        let k = (campaign_id, contributor);
        let s = self.contributions@;
        assert(has_key(s, contribution_key(), k));
        let j = choose|j: int| 0 <= j < s.len() && contribution_key()(s[j]) == k;
        lemma_view_at(s, contribution_key(), j);
        lemma_stake_within_total(s, j, campaign_id);
    }
}

} // verus!
