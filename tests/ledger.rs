use crowdfunding::{Campaign, CrowdfundingContract, Error, Milestone, Proof};

fn s(text: &str) -> String {
    text.to_string()
}

fn ledger_with_campaign(goal: i128, min_donation: i128) -> CrowdfundingContract {
    let mut ledger = CrowdfundingContract::new();
    ledger.initialize(s("admin"), s("token"), Some(s("issuer"))).unwrap();
    ledger
        .add_campaign(
            s("test-campaign"),
            s("creator"),
            s("Test Campaign"),
            s("A test campaign"),
            goal,
            min_donation,
        )
        .unwrap();
    ledger
}

#[test]
fn test_campaign_storage() {
    let mut ledger = CrowdfundingContract::new();
    ledger.initialize(s("admin"), s("token"), None).unwrap();
    ledger
        .add_campaign(
            s("test-campaign"),
            s("creator"),
            s("Test Campaign"),
            s("A test crowdfunding campaign"),
            1000,
            10,
        )
        .unwrap();
    let retrieved = ledger.get_campaign(&s("test-campaign")).unwrap();
    assert_eq!(retrieved.id, s("test-campaign"));
    assert_eq!(retrieved.title, s("Test Campaign"));
    assert_eq!(retrieved.goal, 1000);
    assert_eq!(retrieved.milestones_count, 0);
}

#[test]
fn test_milestone_storage() {
    let mut ledger = ledger_with_campaign(1000, 10);
    ledger
        .add_milestone(&s("creator"), s("test-campaign"), 500, s("First milestone"))
        .unwrap();
    let retrieved = ledger.get_milestone(&s("test-campaign"), 1).unwrap();
    assert_eq!(retrieved.campaign_id, s("test-campaign"));
    assert_eq!(retrieved.sequence, 1);
    assert_eq!(retrieved.target_amount, 500);
    assert_eq!(retrieved.completed, false);
}

#[test]
fn test_proof_storage() {
    let mut ledger = ledger_with_campaign(1000, 10);
    ledger
        .add_proof(
            &s("admin"),
            s("proof-1"),
            s("test-campaign"),
            s("https://example.com/proof"),
            s("Test proof"),
            1234567890,
        )
        .unwrap();
    let retrieved = ledger.get_proof(&s("test-campaign"), &s("proof-1")).unwrap();
    assert_eq!(retrieved.id, s("proof-1"));
    assert_eq!(retrieved.campaign_id, s("test-campaign"));
    assert_eq!(retrieved.uri, s("https://example.com/proof"));
    assert_eq!(retrieved.description, s("Test proof"));
    assert_eq!(retrieved.timestamp, 1234567890);
}

#[test]
fn test_milestone_creation_logic() {
    let mut ledger = ledger_with_campaign(1000, 10);
    let target_amount = 500i128;
    let result = ledger.add_milestone(
        &s("creator"),
        s("test-campaign"),
        target_amount,
        s("First milestone"),
    );
    assert!(result.is_ok());
    assert_eq!(result.unwrap(), 1);
    let milestone = ledger.get_milestone(&s("test-campaign"), 1).unwrap();
    let updated_campaign = ledger.get_campaign(&s("test-campaign")).unwrap();
    assert_eq!(milestone.sequence, 1);
    assert_eq!(milestone.target_amount, target_amount);
    assert_eq!(updated_campaign.milestones_count, 1);
}

#[test]
fn test_milestone_validation_errors() {
    let mut ledger = ledger_with_campaign(1000, 10);
    let invalid_target = 2000i128;
    let result = ledger.add_milestone(
        &s("creator"),
        s("test-campaign"),
        invalid_target,
        s("Invalid milestone"),
    );
    assert!(result.is_err());
    assert_eq!(result.unwrap_err(), Error::InvalidMilestoneAmount);
}

#[test]
fn test_proof_logging() {
    let mut ledger = CrowdfundingContract::new();
    ledger.initialize(s("admin"), s("token"), None).unwrap();
    let result = ledger.add_proof(
        &s("admin"),
        s("proof-1"),
        s("test-campaign"),
        s("https://example.com/proof"),
        s("Proof description"),
        0,
    );
    assert!(result.is_ok());
    let proof = ledger.get_proof(&s("test-campaign"), &s("proof-1")).unwrap();
    assert_eq!(proof.id, s("proof-1"));
    assert_eq!(proof.campaign_id, s("test-campaign"));
    assert_eq!(proof.uri, s("https://example.com/proof"));
    assert_eq!(proof.description, s("Proof description"));
}

#[test]
fn attestation_test_test_proof_struct_creation() {
    let proof = Proof {
        id: s("proof-123"),
        campaign_id: s("campaign-abc"),
        uri: s("ipfs://QmProofHash123"),
        description: s("Milestone completion proof"),
        timestamp: 0,
    };
    assert!(!proof.id.is_empty());
    assert!(!proof.campaign_id.is_empty());
    assert!(!proof.uri.is_empty());
    assert!(!proof.description.is_empty());
}

#[test]
fn attestation_test_test_compilation_of_new_types() {
    let _campaign = Campaign {
        id: s("test-campaign"),
        creator: s("creator"),
        title: s("Test Campaign"),
        description: s("A test crowdfunding campaign"),
        goal: 1000,
        min_donation: 10,
        total_raised: 0,
        supporters: 0,
        milestones_count: 0,
        current_milestone: 0,
        withdrawable_amount: 0,
    };
    let _proof = Proof {
        id: s("proof-1"),
        campaign_id: s("test-campaign"),
        uri: s("ipfs://QmProofHash"),
        description: s("Proof of milestone completion"),
        timestamp: 0,
    };
    let _milestone = Milestone {
        campaign_id: s("test-campaign"),
        sequence: 1,
        target_amount: 500,
        description: s("First milestone"),
        completed: false,
        proof_id: None,
        completed_at: None,
    };
    let _error1 = Error::ProofNotFound;
    let _error2 = Error::MilestoneNotFound;
    let _error3 = Error::InvalidMilestoneAmount;
    let _error4 = Error::MilestoneAlreadyCompleted;
    assert!(true);
}

#[test]
fn test_milestone_validation_logic() {
    let milestone1 = Milestone {
        campaign_id: s("test-campaign"),
        sequence: 1,
        target_amount: 300,
        description: s("First milestone"),
        completed: false,
        proof_id: None,
        completed_at: None,
    };
    let milestone2 = Milestone {
        campaign_id: s("test-campaign"),
        sequence: 2,
        target_amount: 600,
        description: s("Second milestone"),
        completed: false,
        proof_id: None,
        completed_at: None,
    };
    assert!(milestone1.sequence < milestone2.sequence);
    assert!(milestone1.target_amount < milestone2.target_amount);
    assert_eq!(milestone1.campaign_id, milestone2.campaign_id);
}

#[test]
fn scenario_contribute_then_plan_milestones() {
    let mut ledger = ledger_with_campaign(1000, 10);
    ledger.contribute(s("alice"), s("test-campaign"), 500).unwrap();
    assert_eq!(ledger.get_campaign(&s("test-campaign")).unwrap().total_raised, 500);
    assert_eq!(
        ledger.add_milestone(&s("creator"), s("test-campaign"), 500, s("one")),
        Ok(1)
    );
    assert_eq!(
        ledger.add_milestone(&s("creator"), s("test-campaign"), 400, s("two")),
        Err(Error::MilestoneAmountNotIncreasing)
    );
    assert_eq!(
        ledger.add_milestone(&s("creator"), s("test-campaign"), 1000, s("two")),
        Ok(2)
    );
    let listed = ledger.get_campaign_milestones(&s("test-campaign")).unwrap();
    assert_eq!(listed.len(), 2);
    assert_eq!(listed[0].target_amount, 500);
    assert_eq!(listed[1].target_amount, 1000);
}

#[test]
fn scenario_validate_then_withdraw() {
    let mut ledger = ledger_with_campaign(1000, 10);
    ledger.contribute(s("alice"), s("test-campaign"), 500).unwrap();
    ledger.add_milestone(&s("creator"), s("test-campaign"), 500, s("one")).unwrap();
    ledger
        .add_proof(&s("admin"), s("p1"), s("test-campaign"), s("ipfs://p1"), s("done"), 7)
        .unwrap();
    let issuance = ledger
        .validate_milestone_with_proof(&s("admin"), &s("test-campaign"), 1, &s("p1"), 42)
        .unwrap();
    assert_eq!(issuance.campaign_id, s("test-campaign"));
    assert_eq!(issuance.proof_id, s("p1"));
    assert_eq!(issuance.uri, s("ipfs://p1"));
    assert_eq!(issuance.description, s("done"));
    assert_eq!(issuance.recipient, s("creator"));
    let campaign = ledger.get_campaign(&s("test-campaign")).unwrap();
    assert_eq!(campaign.withdrawable_amount, 500);
    assert_eq!(campaign.current_milestone, 1);
    let milestone = ledger.get_milestone(&s("test-campaign"), 1).unwrap();
    assert!(milestone.completed);
    assert_eq!(milestone.proof_id, Some(s("p1")));
    assert_eq!(milestone.completed_at, Some(42));
    assert_eq!(
        ledger.withdraw_milestone_funds(&s("creator"), &s("test-campaign"), 1),
        Ok(500)
    );
    assert_eq!(ledger.get_campaign(&s("test-campaign")).unwrap().withdrawable_amount, 0);
    assert_eq!(
        ledger.withdraw_milestone_funds(&s("creator"), &s("test-campaign"), 1),
        Err(Error::NoFundsToWithdraw)
    );
}

#[test]
fn scenario_refund_after_partial_validation() {
    let mut ledger = ledger_with_campaign(1000, 10);
    ledger.contribute(s("alice"), s("test-campaign"), 500).unwrap();
    ledger.contribute(s("bob"), s("test-campaign"), 300).unwrap();
    ledger.add_milestone(&s("creator"), s("test-campaign"), 500, s("one")).unwrap();
    ledger.add_milestone(&s("creator"), s("test-campaign"), 800, s("two")).unwrap();
    ledger
        .add_proof(&s("admin"), s("p1"), s("test-campaign"), s("u"), s("d"), 1)
        .unwrap();
    ledger
        .validate_milestone_with_proof(&s("admin"), &s("test-campaign"), 1, &s("p1"), 2)
        .unwrap();
    assert_eq!(ledger.refund(&s("bob"), &s("test-campaign")), Ok(300));
    let campaign = ledger.get_campaign(&s("test-campaign")).unwrap();
    assert_eq!(campaign.total_raised, 500);
    assert_eq!(campaign.supporters, 1);
    assert_eq!(campaign.current_milestone, 1);
    assert_eq!(
        ledger.refund(&s("bob"), &s("test-campaign")),
        Err(Error::ContributionNotFound)
    );
}

#[test]
fn repeated_contributions_accumulate_one_supporter() {
    let mut ledger = ledger_with_campaign(1000, 10);
    ledger.contribute(s("alice"), s("test-campaign"), 100).unwrap();
    ledger.contribute(s("alice"), s("test-campaign"), 150).unwrap();
    let campaign = ledger.get_campaign(&s("test-campaign")).unwrap();
    assert_eq!(campaign.total_raised, 250);
    assert_eq!(campaign.supporters, 1);
    assert_eq!(ledger.refund(&s("alice"), &s("test-campaign")), Ok(250));
    let campaign = ledger.get_campaign(&s("test-campaign")).unwrap();
    assert_eq!(campaign.total_raised, 0);
    assert_eq!(campaign.supporters, 0);
}

#[test]
fn reads_repeat_without_side_effects() {
    let mut ledger = ledger_with_campaign(1000, 10);
    ledger.add_milestone(&s("creator"), s("test-campaign"), 500, s("one")).unwrap();
    ledger
        .add_proof(&s("admin"), s("p1"), s("test-campaign"), s("u"), s("d"), 9)
        .unwrap();
    let c1 = ledger.get_campaign(&s("test-campaign")).unwrap();
    let c2 = ledger.get_campaign(&s("test-campaign")).unwrap();
    assert_eq!(format!("{:?}", c1), format!("{:?}", c2));
    let m1 = ledger.get_milestone(&s("test-campaign"), 1).unwrap();
    let m2 = ledger.get_milestone(&s("test-campaign"), 1).unwrap();
    assert_eq!(format!("{:?}", m1), format!("{:?}", m2));
    let p1 = ledger.get_proof(&s("test-campaign"), &s("p1")).unwrap();
    let p2 = ledger.get_proof(&s("test-campaign"), &s("p1")).unwrap();
    assert_eq!(format!("{:?}", p1), format!("{:?}", p2));
    assert_eq!(ledger.get_proof(&s("test-campaign"), &s("p2")).unwrap_err(), Error::ProofNotFound);
}

#[test]
fn goal_exceeded_leaves_state_unchanged() {
    let mut ledger = ledger_with_campaign(1000, 10);
    ledger.contribute(s("alice"), s("test-campaign"), 900).unwrap();
    assert_eq!(
        ledger.contribute(s("bob"), s("test-campaign"), 101),
        Err(Error::CampaignGoalExceeded)
    );
    let campaign = ledger.get_campaign(&s("test-campaign")).unwrap();
    assert_eq!(campaign.total_raised, 900);
    assert_eq!(campaign.supporters, 1);
    assert_eq!(ledger.refund(&s("bob"), &s("test-campaign")), Err(Error::ContributionNotFound));
    ledger.contribute(s("bob"), s("test-campaign"), 100).unwrap();
    assert_eq!(ledger.get_campaign(&s("test-campaign")).unwrap().total_raised, 1000);
}

#[test]
fn validation_out_of_order_and_twice() {
    let mut ledger = ledger_with_campaign(1000, 10);
    ledger.contribute(s("alice"), s("test-campaign"), 1000).unwrap();
    ledger.add_milestone(&s("creator"), s("test-campaign"), 300, s("one")).unwrap();
    ledger.add_milestone(&s("creator"), s("test-campaign"), 600, s("two")).unwrap();
    ledger.add_milestone(&s("creator"), s("test-campaign"), 900, s("three")).unwrap();
    ledger
        .add_proof(&s("admin"), s("p"), s("test-campaign"), s("u"), s("d"), 1)
        .unwrap();
    for k in [2u32, 3] {
        assert_eq!(
            ledger.validate_milestone_with_proof(&s("admin"), &s("test-campaign"), k, &s("p"), 5).unwrap_err(),
            Error::MilestoneNotInSequence
        );
    }
    ledger
        .validate_milestone_with_proof(&s("admin"), &s("test-campaign"), 1, &s("p"), 5)
        .unwrap();
    assert_eq!(
        ledger.validate_milestone_with_proof(&s("admin"), &s("test-campaign"), 1, &s("p"), 6).unwrap_err(),
        Error::MilestoneAlreadyCompleted
    );
    let campaign = ledger.get_campaign(&s("test-campaign")).unwrap();
    assert_eq!(campaign.current_milestone, 1);
    assert_eq!(campaign.withdrawable_amount, 300);
    assert!(campaign.current_milestone <= campaign.milestones_count);
    assert_eq!(
        ledger.get_milestone(&s("test-campaign"), 1).unwrap().completed_at,
        Some(5)
    );
    ledger
        .validate_milestone_with_proof(&s("admin"), &s("test-campaign"), 2, &s("p"), 7)
        .unwrap();
    let campaign = ledger.get_campaign(&s("test-campaign")).unwrap();
    assert_eq!(campaign.current_milestone, 2);
    assert_eq!(campaign.withdrawable_amount, 600);
}

#[test]
fn campaign_errors() {
    let mut ledger = CrowdfundingContract::new();
    assert_eq!(ledger.get_admin(), Err(Error::ContractNotInitialized));
    assert!(!ledger.has_admin());
    ledger.initialize(s("admin"), s("token"), None).unwrap();
    assert_eq!(ledger.initialize(s("x"), s("y"), None), Err(Error::ContractInitialized));
    assert_eq!(ledger.get_admin(), Ok(s("admin")));
    assert_eq!(ledger.get_token(), Ok(s("token")));
    assert_eq!(ledger.get_credential_issuer(), Ok(None));
    let mut add = |goal: i128, min: i128| {
        ledger.add_campaign(s("c"), s("creator"), s("t"), s("d"), goal, min)
    };
    assert_eq!(add(0, 1), Err(Error::InvalidGoalAmount));
    assert_eq!(add(100, 0), Err(Error::InvalidMinDonation));
    assert_eq!(add(100, 101), Err(Error::InvalidMinDonation));
    assert_eq!(add(100, 100), Ok(()));
    assert_eq!(add(100, 10), Err(Error::CampaignAlreadyExists));
    assert_eq!(ledger.get_campaign(&s("missing")).unwrap_err(), Error::CampaignNotFound);
    assert_eq!(
        ledger.get_campaign_milestones(&s("missing")).unwrap_err(),
        Error::CampaignNotFound
    );
}

#[test]
fn contribution_errors() {
    let mut ledger = ledger_with_campaign(1000, 10);
    assert_eq!(
        ledger.contribute(s("a"), s("missing"), 50),
        Err(Error::CampaignNotFound)
    );
    assert_eq!(
        ledger.contribute(s("a"), s("test-campaign"), 0),
        Err(Error::AmountMustBePositive)
    );
    assert_eq!(
        ledger.contribute(s("a"), s("test-campaign"), 9),
        Err(Error::ContributionBelowMinimum)
    );
    assert_eq!(
        ledger.contribute(s("a"), s("test-campaign"), 1001),
        Err(Error::CampaignGoalExceeded)
    );
    assert_eq!(ledger.contribute(s("a"), s("test-campaign"), 10), Ok(()));
    assert_eq!(ledger.refund(&s("a"), &s("missing")), Err(Error::ContributionNotFound));
}

#[test]
fn milestone_and_withdrawal_errors() {
    let mut ledger = ledger_with_campaign(1000, 10);
    assert_eq!(
        ledger.add_milestone(&s("creator"), s("missing"), 10, s("m")),
        Err(Error::CampaignNotFound)
    );
    assert_eq!(
        ledger.add_milestone(&s("stranger"), s("test-campaign"), 10, s("m")),
        Err(Error::Unauthorized)
    );
    assert_eq!(
        ledger.add_milestone(&s("creator"), s("test-campaign"), 0, s("m")),
        Err(Error::InvalidMilestoneAmount)
    );
    ledger.add_milestone(&s("creator"), s("test-campaign"), 400, s("m")).unwrap();
    assert_eq!(
        ledger.add_milestone(&s("creator"), s("test-campaign"), 400, s("m")),
        Err(Error::MilestoneAmountNotIncreasing)
    );
    ledger.add_milestone(&s("creator"), s("test-campaign"), 800, s("m")).unwrap();
    ledger
        .add_proof(&s("admin"), s("p"), s("test-campaign"), s("u"), s("d"), 1)
        .unwrap();
    assert_eq!(
        ledger.add_proof(&s("admin"), s("p"), s("test-campaign"), s("u"), s("d"), 2),
        Err(Error::ProofAlreadyExists)
    );
    assert_eq!(
        ledger.add_proof(&s("creator"), s("q"), s("test-campaign"), s("u"), s("d"), 2),
        Err(Error::Unauthorized)
    );
    let v = |l: &mut CrowdfundingContract, who: &str, c: &str, k: u32, p: &str| {
        l.validate_milestone_with_proof(&s(who), &s(c), k, &s(p), 3).unwrap_err()
    };
    assert_eq!(v(&mut ledger, "creator", "test-campaign", 1, "p"), Error::Unauthorized);
    assert_eq!(v(&mut ledger, "admin", "missing", 1, "p"), Error::CampaignNotFound);
    assert_eq!(v(&mut ledger, "admin", "test-campaign", 3, "p"), Error::MilestoneNotFound);
    assert_eq!(v(&mut ledger, "admin", "test-campaign", 1, "q"), Error::ProofNotFound);
    assert_eq!(
        v(&mut ledger, "admin", "test-campaign", 1, "p"),
        Error::InsufficientFundsForMilestone
    );
    assert_eq!(
        ledger.withdraw_milestone_funds(&s("creator"), &s("test-campaign"), 1),
        Err(Error::MilestoneNotCompleted)
    );
    assert_eq!(
        ledger.withdraw_milestone_funds(&s("creator"), &s("test-campaign"), 9),
        Err(Error::MilestoneNotFound)
    );
    assert_eq!(
        ledger.withdraw_milestone_funds(&s("admin"), &s("test-campaign"), 1),
        Err(Error::Unauthorized)
    );
    ledger.contribute(s("a"), s("test-campaign"), 900).unwrap();
    ledger
        .validate_milestone_with_proof(&s("admin"), &s("test-campaign"), 1, &s("p"), 4)
        .unwrap();
    ledger
        .validate_milestone_with_proof(&s("admin"), &s("test-campaign"), 2, &s("p"), 5)
        .unwrap();
    assert_eq!(
        ledger.withdraw_milestone_funds(&s("creator"), &s("test-campaign"), 2),
        Ok(800)
    );
    assert_eq!(
        ledger.withdraw_milestone_funds(&s("creator"), &s("test-campaign"), 1),
        Err(Error::NoFundsToWithdraw)
    );
}

#[test]
fn withdraw_all_is_terminal() {
    let mut ledger = ledger_with_campaign(1000, 10);
    ledger.contribute(s("a"), s("test-campaign"), 600).unwrap();
    assert_eq!(
        ledger.withdraw(&s("creator"), &s("test-campaign")),
        Err(Error::CampaignGoalNotReached)
    );
    assert_eq!(ledger.withdraw(&s("a"), &s("test-campaign")), Err(Error::Unauthorized));
    ledger.contribute(s("b"), s("test-campaign"), 400).unwrap();
    assert_eq!(ledger.withdraw(&s("creator"), &s("test-campaign")), Ok(1000));
    assert_eq!(
        ledger.get_campaign(&s("test-campaign")).unwrap_err(),
        Error::CampaignNotFound
    );
    assert_eq!(
        ledger.withdraw(&s("creator"), &s("test-campaign")),
        Err(Error::CampaignNotFound)
    );
    assert_eq!(
        ledger.add_campaign(s("test-campaign"), s("x"), s("t"), s("d"), 10, 1),
        Err(Error::CampaignAlreadyExists)
    );
    assert_eq!(ledger.refund(&s("a"), &s("test-campaign")), Err(Error::CampaignNotFound));
}
