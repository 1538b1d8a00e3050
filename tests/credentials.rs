use crowdfunding::nft::{CollectionMetadata, Error as NftError, TokenMetadata, MILESTONE_URI};
use crowdfunding::{credential_request, CrowdfundingContract, MilestoneNftContract};
use soroban_sdk::Env;

const CAMPAIGN_1_SHA256: [u8; 32] = [
    145, 105, 239, 94, 74, 190, 252, 203, 177, 111, 85, 13, 94, 225, 147, 113, 171, 90, 103, 152,
    95, 140, 234, 43, 85, 141, 231, 51, 139, 234, 88, 12,
];
const PROOF_1_SHA256: [u8; 32] = [
    72, 135, 171, 7, 120, 101, 26, 233, 156, 217, 238, 106, 54, 236, 253, 212, 223, 34, 173, 185,
    92, 213, 94, 197, 179, 151, 100, 175, 210, 148, 3, 174,
];

fn s(text: &str) -> String {
    text.to_string()
}

fn setup(campaign_id: &str) -> (CrowdfundingContract, MilestoneNftContract) {
    let mut nft = MilestoneNftContract::new();
    nft.initialize(
        s("admin"),
        s("Milestone NFT"),
        s("MNFT"),
        s("https://api.refinance.com/"),
        s("crowdfunding"),
    )
    .unwrap();
    let mut ledger = CrowdfundingContract::new();
    ledger.initialize(s("admin"), s("token"), Some(s("nft"))).unwrap();
    ledger
        .add_campaign(
            s(campaign_id),
            s("creator"),
            s("Test Campaign"),
            s("Test Description"),
            1000,
            10,
        )
        .unwrap();
    (ledger, nft)
}

fn validate_and_issue(
    env: &Env,
    ledger: &mut CrowdfundingContract,
    nft: &mut MilestoneNftContract,
    campaign_id: &str,
    sequence: u32,
    proof_id: &str,
) -> u32 {
    let issuance = ledger
        .validate_milestone_with_proof(&s("admin"), &s(campaign_id), sequence, &s(proof_id), 1_700_000_000)
        .unwrap();
    let request = credential_request(env, &issuance);
    nft.create_milestone_from_proof(
        &s("crowdfunding"),
        request.campaign_ref,
        request.proof_ref,
        request.uri,
        request.description,
        request.recipient,
        1_700_000_000,
    )
    .unwrap()
}

#[test]
fn credential_refs_are_sha256_digests() {
    let env = Env::default();
    let (mut ledger, _) = setup("campaign-1");
    ledger.contribute(s("creator"), s("campaign-1"), 500).unwrap();
    ledger.add_milestone(&s("creator"), s("campaign-1"), 500, s("First milestone")).unwrap();
    ledger
        .add_proof(&s("admin"), s("proof-1"), s("campaign-1"), s("ipfs://x"), s("d"), 1)
        .unwrap();
    let issuance = ledger
        .validate_milestone_with_proof(&s("admin"), &s("campaign-1"), 1, &s("proof-1"), 2)
        .unwrap();
    let request = credential_request(&env, &issuance);
    assert_eq!(request.campaign_ref, CAMPAIGN_1_SHA256);
    assert_eq!(request.proof_ref, PROOF_1_SHA256);
    assert_eq!(request.recipient, s("creator"));
}

#[test]
fn test_milestone_validation_mints_nft() {
    let env = Env::default();
    let (mut ledger, mut nft) = setup("campaign-1");
    let milestone_sequence = ledger
        .add_milestone(&s("creator"), s("campaign-1"), 500, s("First milestone"))
        .unwrap();
    ledger.contribute(s("creator"), s("campaign-1"), 500).unwrap();
    ledger
        .add_proof(
            &s("admin"),
            s("proof-1"),
            s("campaign-1"),
            s("ipfs://QmProofHash123"),
            s("Milestone completion proof"),
            1_700_000_000,
        )
        .unwrap();
    assert_eq!(nft.total_supply(), 0);
    validate_and_issue(&env, &mut ledger, &mut nft, "campaign-1", milestone_sequence, "proof-1");
    let milestone = ledger.get_milestone(&s("campaign-1"), milestone_sequence).unwrap();
    assert_eq!(milestone.completed, true);
    assert_eq!(milestone.proof_id, Some(s("proof-1")));
    assert_eq!(nft.total_supply(), 1);
    assert_eq!(nft.owner_of(1).unwrap(), s("creator"));
    let metadata = nft.get_token_metadata(1).unwrap();
    assert_eq!(metadata.campaign_id, CAMPAIGN_1_SHA256);
    assert_eq!(metadata.proof_id, PROOF_1_SHA256);
    assert_eq!(metadata.description, s("Milestone completion proof"));
    assert_eq!(metadata.uri, s(MILESTONE_URI));
    assert_eq!(metadata.validated, false);
    assert!(metadata.timestamp > 0);
}

#[test]
fn test_multiple_milestones_mint_multiple_nfts() {
    let env = Env::default();
    let (mut ledger, mut nft) = setup("campaign-multi");
    let milestone1 = ledger
        .add_milestone(&s("creator"), s("campaign-multi"), 500, s("First milestone"))
        .unwrap();
    let milestone2 = ledger
        .add_milestone(&s("creator"), s("campaign-multi"), 1000, s("Second milestone"))
        .unwrap();
    ledger.contribute(s("creator"), s("campaign-multi"), 1000).unwrap();
    ledger
        .add_proof(&s("admin"), s("proof-1"), s("campaign-multi"), s("ipfs://QmProof1"), s("First milestone proof"), 1)
        .unwrap();
    validate_and_issue(&env, &mut ledger, &mut nft, "campaign-multi", milestone1, "proof-1");
    assert_eq!(nft.total_supply(), 1);
    assert_eq!(nft.owner_of(1).unwrap(), s("creator"));
    ledger
        .add_proof(&s("admin"), s("proof-2"), s("campaign-multi"), s("ipfs://QmProof2"), s("Second milestone proof"), 2)
        .unwrap();
    validate_and_issue(&env, &mut ledger, &mut nft, "campaign-multi", milestone2, "proof-2");
    assert_eq!(nft.total_supply(), 2);
    assert_eq!(nft.owner_of(2).unwrap(), s("creator"));
    let metadata1 = nft.get_token_metadata(1).unwrap();
    let metadata2 = nft.get_token_metadata(2).unwrap();
    assert_ne!(metadata1.proof_id, metadata2.proof_id);
    assert_eq!(metadata1.description, s("First milestone proof"));
    assert_eq!(metadata2.description, s("Second milestone proof"));
    let campaign_ref = metadata1.campaign_id;
    assert_eq!(nft.get_campaign_milestones(&campaign_ref).unwrap(), vec![1, 2]);
    assert_eq!(nft.get_campaign_milestone_progress(&campaign_ref), Ok((0, 2)));
    nft.validate_milestone(&s("admin"), 2).unwrap();
    assert_eq!(nft.get_campaign_milestone_progress(&campaign_ref), Ok((1, 2)));
    assert_eq!(nft.proof_has_milestone(&metadata2.proof_id), Ok(true));
    assert_eq!(nft.proof_has_milestone(&[0u8; 32]), Ok(false));
}

#[test]
fn test_unauthorized_validation_does_not_mint_nft() {
    let (mut ledger, nft) = setup("campaign-auth-test");
    assert_eq!(
        ledger
            .validate_milestone_with_proof(&s("intruder"), &s("campaign-auth-test"), 1, &s("p"), 1)
            .unwrap_err(),
        crowdfunding::Error::Unauthorized
    );
    assert_eq!(nft.total_supply(), 0);
}

#[test]
fn test_token_metadata_creation() {
    let metadata = TokenMetadata {
        uri: s("https://api.refinance.com/milestone/1"),
        campaign_id: [1u8; 32],
        proof_id: [2u8; 32],
        description: s("First milestone completed"),
        timestamp: 1234567890,
        validated: false,
    };
    assert_eq!(metadata.validated, false);
    assert_eq!(metadata.timestamp, 1234567890);
    assert_eq!(metadata.uri.len(), 37);
    assert_eq!(metadata.description.len(), 25);
}

#[test]
fn test_collection_metadata() {
    let collection = CollectionMetadata {
        name: s("ReFinance Milestones"),
        symbol: s("RFM"),
        base_uri: s("https://api.refinance.com/metadata/"),
    };
    assert_eq!(collection.name.len(), 20);
    assert_eq!(collection.symbol.len(), 3);
    assert_eq!(collection.base_uri.len(), 35);
}

#[test]
fn test_bytes_n_operations() {
    let campaign_id1 = [1u8; 32];
    let campaign_id2 = [1u8; 32];
    let campaign_id3 = [2u8; 32];
    assert_eq!(campaign_id1, campaign_id2);
    assert_ne!(campaign_id1, campaign_id3);
    assert_eq!(campaign_id1.len(), 32);
    assert_eq!(campaign_id3.len(), 32);
}

#[test]
fn credential_ledger_errors() {
    let mut nft = MilestoneNftContract::new();
    assert_eq!(nft.get_collection_metadata().unwrap_err(), NftError::NotInitialized);
    assert_eq!(
        nft.create_milestone_from_proof(&s("cf"), [0; 32], [0; 32], s("u"), s("d"), s("r"), 1),
        Err(NftError::InvalidCrowdfundingContract)
    );
    nft.initialize(s("admin"), s("N"), s("S"), s("b"), s("cf")).unwrap();
    assert_eq!(
        nft.initialize(s("admin"), s("N"), s("S"), s("b"), s("cf")),
        Err(NftError::AlreadyInitialized)
    );
    assert_eq!(
        nft.create_milestone_from_proof(&s("admin"), [0; 32], [0; 32], s("u"), s("d"), s("r"), 1),
        Err(NftError::Unauthorized)
    );
    assert_eq!(
        nft.mint_milestone(&s("other"), s("alice"), s("u"), [0; 32], [0; 32], s("d"), 1),
        Err(NftError::Unauthorized)
    );
    assert_eq!(nft.mint_milestone(&s("admin"), s("alice"), s("u"), [0; 32], [0; 32], s("d"), 1), Ok(1));
    assert_eq!(nft.owner_of(2), Err(NftError::TokenNotFound));
    assert_eq!(nft.transfer_from(&s("bob"), &s("bob"), s("carol"), 1), Err(NftError::NotOwner));
    assert_eq!(nft.transfer_from(&s("bob"), &s("alice"), s("carol"), 1), Err(NftError::NotApproved));
    assert_eq!(nft.approve(&s("bob"), s("bob"), 1), Err(NftError::Unauthorized));
    assert_eq!(nft.validate_milestone(&s("alice"), 1), Err(NftError::Unauthorized));
    assert_eq!(nft.update_crowdfunding_contract(&s("alice"), s("x")), Err(NftError::Unauthorized));
    assert_eq!(nft.get_collection_metadata().unwrap().symbol, s("S"));
}

#[test]
fn credential_transfers_and_approvals() {
    let mut nft = MilestoneNftContract::new();
    nft.initialize(s("admin"), s("N"), s("S"), s("b"), s("cf")).unwrap();
    nft.mint_milestone(&s("admin"), s("alice"), s("u1"), [1; 32], [2; 32], s("d"), 1).unwrap();
    nft.mint_milestone(&s("cf"), s("alice"), s("u2"), [1; 32], [3; 32], s("d"), 1).unwrap();
    assert_eq!(nft.balance_of(&s("alice")), 2);
    assert_eq!(nft.token_uri(2), Ok(s("u2")));
    nft.approve(&s("alice"), s("bob"), 1).unwrap();
    assert_eq!(nft.get_approved(1), Ok(Some(s("bob"))));
    nft.transfer_from(&s("bob"), &s("alice"), s("bob"), 1).unwrap();
    assert_eq!(nft.owner_of(1), Ok(s("bob")));
    assert_eq!(nft.get_approved(1), Ok(None));
    assert_eq!(nft.balance_of(&s("alice")), 1);
    assert_eq!(nft.balance_of(&s("bob")), 1);
    assert!(!nft.is_approved_for_all(&s("alice"), &s("carol")));
    nft.set_approval_for_all(&s("alice"), s("carol"), true).unwrap();
    assert!(nft.is_approved_for_all(&s("alice"), &s("carol")));
    nft.transfer_from(&s("carol"), &s("alice"), s("dave"), 2).unwrap();
    assert_eq!(nft.owner_of(2), Ok(s("dave")));
    nft.set_approval_for_all(&s("alice"), s("carol"), false).unwrap();
    assert!(!nft.is_approved_for_all(&s("alice"), &s("carol")));
    nft.update_crowdfunding_contract(&s("admin"), s("cf2")).unwrap();
    assert_eq!(
        nft.create_milestone_from_proof(&s("cf"), [0; 32], [0; 32], s("u"), s("d"), s("r"), 1),
        Err(NftError::Unauthorized)
    );
    assert_eq!(
        nft.create_milestone_from_proof(&s("cf2"), [0; 32], [0; 32], s("u"), s("d"), s("r"), 1),
        Ok(3)
    );
}
