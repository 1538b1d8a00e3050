//! Milestone-gated crowdfunding escrow: campaigns, contributions, ordered
//! milestones, proofs, validation and withdrawal, with a ledger of completion
//! credentials.
use vstd::prelude::*;

pub mod contract;
pub mod credential;
pub mod error;
pub mod laws;
pub mod nft;
pub mod records;
pub mod rules;
pub mod stakes;
pub mod table;

pub use contract::{Config, CrowdfundingContract, Issuance};
pub use credential::{credential_request, CredentialRequest};
pub use error::Error;
pub use nft::MilestoneNftContract;
pub use records::{Campaign, Contribution, Milestone, Proof};

verus! {

} // verus!
