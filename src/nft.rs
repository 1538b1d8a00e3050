//! The ledger of completion credentials: one token per validated
//! milestone, with owners, approvals and collection metadata.
use vstd::prelude::*;
use crate::records::copy_opt_string;
use crate::table::{keys_unique, lemma_view_absent, lemma_view_at, lemma_view_push, lemma_view_update, table_view};

verus! {

/// Ledgers in about a day, at five seconds a ledger.
pub const DAY_IN_LEDGERS: u32 = 17280;

/// Remaining lifetime below which the credential ledger's storage is extended.
pub const INSTANCE_LIFETIME_THRESHOLD: u32 = DAY_IN_LEDGERS * 30;

/// Lifetime the credential ledger's storage is extended to.
pub const INSTANCE_BUMP_AMOUNT: u32 = DAY_IN_LEDGERS * 30;

/// Failures of the credential ledger.
#[derive(Copy, Clone, Debug, PartialEq, Eq, Structural)]
pub enum Error {
    AlreadyInitialized,
    NotInitialized,
    Unauthorized,
    TokenNotFound,
    NotOwner,
    NotApproved,
    TokenAlreadyExists,
    InvalidCrowdfundingContract,
}

impl Error {
    /// The error's numeric code, counted from 1 in declaration order.
    pub fn code(&self) -> (r: u32)
        ensures
            r == match *self {
                Error::AlreadyInitialized => 1u32,
                Error::NotInitialized => 2,
                Error::Unauthorized => 3,
                Error::TokenNotFound => 4,
                Error::NotOwner => 5,
                Error::NotApproved => 6,
                Error::TokenAlreadyExists => 7,
                Error::InvalidCrowdfundingContract => 8,
            },
    {
        match self {
            Error::AlreadyInitialized => 1,
            Error::NotInitialized => 2,
            Error::Unauthorized => 3,
            Error::TokenNotFound => 4,
            Error::NotOwner => 5,
            Error::NotApproved => 6,
            Error::TokenAlreadyExists => 7,
            Error::InvalidCrowdfundingContract => 8,
        }
    }
}

/// The address that credentials minted for validated milestones point to.
pub const MILESTONE_URI: &'static str = "https://api.refinance.com/milestone/";

/// What a credential records of its milestone.
#[derive(Clone, Debug, PartialEq, Eq)]
pub struct TokenMetadata {
    pub uri: String,
    /// Digest of the campaign id.
    pub campaign_id: [u8; 32],
    /// Digest of the proof id.
    pub proof_id: [u8; 32],
    pub description: String,
    /// Ledger time of the mint.
    pub timestamp: u64,
    /// Whether the administrator has confirmed the milestone.
    pub validated: bool,
}

#[derive(Clone, Debug, PartialEq, Eq)]
pub struct CollectionMetadata {
    pub name: String,
    pub symbol: String,
    pub base_uri: String,
}

/// What is fixed at initialization, save the issuer which the
/// administrator may replace.
#[derive(Clone, Debug)]
pub struct Settings {
    pub admin: String,
    pub collection: CollectionMetadata,
    /// The escrow allowed to have credentials issued.
    pub crowdfunding_contract: String,
}

/// One credential: token id `i + 1` is the `i`-th token.
#[derive(Clone, Debug)]
pub struct Token {
    pub metadata: TokenMetadata,
    pub owner: String,
    /// The one identity allowed to move this token for its owner.
    pub approved: Option<String>,
}

/// Whether `operator` may move every token of `owner`.
#[derive(Clone, Debug)]
pub struct OperatorApproval {
    pub owner: String,
    pub operator: String,
    pub approved: bool,
}

pub open spec fn operator_key() -> spec_fn(OperatorApproval) -> (Seq<char>, Seq<char>) {
    |a: OperatorApproval| (a.owner@, a.operator@)
}

/// How many of `tokens` belong to `owner`.
pub open spec fn owned_count(tokens: Seq<Token>, owner: Seq<char>) -> nat
    decreases tokens.len(),
{
    if tokens.len() == 0 {
        0
    } else {
        owned_count(tokens.drop_last(), owner) + if tokens.last().owner@ == owner {
            1nat
        } else {
            0nat
        }
    }
}

pub proof fn lemma_owned_count_bound(tokens: Seq<Token>, owner: Seq<char>)
    ensures
        owned_count(tokens, owner) <= tokens.len(),
    decreases tokens.len(),
{
    if tokens.len() > 0 {
        lemma_owned_count_bound(tokens.drop_last(), owner);
    }
}

/// The ids of the tokens among `tokens` that record campaign digest `r`, in
/// order; token id `i + 1` is the `i`-th token.
pub open spec fn campaign_token_ids(tokens: Seq<Token>, r: Seq<u8>) -> Seq<u32>
    decreases tokens.len(),
{
    if tokens.len() == 0 {
        Seq::empty()
    } else {
        let rest = campaign_token_ids(tokens.drop_last(), r);
        if tokens.last().metadata.campaign_id@ == r {
            rest.push(tokens.len() as u32)
        } else {
            rest
        }
    }
}

/// How many of the tokens among `tokens` that record campaign digest `r`
/// are validated.
pub open spec fn validated_count(tokens: Seq<Token>, r: Seq<u8>) -> nat
    decreases tokens.len(),
{
    if tokens.len() == 0 {
        0
    } else {
        validated_count(tokens.drop_last(), r) + if tokens.last().metadata.campaign_id@ == r
            && tokens.last().metadata.validated {
            1nat
        } else {
            0nat
        }
    }
}

/// Whether one of `tokens` records proof digest `r`.
pub open spec fn has_proof_token(tokens: Seq<Token>, r: Seq<u8>) -> bool {
    exists|i: int| 0 <= i < tokens.len() && #[trigger] tokens[i].metadata.proof_id@ == r
}

pub proof fn lemma_campaign_counts_bound(tokens: Seq<Token>, r: Seq<u8>)
    ensures
        validated_count(tokens, r) <= campaign_token_ids(tokens, r).len() <= tokens.len(),
    decreases tokens.len(),
{
    if tokens.len() > 0 {
        lemma_campaign_counts_bound(tokens.drop_last(), r);
    }
}

fn copy_metadata(m: &TokenMetadata) -> (r: TokenMetadata)
    ensures
        r == *m,
{
    TokenMetadata {
        uri: m.uri.clone(),
        campaign_id: m.campaign_id,
        proof_id: m.proof_id,
        description: m.description.clone(),
        timestamp: m.timestamp,
        validated: m.validated,
    }
}

fn same_digest(a: &[u8; 32], b: &[u8; 32]) -> (r: bool)
    ensures
        r == (a@ == b@),
{
    let mut i: usize = 0;
    while i < 32
        invariant
            i <= 32,
            forall|j: int| 0 <= j < i ==> a@[j] == b@[j],
        decreases 32 - i,
    {
        if a[i] != b[i] {
            return false;
        }
        i = i + 1;
    }
    assert(a@ =~= b@);
    true
}

/// The credential ledger.
pub struct MilestoneNftContract {
    settings: Option<Settings>,
    tokens: Vec<Token>,
    operators: Vec<OperatorApproval>,
}

impl MilestoneNftContract {
    pub closed spec fn settings(&self) -> Option<Settings> {
        self.settings
    }

    pub closed spec fn tokens(&self) -> Seq<Token> {
        self.tokens@
    }

    pub closed spec fn operators(&self) -> Map<(Seq<char>, Seq<char>), OperatorApproval> {
        table_view(self.operators@, operator_key())
    }

    /// Whether token `token_id` has been minted.
    pub open spec fn has_token(&self, token_id: u32) -> bool {
        1 <= token_id <= self.tokens().len()
    }

    pub open spec fn token(&self, token_id: u32) -> Token {
        self.tokens()[token_id - 1]
    }

    /// The ledger's invariant: token ids fit in `u32` and each operator
    /// approval is held once.
    pub open spec fn wf(&self) -> bool {
        &&& self.tokens().len() <= u32::MAX
        &&& self.operators_wf()
        &&& forall|k: (Seq<char>, Seq<char>)| #[trigger]
            self.operators().contains_key(k) ==> self.operators()[k].owner@ == k.0
                && self.operators()[k].operator@ == k.1
    }

    pub closed spec fn operators_wf(&self) -> bool {
        keys_unique(self.operators@, operator_key())
    }

    /// An empty ledger, not yet initialized.
    pub fn new() -> (r: MilestoneNftContract)
        ensures
            r.wf(),
            r.settings() is None,
            r.tokens().len() == 0,
            r.operators().is_empty(),
    {
        let r = MilestoneNftContract { settings: None, tokens: Vec::new(), operators: Vec::new() };
        assert(r.operators() =~= Map::empty());
        r
    }

    /// Names the administrator, the collection and the escrow allowed to
    /// have credentials issued; only once. The administrator's authorization
    /// is established by the caller.
    pub fn initialize(
        &mut self,
        admin: String,
        name: String,
        symbol: String,
        base_uri: String,
        crowdfunding_contract: String,
    ) -> (r: Result<(), Error>)
        requires
            old(self).wf(),
        ensures
            final(self).wf(),
            if old(self).settings() is Some {
                r == Err::<(), Error>(Error::AlreadyInitialized) && *final(self) == *old(self)
            } else {
                &&& r == Ok::<(), Error>(())
                &&& final(self).settings() == Some(
                    Settings {
                        admin,
                        collection: CollectionMetadata { name, symbol, base_uri },
                        crowdfunding_contract,
                    },
                )
                &&& final(self).tokens() == old(self).tokens()
                &&& final(self).operators() == old(self).operators()
            },
    {
        if self.settings.is_some() {
            return Err(Error::AlreadyInitialized);
        }
        self.settings = Some(
            Settings {
                admin,
                collection: CollectionMetadata { name, symbol, base_uri },
                crowdfunding_contract,
            },
        );
        proof {
            assert(self.operators() == old(self).operators());
        }
        Ok(())
    }

    /// The error `mint_milestone` reports for `caller`, if any: only the
    /// administrator and the escrow may mint.
    pub open spec fn mint_error(&self, caller: Seq<char>) -> Option<Error> {
        match self.settings() {
            None => Some(Error::NotInitialized),
            Some(s) => if caller != s.admin@ && caller != s.crowdfunding_contract@ {
                Some(Error::Unauthorized)
            } else {
                None
            },
        }
    }

    /// Mints the next credential to `to` at ledger time `now`, not yet
    /// validated. Gives its token id, one more than the number minted
    /// before.
    pub fn mint_milestone(
        &mut self,
        caller: &String,
        to: String,
        uri: String,
        campaign_id: [u8; 32],
        proof_id: [u8; 32],
        description: String,
        now: u64,
    ) -> (r: Result<u32, Error>)
        requires
            old(self).wf(),
            old(self).tokens().len() < u32::MAX,
        ensures
            final(self).wf(),
            match old(self).mint_error(caller@) {
                Some(e) => r == Err::<u32, Error>(e) && *final(self) == *old(self),
                None => {
                    &&& r == Ok::<u32, Error>((old(self).tokens().len() + 1) as u32)
                    &&& final(self).tokens() == old(self).tokens().push(
                        Token {
                            metadata: TokenMetadata {
                                uri,
                                campaign_id,
                                proof_id,
                                description,
                                timestamp: now,
                                validated: false,
                            },
                            owner: to,
                            approved: None,
                        },
                    )
                    &&& final(self).settings() == old(self).settings()
                    &&& final(self).operators() == old(self).operators()
                },
            },
    {
        match &self.settings {
            None => {
                return Err(Error::NotInitialized);
            },
            Some(s) => {
                if *caller != s.admin && *caller != s.crowdfunding_contract {
                    return Err(Error::Unauthorized);
                }
            },
        }
        let token_id = self.tokens.len() as u32 + 1;
        self.tokens.push(
            Token {
                metadata: TokenMetadata {
                    uri,
                    campaign_id,
                    proof_id,
                    description,
                    timestamp: now,
                    validated: false,
                },
                owner: to,
                approved: None,
            },
        );
        proof {
            assert(self.operators() == old(self).operators());
        }
        Ok(token_id)
    }

    /// The error `create_milestone_from_proof` reports for `caller`, if any:
    /// only the escrow may have credentials issued this way.
    pub open spec fn issue_error(&self, caller: Seq<char>) -> Option<Error> {
        match self.settings() {
            None => Some(Error::InvalidCrowdfundingContract),
            Some(s) => if caller != s.crowdfunding_contract@ {
                Some(Error::Unauthorized)
            } else {
                None
            },
        }
    }

    /// Issues the credential of a validated milestone to `recipient`: a
    /// token that points to `MILESTONE_URI` and records the digests of the
    /// campaign and proof ids and the proof's description.
    pub fn create_milestone_from_proof(
        &mut self,
        caller: &String,
        campaign_id: [u8; 32],
        proof_id: [u8; 32],
        proof_uri: String,
        proof_description: String,
        recipient: String,
        now: u64,
    ) -> (r: Result<u32, Error>)
        requires
            old(self).wf(),
            old(self).tokens().len() < u32::MAX,
        ensures
            final(self).wf(),
            match old(self).issue_error(caller@) {
                Some(e) => r == Err::<u32, Error>(e) && *final(self) == *old(self),
                None => {
                    &&& r == Ok::<u32, Error>((old(self).tokens().len() + 1) as u32)
                    &&& final(self).tokens().len() == old(self).tokens().len() + 1
                    &&& final(self).tokens().drop_last() == old(self).tokens()
                    &&& final(self).tokens().last().owner == recipient
                    &&& final(self).tokens().last().approved is None
                    &&& final(self).tokens().last().metadata.uri@ == MILESTONE_URI@
                    &&& final(self).tokens().last().metadata.campaign_id == campaign_id
                    &&& final(self).tokens().last().metadata.proof_id == proof_id
                    &&& final(self).tokens().last().metadata.description == proof_description
                    &&& final(self).tokens().last().metadata.timestamp == now
                    &&& !final(self).tokens().last().metadata.validated
                    &&& final(self).settings() == old(self).settings()
                    &&& final(self).operators() == old(self).operators()
                },
            },
    {
        match &self.settings {
            None => {
                return Err(Error::InvalidCrowdfundingContract);
            },
            Some(s) => {
                if *caller != s.crowdfunding_contract {
                    return Err(Error::Unauthorized);
                }
            },
        }
        let milestone_uri = String::from_str(MILESTONE_URI);
        let r = self.mint_milestone(
            caller,
            recipient,
            milestone_uri,
            campaign_id,
            proof_id,
            proof_description,
            now,
        );
        proof {
            assert(self.tokens().drop_last() =~= old(self).tokens());
        }
        r
    }

    fn require_initialized(&self) -> (r: Result<(), Error>)
        ensures
            r == if self.settings() is Some {
                Ok::<(), Error>(())
            } else {
                Err::<(), Error>(Error::NotInitialized)
            },
    {
        if self.settings.is_none() {
            return Err(Error::NotInitialized);
        }
        Ok(())
    }

    /// The error of a read or write of token `token_id`, if any.
    pub open spec fn token_error(&self, token_id: u32) -> Option<Error> {
        if self.settings() is None {
            Some(Error::NotInitialized)
        } else if !self.has_token(token_id) {
            Some(Error::TokenNotFound)
        } else {
            None
        }
    }

    fn check_token(&self, token_id: u32) -> (r: Result<usize, Error>)
        ensures
            match self.token_error(token_id) {
                Some(e) => r == Err::<usize, Error>(e),
                None => r == Ok::<usize, Error>((token_id - 1) as usize),
            },
    {
        self.require_initialized()?;
        if token_id == 0 || token_id as usize > self.tokens.len() {
            return Err(Error::TokenNotFound);
        }
        Ok(token_id as usize - 1)
    }

    /// The administrator confirms the milestone of token `token_id`.
    pub fn validate_milestone(&mut self, caller: &String, token_id: u32) -> (r: Result<(), Error>)
        requires
            old(self).wf(),
        ensures
            final(self).wf(),
            if old(self).settings() is None {
                r == Err::<(), Error>(Error::NotInitialized) && *final(self) == *old(self)
            } else if old(self).settings()->Some_0.admin@ != caller@ {
                r == Err::<(), Error>(Error::Unauthorized) && *final(self) == *old(self)
            } else if !old(self).has_token(token_id) {
                r == Err::<(), Error>(Error::TokenNotFound) && *final(self) == *old(self)
            } else {
                let t = old(self).token(token_id);
                &&& r == Ok::<(), Error>(())
                &&& final(self).tokens() == old(self).tokens().update(
                    token_id - 1,
                    (Token { metadata: (TokenMetadata { validated: true, ..t.metadata }), ..t }),
                )
                &&& final(self).settings() == old(self).settings()
                &&& final(self).operators() == old(self).operators()
            },
    {
        match &self.settings {
            None => {
                return Err(Error::NotInitialized);
            },
            Some(s) => {
                if s.admin != *caller {
                    return Err(Error::Unauthorized);
                }
            },
        }
        let i = self.check_token(token_id)?;
        let mut t = Token {
            metadata: copy_metadata(&self.tokens[i].metadata),
            owner: self.tokens[i].owner.clone(),
            approved: copy_opt_string(&self.tokens[i].approved),
        };
        t.metadata.validated = true;
        self.tokens.set(i, t);
        proof {
            assert(self.operators() == old(self).operators());
        }
        Ok(())
    }

    /// What token `token_id` records.
    pub fn get_token_metadata(&self, token_id: u32) -> (r: Result<TokenMetadata, Error>)
        ensures
            r == match self.token_error(token_id) {
                Some(e) => Err::<TokenMetadata, Error>(e),
                None => Ok::<TokenMetadata, Error>(self.token(token_id).metadata),
            },
    {
        let i = self.check_token(token_id)?;
        Ok(copy_metadata(&self.tokens[i].metadata))
    }

    /// The address token `token_id` points to.
    pub fn token_uri(&self, token_id: u32) -> (r: Result<String, Error>)
        ensures
            r == match self.token_error(token_id) {
                Some(e) => Err::<String, Error>(e),
                None => Ok::<String, Error>(self.token(token_id).metadata.uri),
            },
    {
        let i = self.check_token(token_id)?;
        Ok(self.tokens[i].metadata.uri.clone())
    }

    /// The owner of token `token_id`.
    pub fn owner_of(&self, token_id: u32) -> (r: Result<String, Error>)
        ensures
            r == match self.token_error(token_id) {
                Some(e) => Err::<String, Error>(e),
                None => Ok::<String, Error>(self.token(token_id).owner),
            },
    {
        let i = self.check_token(token_id)?;
        Ok(self.tokens[i].owner.clone())
    }

    /// How many tokens `owner` holds.
    pub fn balance_of(&self, owner: &String) -> (r: u32)
        requires
            self.wf(),
        ensures
            r == owned_count(self.tokens(), owner@),
    {
        let mut count: u32 = 0;
        let mut i: usize = 0;
        while i < self.tokens.len()
            invariant
                self.wf(),
                i <= self.tokens@.len(),
                count == owned_count(self.tokens@.take(i as int), owner@),
            decreases self.tokens@.len() - i,
        {
            proof {
                assert(self.tokens@.take(i + 1).drop_last() =~= self.tokens@.take(i as int));
                lemma_owned_count_bound(self.tokens@.take(i + 1), owner@);
            }
            if self.tokens[i].owner == *owner {
                count = count + 1;
            }
            i = i + 1;
        }
        proof {
            assert(self.tokens@.take(i as int) =~= self.tokens@);
        }
        count
    }

    /// The name, symbol and base address of the collection.
    pub fn get_collection_metadata(&self) -> (r: Result<CollectionMetadata, Error>)
        ensures
            r == match self.settings() {
                None => Err::<CollectionMetadata, Error>(Error::NotInitialized),
                Some(s) => Ok::<CollectionMetadata, Error>(s.collection),
            },
    {
        match &self.settings {
            None => Err(Error::NotInitialized),
            Some(s) => Ok(
                CollectionMetadata {
                    name: s.collection.name.clone(),
                    symbol: s.collection.symbol.clone(),
                    base_uri: s.collection.base_uri.clone(),
                },
            ),
        }
    }

    /// How many tokens have been minted.
    pub fn total_supply(&self) -> (r: u32)
        requires
            self.wf(),
        ensures
            r == self.tokens().len(),
    {
        self.tokens.len() as u32
    }

    fn find_operator(&self, owner: &String, operator: &String) -> (r: Option<usize>)
        requires
            self.wf(),
        ensures
            match r {
                Some(i) => i < self.operators@.len() && self.operators@[i as int]
                    == self.operators()[(owner@, operator@)] && self.operators().contains_key(
                    (owner@, operator@),
                ),
                None => !self.operators().contains_key((owner@, operator@)),
            },
    {
        let mut i: usize = 0;
        while i < self.operators.len()
            invariant
                self.wf(),
                i <= self.operators@.len(),
                forall|j: int|
                    0 <= j < i ==> operator_key()(self.operators@[j]) != (owner@, operator@),
            decreases self.operators@.len() - i,
        {
            if self.operators[i].owner == *owner && self.operators[i].operator == *operator {
                proof {
                    lemma_view_at(self.operators@, operator_key(), i as int);
                }
                return Some(i);
            }
            i = i + 1;
        }
        proof {
            lemma_view_absent(self.operators@, operator_key(), (owner@, operator@));
        }
        None
    }

    /// Whether `operator` may move every token of `owner`.
    pub open spec fn operator_allowed(&self, owner: Seq<char>, operator: Seq<char>) -> bool {
        self.operators().contains_key((owner, operator)) && self.operators()[(owner, operator)].approved
    }

    /// Whether `caller` may move token `t`: it is the owner, the token's
    /// approved identity, or an operator of the owner.
    pub open spec fn may_move(&self, caller: Seq<char>, t: Token) -> bool {
        ||| caller == t.owner@
        ||| (t.approved is Some && t.approved->Some_0@ == caller)
        ||| self.operator_allowed(t.owner@, caller)
    }

    /// The error `transfer_from` reports, if any.
    pub open spec fn transfer_error(&self, caller: Seq<char>, from: Seq<char>, token_id: u32) -> Option<
        Error,
    > {
        if self.token_error(token_id) is Some {
            self.token_error(token_id)
        } else if self.token(token_id).owner@ != from {
            Some(Error::NotOwner)
        } else if !self.may_move(caller, self.token(token_id)) {
            Some(Error::NotApproved)
        } else {
            None
        }
    }

    /// Moves token `token_id` from `from`, whose authorization the caller
    /// has established, to `to`, on behalf of `caller`. The token's
    /// approval is cleared.
    pub fn transfer_from(&mut self, caller: &String, from: &String, to: String, token_id: u32) -> (r:
        Result<(), Error>)
        requires
            old(self).wf(),
        ensures
            final(self).wf(),
            match old(self).transfer_error(caller@, from@, token_id) {
                Some(e) => r == Err::<(), Error>(e) && *final(self) == *old(self),
                None => {
                    let t = old(self).token(token_id);
                    &&& r == Ok::<(), Error>(())
                    &&& final(self).tokens() == old(self).tokens().update(
                        token_id - 1,
                        (Token { owner: to, approved: None, ..t }),
                    )
                    &&& final(self).settings() == old(self).settings()
                    &&& final(self).operators() == old(self).operators()
                },
            },
    {
        let i = self.check_token(token_id)?;
        if self.tokens[i].owner != *from {
            return Err(Error::NotOwner);
        }
        let by_owner = *caller == self.tokens[i].owner;
        let by_approval = match &self.tokens[i].approved {
            Some(a) => *a == *caller,
            None => false,
        };
        let by_operator = match self.find_operator(&self.tokens[i].owner, caller) {
            Some(j) => self.operators[j].approved,
            None => false,
        };
        if !(by_owner || by_approval || by_operator) {
            return Err(Error::NotApproved);
        }
        let t = Token { metadata: copy_metadata(&self.tokens[i].metadata), owner: to, approved: None };
        self.tokens.set(i, t);
        proof {
            assert(self.operators() == old(self).operators());
        }
        Ok(())
    }

    /// Lets `to` move token `token_id`; `caller` must be its owner.
    pub fn approve(&mut self, caller: &String, to: String, token_id: u32) -> (r: Result<(), Error>)
        requires
            old(self).wf(),
        ensures
            final(self).wf(),
            if old(self).token_error(token_id) is Some {
                r == Err::<(), Error>(old(self).token_error(token_id)->Some_0) && *final(self)
                    == *old(self)
            } else if old(self).token(token_id).owner@ != caller@ {
                r == Err::<(), Error>(Error::Unauthorized) && *final(self) == *old(self)
            } else {
                let t = old(self).token(token_id);
                &&& r == Ok::<(), Error>(())
                &&& final(self).tokens() == old(self).tokens().update(
                    token_id - 1,
                    (Token { approved: Some(to), ..t }),
                )
                &&& final(self).settings() == old(self).settings()
                &&& final(self).operators() == old(self).operators()
            },
    {
        let i = self.check_token(token_id)?;
        if self.tokens[i].owner != *caller {
            return Err(Error::Unauthorized);
        }
        let t = Token {
            metadata: copy_metadata(&self.tokens[i].metadata),
            owner: self.tokens[i].owner.clone(),
            approved: Some(to),
        };
        self.tokens.set(i, t);
        proof {
            assert(self.operators() == old(self).operators());
        }
        Ok(())
    }

    /// The identity allowed to move token `token_id`, if any.
    pub fn get_approved(&self, token_id: u32) -> (r: Result<Option<String>, Error>)
        ensures
            r == match self.token_error(token_id) {
                Some(e) => Err::<Option<String>, Error>(e),
                None => Ok::<Option<String>, Error>(self.token(token_id).approved),
            },
    {
        let i = self.check_token(token_id)?;
        Ok(copy_opt_string(&self.tokens[i].approved))
    }

    /// Lets `operator` move every token of `caller`, or stops it.
    pub fn set_approval_for_all(&mut self, caller: &String, operator: String, approved: bool) -> (r:
        Result<(), Error>)
        requires
            old(self).wf(),
        ensures
            final(self).wf(),
            if old(self).settings() is None {
                r == Err::<(), Error>(Error::NotInitialized) && *final(self) == *old(self)
            } else {
                &&& r == Ok::<(), Error>(())
                &&& final(self).operators() == old(self).operators().insert(
                    (caller@, operator@),
                    OperatorApproval { owner: *caller, operator, approved },
                )
                &&& final(self).settings() == old(self).settings()
                &&& final(self).tokens() == old(self).tokens()
            },
    {
        self.require_initialized()?;
        let found = self.find_operator(caller, &operator);
        let record = OperatorApproval { owner: caller.clone(), operator, approved };
        match found {
            Some(j) => {
                proof {
                    lemma_view_update(self.operators@, operator_key(), j as int, record);
                }
                self.operators.set(j, record);
            },
            None => {
                proof {
                    lemma_view_push(self.operators@, operator_key(), record);
                }
                self.operators.push(record);
            },
        }
        Ok(())
    }

    /// Whether `operator` may move every token of `owner`.
    pub fn is_approved_for_all(&self, owner: &String, operator: &String) -> (r: bool)
        requires
            self.wf(),
        ensures
            r == self.operator_allowed(owner@, operator@),
    {
        match self.find_operator(owner, operator) {
            Some(j) => self.operators[j].approved,
            None => false,
        }
    }

    /// Names another escrow allowed to have credentials issued; `caller`
    /// must be the administrator.
    pub fn update_crowdfunding_contract(&mut self, caller: &String, new_contract: String) -> (r:
        Result<(), Error>)
        requires
            old(self).wf(),
        ensures
            final(self).wf(),
            match old(self).settings() {
                None => r == Err::<(), Error>(Error::NotInitialized) && *final(self) == *old(self),
                Some(s) => if s.admin@ != caller@ {
                    r == Err::<(), Error>(Error::Unauthorized) && *final(self) == *old(self)
                } else {
                    &&& r == Ok::<(), Error>(())
                    &&& final(self).settings() == Some(
                        Settings { crowdfunding_contract: new_contract, ..s },
                    )
                    &&& final(self).tokens() == old(self).tokens()
                    &&& final(self).operators() == old(self).operators()
                },
            },
    {
        let updated = match &self.settings {
            None => {
                return Err(Error::NotInitialized);
            },
            Some(s) => {
                if s.admin != *caller {
                    return Err(Error::Unauthorized);
                }
                Settings {
                    admin: s.admin.clone(),
                    collection: CollectionMetadata {
                        name: s.collection.name.clone(),
                        symbol: s.collection.symbol.clone(),
                        base_uri: s.collection.base_uri.clone(),
                    },
                    crowdfunding_contract: new_contract,
                }
            },
        };
        self.settings = Some(updated);
        proof {
            assert(self.operators() == old(self).operators());
        }
        Ok(())
    }

    /// The ids of the tokens minted for the campaign with digest
    /// `campaign_id`, in order.
    pub fn get_campaign_milestones(&self, campaign_id: &[u8; 32]) -> (r: Result<Vec<u32>, Error>)
        requires
            self.wf(),
        ensures
            if self.settings() is None {
                r == Err::<Vec<u32>, Error>(Error::NotInitialized)
            } else {
                r is Ok && r->Ok_0@ == campaign_token_ids(self.tokens(), campaign_id@)
            },
    {
        self.require_initialized()?;
        let mut ids: Vec<u32> = Vec::new();
        let mut i: usize = 0;
        while i < self.tokens.len()
            invariant
                self.wf(),
                i <= self.tokens@.len(),
                ids@ == campaign_token_ids(self.tokens@.take(i as int), campaign_id@),
            decreases self.tokens@.len() - i,
        {
            proof {
                assert(self.tokens@.take(i + 1).drop_last() =~= self.tokens@.take(i as int));
            }
            if same_digest(&self.tokens[i].metadata.campaign_id, campaign_id) {
                ids.push(i as u32 + 1);
            }
            i = i + 1;
        }
        proof {
            assert(self.tokens@.take(i as int) =~= self.tokens@);
        }
        Ok(ids)
    }

    /// For the campaign with digest `campaign_id`: how many of its tokens
    /// are validated, and how many it has.
    pub fn get_campaign_milestone_progress(&self, campaign_id: &[u8; 32]) -> (r: Result<
        (u32, u32),
        Error,
    >)
        requires
            self.wf(),
        ensures
            r == if self.settings() is None {
                Err::<(u32, u32), Error>(Error::NotInitialized)
            } else {
                Ok::<(u32, u32), Error>(
                    (
                        validated_count(self.tokens(), campaign_id@) as u32,
                        campaign_token_ids(self.tokens(), campaign_id@).len() as u32,
                    ),
                )
            },
    {
        self.require_initialized()?;
        let mut validated: u32 = 0;
        let mut total: u32 = 0;
        let mut i: usize = 0;
        while i < self.tokens.len()
            invariant
                self.wf(),
                i <= self.tokens@.len(),
                validated == validated_count(self.tokens@.take(i as int), campaign_id@),
                total == campaign_token_ids(self.tokens@.take(i as int), campaign_id@).len(),
            decreases self.tokens@.len() - i,
        {
            proof {
                assert(self.tokens@.take(i + 1).drop_last() =~= self.tokens@.take(i as int));
                lemma_campaign_counts_bound(self.tokens@.take(i + 1), campaign_id@);
            }
            if same_digest(&self.tokens[i].metadata.campaign_id, campaign_id) {
                total = total + 1;
                if self.tokens[i].metadata.validated {
                    validated = validated + 1;
                }
            }
            i = i + 1;
        }
        proof {
            assert(self.tokens@.take(i as int) =~= self.tokens@);
        }
        Ok((validated, total))
    }

    /// Whether a token has been minted for the proof with digest `proof_id`.
    pub fn proof_has_milestone(&self, proof_id: &[u8; 32]) -> (r: Result<bool, Error>)
        requires
            self.wf(),
        ensures
            r == if self.settings() is None {
                Err::<bool, Error>(Error::NotInitialized)
            } else {
                Ok::<bool, Error>(has_proof_token(self.tokens(), proof_id@))
            },
    {
        self.require_initialized()?;
        let mut i: usize = 0;
        while i < self.tokens.len()
            invariant
                self.wf(),
                i <= self.tokens@.len(),
                self.settings() is Some,
                forall|j: int| 0 <= j < i ==> self.tokens@[j].metadata.proof_id@ != proof_id@,
            decreases self.tokens@.len() - i,
        {
            if same_digest(&self.tokens[i].metadata.proof_id, proof_id) {
                proof {
                    assert(self.tokens()[i as int].metadata.proof_id@ == proof_id@);
                }
                return Ok(true);
            }
            i = i + 1;
        }
        Ok(false)
    }
}

} // verus!
