//! The registry: listings, challenges, polls and votes, and the rules that
//! move a listing from application to acceptance or rejection.
//!
//! [`Registry`] is the mathematical state, with one transition function per
//! operation; each takes the ledger along, because stakes are escrowed there.
//! [`Module`] is the executable state; each of its operations performs
//! exactly the transition of the same name, or fails and changes nothing.

use crate::primitives::{AccountId, Balance, Error, ListingHash, Moment, MAX_DATA_LEN};
use crate::table::Table;
use crate::token;
use vstd::prelude::*;

pub mod backing;
pub mod history;
pub mod registry;
pub mod validity;

pub use history::Action;
pub use registry::{payout, reward_share, Registry};

verus! {

/// A candidate entry under curation. `U` is the token amount, `V` the
/// account and `W` the time.
#[derive(Clone, Debug, Default, PartialEq)]
pub struct Listing<U, V, W> {
    /// Sequential number, assigned at proposal.
    pub id: u32,
    /// The opaque payload whose content hash identifies the listing.
    pub data: Vec<u8>,
    /// The stake posted by the proposer.
    pub deposit: U,
    /// The proposer.
    pub owner: V,
    /// End of the apply window.
    pub application_expiry: W,
    /// Whether the listing has been accepted into the registry.
    pub whitelisted: bool,
    /// The listing's challenge; zero while it has none.
    pub challenge_id: u32,
}

/// A staked dispute against a listing. `T` is the listing hash, `U` the
/// token amount, `V` the account and `W` the time.
#[derive(Clone, Copy, Debug, Default, PartialEq)]
pub struct Challenge<T, U, V, W> {
    /// The disputed listing.
    pub listing_hash: T,
    /// The challenger's stake.
    pub deposit: U,
    /// The challenger.
    pub owner: V,
    /// End of the commit window.
    pub voting_ends: W,
    /// Whether the outcome has been determined.
    pub resolved: bool,
    /// The losing side's tally, to be shared among the winning voters.
    pub reward_pool: U,
    /// The winning side's tally, by which the pool is divided.
    pub total_tokens: U,
}

/// One account's vote in one poll. `U` is the token amount.
#[derive(Clone, Copy, Debug, Default, PartialEq)]
pub struct Vote<U> {
    /// `true` backs the listing, `false` backs the challenger.
    pub value: bool,
    /// The stake committed to the vote.
    pub deposit: U,
    /// Whether the voter has withdrawn its payout.
    pub claimed: bool,
}

/// The tally paired with a challenge. `T` is the listing hash and `U` the
/// token amount.
#[derive(Clone, Copy, Debug, Default, PartialEq)]
pub struct Poll<T, U> {
    /// The disputed listing.
    pub listing_hash: T,
    /// Tokens staked for the listing, its own deposit included.
    pub votes_for: U,
    /// Tokens staked against the listing, the challenger's deposit included.
    pub votes_against: U,
    /// Whether the listing prevailed; meaningful once resolved.
    pub passed: bool,
}

/// A listing as the registry stores it.
pub type ListingRecord = Listing<Balance, AccountId, Moment>;

/// A challenge as the registry stores it.
pub type ChallengeRecord = Challenge<ListingHash, Balance, AccountId, Moment>;

/// A vote as the registry stores it.
pub type VoteRecord = Vote<Balance>;

/// A poll as the registry stores it.
pub type PollRecord = Poll<ListingHash, Balance>;

/// What a successful registry operation reports to observers.
#[derive(Clone, Copy, Debug, PartialEq, Eq)]
pub enum Event {
    /// `Proposed(owner, listing_hash, deposit)`
    Proposed(AccountId, ListingHash, Balance),
    /// `Challenged(owner, listing_hash, poll_id, deposit)`
    Challenged(AccountId, ListingHash, u32, Balance),
    /// `Voted(voter, poll_id, deposit)`
    Voted(AccountId, u32, Balance),
    /// `Resolved(listing_hash, poll_id)`
    Resolved(ListingHash, u32),
    /// `Accepted(listing_hash)`
    Accepted(ListingHash),
    /// `Rejected(listing_hash)`
    Rejected(ListingHash),
    /// `Claimed(voter, poll_id)`
    Claimed(AccountId, u32),
}

/// The registry's executable state.
pub struct Module {
    min_deposit: Option<Balance>,
    apply_stage_len: Option<Moment>,
    commit_stage_len: Option<Moment>,
    listings: Table<ListingHash, ListingRecord>,
    listing_count: u32,
    index_hash: Table<u32, ListingHash>,
    poll_nonce: u32,
    challenges: Table<u32, ChallengeRecord>,
    polls: Table<u32, PollRecord>,
    votes: Table<(u32, AccountId), VoteRecord>,
}

impl View for Module {
    type V = Registry;

    closed spec fn view(&self) -> Registry {
        Registry {
            min_deposit: self.min_deposit,
            apply_stage_len: self.apply_stage_len,
            commit_stage_len: self.commit_stage_len,
            listings: self.listings@,
            listing_count: self.listing_count,
            index_hash: self.index_hash@,
            poll_nonce: self.poll_nonce,
            challenges: self.challenges@,
            polls: self.polls@,
            votes: self.votes@,
        }
    }
}

impl Module {
    /// The stored tables hold each key once.
    pub closed spec fn well_stored(&self) -> bool {
        &&& self.listings.wf()
        &&& self.index_hash.wf()
        &&& self.challenges.wf()
        &&& self.polls.wf()
        &&& self.votes.wf()
    }

    /// The invariant of every registry: it is well stored and valid.
    pub open spec fn wf(&self) -> bool {
        &&& self.well_stored()
        &&& self@.valid()
    }

    /// An empty registry with the given configuration.
    pub fn new(
        min_deposit: Option<Balance>,
        apply_stage_len: Option<Moment>,
        commit_stage_len: Option<Moment>,
    ) -> (registry: Module)
        ensures
            registry.wf(),
            registry@ == Registry::genesis(min_deposit, apply_stage_len, commit_stage_len),
    {
        Module {
            min_deposit,
            apply_stage_len,
            commit_stage_len,
            listings: Table::new(),
            listing_count: 0,
            index_hash: Table::new(),
            poll_nonce: 1,
            challenges: Table::new(),
            polls: Table::new(),
            votes: Table::new(),
        }
    }

    /// Smallest stake a proposal may post.
    pub fn min_deposit(&self) -> (configured: Option<Balance>)
        ensures
            configured == self@.min_deposit,
    {
        self.min_deposit
    }

    /// Length of the apply window.
    pub fn apply_stage_len(&self) -> (configured: Option<Moment>)
        ensures
            configured == self@.apply_stage_len,
    {
        self.apply_stage_len
    }

    /// Length of the commit window.
    pub fn commit_stage_len(&self) -> (configured: Option<Moment>)
        ensures
            configured == self@.commit_stage_len,
    {
        self.commit_stage_len
    }

    /// Number of listings ever proposed.
    pub fn listing_count(&self) -> (count: u32)
        ensures
            count == self@.listing_count,
    {
        self.listing_count
    }

    /// The id that the next challenge will get.
    pub fn poll_nonce(&self) -> (nonce: u32)
        ensures
            nonce == self@.poll_nonce,
    {
        self.poll_nonce
    }

    /// The content hash of the listing with the given id.
    pub fn index_hash(&self, listing_id: u32) -> (found: Option<ListingHash>)
        requires
            self.wf(),
        ensures
            found == (if self@.index_hash.contains_key(listing_id) {
                Some(self@.index_hash[listing_id])
            } else {
                None
            }),
    {
        match self.index_hash.get(&listing_id) {
            Some(listing_hash) => Some(*listing_hash),
            None => None,
        }
    }

    /// The listing stored under `listing_hash`.
    pub fn listings(&self, listing_hash: &ListingHash) -> (found: Option<&ListingRecord>)
        requires
            self.wf(),
        ensures
            (match found {
                Some(listing) => self@.listings.contains_key(*listing_hash) && *listing
                    == self@.listings[*listing_hash],
                None => !self@.listings.contains_key(*listing_hash),
            }),
    {
        self.listings.get(listing_hash)
    }

    /// The challenge with the given id.
    pub fn challenges(&self, poll_nonce: u32) -> (found: Option<&ChallengeRecord>)
        requires
            self.wf(),
        ensures
            (match found {
                Some(challenge) => self@.challenges.contains_key(poll_nonce) && *challenge
                    == self@.challenges[poll_nonce],
                None => !self@.challenges.contains_key(poll_nonce),
            }),
    {
        self.challenges.get(&poll_nonce)
    }

    /// The poll of the challenge with the given id.
    pub fn polls(&self, poll_nonce: u32) -> (found: Option<&PollRecord>)
        requires
            self.wf(),
        ensures
            (match found {
                Some(poll) => self@.polls.contains_key(poll_nonce) && *poll
                    == self@.polls[poll_nonce],
                None => !self@.polls.contains_key(poll_nonce),
            }),
    {
        self.polls.get(&poll_nonce)
    }

    /// The vote that `voter` cast in the given poll.
    pub fn votes(&self, poll_nonce: u32, voter: AccountId) -> (found: Option<&VoteRecord>)
        requires
            self.wf(),
        ensures
            (match found {
                Some(vote) => self@.votes.contains_key((poll_nonce, voter)) && *vote
                    == self@.votes[(poll_nonce, voter)],
                None => !self@.votes.contains_key((poll_nonce, voter)),
            }),
    {
        self.votes.get(&(poll_nonce, voter))
    }

    /// `sender` applies for a listing of `data` and stakes `deposit` on it.
    /// `listing_hash` is the content hash of `data`, computed by the host;
    /// it identifies the listing and its escrow.
    pub fn propose(
        &mut self,
        token: &mut token::Module,
        sender: AccountId,
        now: Moment,
        data: Vec<u8>,
        listing_hash: ListingHash,
        deposit: Balance,
    ) -> (done: Result<Event, Error>)
        requires
            old(self).wf(),
            old(token).wf(),
        ensures
            final(self).wf(),
            final(token).wf(),
            old(self)@.backed_by(old(token)@) ==> final(self)@.backed_by(final(token)@),
            (match old(self)@.propose(old(token)@, sender, now, data, listing_hash, deposit) {
                Ok((registry, ledger)) => {
                    &&& done == Ok::<Event, Error>(Event::Proposed(sender, listing_hash, deposit))
                    &&& final(self)@ == registry
                    &&& final(token)@ == ledger
                },
                Err(e) => {
                    &&& done == Err::<Event, Error>(e)
                    &&& *final(self) == *old(self)
                    &&& *final(token) == *old(token)
                },
            }),
    {
        if data.len() > MAX_DATA_LEN {
            return Err(Error::InvalidInput);
        }
        let min_deposit = match self.min_deposit {
            Some(amount) => amount,
            None => { return Err(Error::InvalidInput); },
        };
        if deposit < min_deposit {
            return Err(Error::DepositTooLow);
        }
        let apply_stage_len = match self.apply_stage_len {
            Some(length) => length,
            None => { return Err(Error::InvalidInput); },
        };
        let app_exp = match now.checked_add(apply_stage_len) {
            Some(end) => end,
            None => { return Err(Error::Overflow); },
        };
        if self.listings.contains_key(&listing_hash) {
            return Err(Error::AlreadyExists);
        }
        let listing_id = self.listing_count;
        let next_id = match listing_id.checked_add(1) {
            Some(id) => id,
            None => { return Err(Error::Overflow); },
        };
        token.lock(&sender, deposit, &listing_hash)?;
        proof {
            self@.lemma_propose_valid(old(token)@, sender, now, data, listing_hash, deposit);
            if self@.backed_by(old(token)@) {
                self@.lemma_propose_backed(old(token)@, sender, now, data, listing_hash, deposit);
            }
        }
        let listing = Listing {
            id: listing_id,
            data,
            deposit,
            owner: sender,
            application_expiry: app_exp,
            whitelisted: false,
            challenge_id: 0,
        };
        self.listing_count = next_id;
        self.listings.insert(listing_hash, listing);
        self.index_hash.insert(listing_id, listing_hash);
        Ok(Event::Proposed(sender, listing_hash, deposit))
    }

    /// `sender` disputes the listing with the given id and stakes `deposit`
    /// against it. The listing's deposit and the challenger's are the first
    /// votes of the new poll.
    pub fn challenge(
        &mut self,
        token: &mut token::Module,
        sender: AccountId,
        now: Moment,
        listing_id: u32,
        deposit: Balance,
    ) -> (done: Result<Event, Error>)
        requires
            old(self).wf(),
            old(token).wf(),
        ensures
            final(self).wf(),
            final(token).wf(),
            old(self)@.backed_by(old(token)@) ==> final(self)@.backed_by(final(token)@),
            (match old(self)@.challenge(old(token)@, sender, now, listing_id, deposit) {
                Ok((registry, ledger)) => {
                    &&& done == Ok::<Event, Error>(
                        Event::Challenged(
                            sender,
                            old(self)@.index_hash[listing_id],
                            old(self)@.poll_nonce,
                            deposit,
                        ),
                    )
                    &&& final(self)@ == registry
                    &&& final(token)@ == ledger
                },
                Err(e) => {
                    &&& done == Err::<Event, Error>(e)
                    &&& *final(self) == *old(self)
                    &&& *final(token) == *old(token)
                },
            }),
    {
        let listing_hash = match self.index_hash.get(&listing_id) {
            Some(stored) => *stored,
            None => { return Err(Error::NotFound); },
        };
        let (challenge_id, owner, listing_deposit, application_expiry) = match self.listings.get(
            &listing_hash,
        ) {
            Some(listing) => (
                listing.challenge_id,
                listing.owner,
                listing.deposit,
                listing.application_expiry,
            ),
            None => { return Err(Error::NotFound); },
        };
        if challenge_id != 0 {
            return Err(Error::AlreadyChallenged);
        }
        if owner == sender {
            return Err(Error::SelfChallenge);
        }
        if deposit < listing_deposit {
            return Err(Error::DepositTooLow);
        }
        let commit_stage_len = match self.commit_stage_len {
            Some(length) => length,
            None => { return Err(Error::InvalidInput); },
        };
        let voting_exp = match now.checked_add(commit_stage_len) {
            Some(end) => end,
            None => { return Err(Error::Overflow); },
        };
        if application_expiry <= now {
            return Err(Error::StageExpired);
        }
        let poll_nonce = self.poll_nonce;
        let next_nonce = match poll_nonce.checked_add(1) {
            Some(nonce) => nonce,
            None => { return Err(Error::Overflow); },
        };
        token.lock(&sender, deposit, &listing_hash)?;
        proof {
            self@.lemma_challenge_valid(old(token)@, sender, now, listing_id, deposit);
            if self@.backed_by(old(token)@) {
                self@.lemma_challenge_backed(old(token)@, sender, now, listing_id, deposit);
            }
        }
        let challenge = Challenge {
            listing_hash,
            deposit,
            owner: sender,
            voting_ends: voting_exp,
            resolved: false,
            reward_pool: 0,
            total_tokens: 0,
        };
        let poll = Poll {
            listing_hash,
            votes_for: listing_deposit,
            votes_against: deposit,
            passed: false,
        };
        self.challenges.insert(poll_nonce, challenge);
        self.polls.insert(poll_nonce, poll);
        match self.listings.remove(&listing_hash) {
            Some(listing) => {
                self.listings.insert(listing_hash, Listing { challenge_id: poll_nonce, ..listing });
            },
            None => {},
        }
        self.poll_nonce = next_nonce;
        assert(self.listings@ =~= old(self).listings@.insert(
            listing_hash,
            Listing { challenge_id: poll_nonce, ..old(self).listings@[listing_hash] },
        ));
        Ok(Event::Challenged(sender, listing_hash, poll_nonce, deposit))
    }

    /// `sender` stakes `deposit` for (`value` true) or against the listing
    /// disputed in the given poll. The stake is escrowed with the listing's.
    pub fn vote(
        &mut self,
        token: &mut token::Module,
        sender: AccountId,
        now: Moment,
        poll_nonce: u32,
        value: bool,
        deposit: Balance,
    ) -> (done: Result<Event, Error>)
        requires
            old(self).wf(),
            old(token).wf(),
        ensures
            final(self).wf(),
            final(token).wf(),
            old(self)@.backed_by(old(token)@) ==> final(self)@.backed_by(final(token)@),
            (match old(self)@.vote(old(token)@, sender, now, poll_nonce, value, deposit) {
                Ok((registry, ledger)) => {
                    &&& done == Ok::<Event, Error>(Event::Voted(sender, poll_nonce, deposit))
                    &&& final(self)@ == registry
                    &&& final(token)@ == ledger
                },
                Err(e) => {
                    &&& done == Err::<Event, Error>(e)
                    &&& *final(self) == *old(self)
                    &&& *final(token) == *old(token)
                },
            }),
    {
        let (resolved, voting_ends, listing_hash) = match self.challenges.get(&poll_nonce) {
            Some(challenge) => (challenge.resolved, challenge.voting_ends, challenge.listing_hash),
            None => { return Err(Error::NotFound); },
        };
        let (votes_for, votes_against, passed) = match self.polls.get(&poll_nonce) {
            Some(poll) => (poll.votes_for, poll.votes_against, poll.passed),
            None => { return Err(Error::NotFound); },
        };
        if resolved {
            return Err(Error::AlreadyResolved);
        }
        if voting_ends <= now {
            return Err(Error::StageExpired);
        }
        if self.votes.contains_key(&(poll_nonce, sender)) {
            return Err(Error::AlreadyVoted);
        }
        let tally = if value {
            votes_for
        } else {
            votes_against
        };
        let raised = match tally.checked_add(deposit) {
            Some(sum) => sum,
            None => { return Err(Error::Overflow); },
        };
        token.lock(&sender, deposit, &listing_hash)?;
        proof {
            self@.lemma_vote_valid(old(token)@, sender, now, poll_nonce, value, deposit);
            if self@.backed_by(old(token)@) {
                self@.lemma_vote_backed(old(token)@, sender, now, poll_nonce, value, deposit);
            }
        }
        let poll = if value {
            Poll { listing_hash, votes_for: raised, votes_against, passed }
        } else {
            Poll { listing_hash, votes_for, votes_against: raised, passed }
        };
        self.votes.insert((poll_nonce, sender), Vote { value, deposit, claimed: false });
        self.polls.insert(poll_nonce, poll);
        Ok(Event::Voted(sender, poll_nonce, deposit))
    }

    /// Determines the outcome of the challenge against the listing with the
    /// given id, once its commit window has closed. The listing is accepted
    /// only with strictly more tokens for it than against it. The winner of
    /// the two seed stakes gets its deposit back; the loser's stays in escrow
    /// as part of the reward pool. Reports `Resolved`, then `Accepted` or
    /// `Rejected`.
    pub fn resolve(&mut self, token: &mut token::Module, now: Moment, listing_id: u32) -> (done:
        Result<(Event, Event), Error>)
        requires
            old(self).wf(),
            old(token).wf(),
        ensures
            final(self).wf(),
            final(token).wf(),
            old(self)@.backed_by(old(token)@) ==> final(self)@.backed_by(final(token)@),
            (match old(self)@.resolve(old(token)@, now, listing_id) {
                Ok((registry, ledger)) => {
                    let listing_hash = old(self)@.index_hash[listing_id];
                    let poll_nonce = old(self)@.listings[listing_hash].challenge_id;
                    &&& done == Ok::<(Event, Event), Error>(
                        (
                            Event::Resolved(listing_hash, poll_nonce),
                            if registry.polls[poll_nonce].passed {
                                Event::Accepted(listing_hash)
                            } else {
                                Event::Rejected(listing_hash)
                            },
                        ),
                    )
                    &&& final(self)@ == registry
                    &&& final(token)@ == ledger
                },
                Err(e) => {
                    &&& done == Err::<(Event, Event), Error>(e)
                    &&& *final(self) == *old(self)
                    &&& *final(token) == *old(token)
                },
            }),
    {
        let listing_hash = match self.index_hash.get(&listing_id) {
            Some(stored) => *stored,
            None => { return Err(Error::NotFound); },
        };
        let (poll_nonce, listing_owner, listing_deposit) = match self.listings.get(&listing_hash) {
            Some(listing) => (listing.challenge_id, listing.owner, listing.deposit),
            None => { return Err(Error::NotFound); },
        };
        let (challenger, challenge_deposit, voting_ends, resolved) = match self.challenges.get(
            &poll_nonce,
        ) {
            Some(challenge) => (
                challenge.owner,
                challenge.deposit,
                challenge.voting_ends,
                challenge.resolved,
            ),
            None => { return Err(Error::NotFound); },
        };
        let (votes_for, votes_against) = match self.polls.get(&poll_nonce) {
            Some(poll) => (poll.votes_for, poll.votes_against),
            None => { return Err(Error::NotFound); },
        };
        if poll_nonce == 0 {
            return Err(Error::NotFound);
        }
        if resolved {
            return Err(Error::AlreadyResolved);
        }
        if now < voting_ends {
            return Err(Error::StageNotEnded);
        }
        let passed = votes_for > votes_against;
        if passed {
            token.unlock(&listing_owner, listing_deposit, &listing_hash)?;
        } else {
            token.unlock(&challenger, challenge_deposit, &listing_hash)?;
        }
        proof {
            self@.lemma_resolve_valid(old(token)@, now, listing_id);
            if self@.backed_by(old(token)@) {
                self@.lemma_resolve_backed(old(token)@, now, listing_id);
            }
        }
        let (reward_pool, total_tokens) = if passed {
            (votes_against, votes_for)
        } else {
            (votes_for, votes_against)
        };
        self.challenges.insert(
            poll_nonce,
            Challenge {
                listing_hash,
                deposit: challenge_deposit,
                owner: challenger,
                voting_ends,
                resolved: true,
                reward_pool,
                total_tokens,
            },
        );
        self.polls.insert(poll_nonce, Poll { listing_hash, votes_for, votes_against, passed });
        match self.listings.remove(&listing_hash) {
            Some(listing) => {
                self.listings.insert(listing_hash, Listing { whitelisted: passed, ..listing });
            },
            None => {},
        }
        assert(self.listings@ =~= old(self).listings@.insert(
            listing_hash,
            Listing { whitelisted: passed, ..old(self).listings@[listing_hash] },
        ));
        let outcome = if passed {
            Event::Accepted(listing_hash)
        } else {
            Event::Rejected(listing_hash)
        };
        Ok((Event::Resolved(listing_hash, poll_nonce), outcome))
    }

    /// `sender` withdraws what its vote in a resolved poll has earned: its
    /// own stake and its share of the reward pool, the pool in proportion of
    /// its stake to the winning tally, rounded down. What rounding leaves of
    /// the pool stays in the listing's escrow.
    pub fn claim_reward(
        &mut self,
        token: &mut token::Module,
        sender: AccountId,
        poll_nonce: u32,
    ) -> (done: Result<Event, Error>)
        requires
            old(self).wf(),
            old(token).wf(),
        ensures
            final(self).wf(),
            final(token).wf(),
            old(self)@.backed_by(old(token)@) ==> final(self)@.backed_by(final(token)@),
            (match old(self)@.claim_reward(old(token)@, sender, poll_nonce) {
                Ok((registry, ledger)) => {
                    &&& done == Ok::<Event, Error>(Event::Claimed(sender, poll_nonce))
                    &&& final(self)@ == registry
                    &&& final(token)@ == ledger
                },
                Err(e) => {
                    &&& done == Err::<Event, Error>(e)
                    &&& *final(self) == *old(self)
                    &&& *final(token) == *old(token)
                },
            }),
    {
        let (resolved, reward_pool, total_tokens, listing_hash) = match self.challenges.get(
            &poll_nonce,
        ) {
            Some(challenge) => (
                challenge.resolved,
                challenge.reward_pool,
                challenge.total_tokens,
                challenge.listing_hash,
            ),
            None => { return Err(Error::NotFound); },
        };
        let passed = match self.polls.get(&poll_nonce) {
            Some(poll) => poll.passed,
            None => { return Err(Error::NotFound); },
        };
        if !resolved {
            return Err(Error::NotResolved);
        }
        let (value, stake, claimed) = match self.votes.get(&(poll_nonce, sender)) {
            Some(vote) => (vote.value, vote.deposit, vote.claimed),
            None => { return Err(Error::NotFound); },
        };
        if claimed {
            return Err(Error::AlreadyClaimed);
        }
        if value != passed {
            return Err(Error::NotAWinner);
        }
        let amount = match winnings(reward_pool, stake, total_tokens) {
            Some(amount) => amount,
            None => { return Err(Error::Overflow); },
        };
        token.unlock(&sender, amount, &listing_hash)?;
        proof {
            self@.lemma_claim_reward_valid(old(token)@, sender, poll_nonce);
            if self@.backed_by(old(token)@) {
                self@.lemma_claim_reward_backed(old(token)@, sender, poll_nonce);
            }
        }
        self.votes.insert((poll_nonce, sender), Vote { value, deposit: stake, claimed: true });
        Ok(Event::Claimed(sender, poll_nonce))
    }

    /// Accepts the listing with the given id, which went through its apply
    /// window without being challenged. Reports `Accepted`.
    pub fn finalize(&mut self, now: Moment, listing_id: u32) -> (done: Result<Event, Error>)
        requires
            old(self).wf(),
        ensures
            final(self).wf(),
            forall|ledger: token::Ledger| #[trigger]
                old(self)@.backed_by(ledger) ==> final(self)@.backed_by(ledger),
            (match old(self)@.finalize(now, listing_id) {
                Ok(registry) => {
                    &&& done == Ok::<Event, Error>(
                        Event::Accepted(old(self)@.index_hash[listing_id]),
                    )
                    &&& final(self)@ == registry
                },
                Err(e) => done == Err::<Event, Error>(e) && *final(self) == *old(self),
            }),
    {
        let listing_hash = match self.index_hash.get(&listing_id) {
            Some(stored) => *stored,
            None => { return Err(Error::NotFound); },
        };
        let (challenge_id, application_expiry) = match self.listings.get(&listing_hash) {
            Some(listing) => (listing.challenge_id, listing.application_expiry),
            None => { return Err(Error::NotFound); },
        };
        if challenge_id != 0 {
            return Err(Error::AlreadyChallenged);
        }
        if now < application_expiry {
            return Err(Error::StageNotEnded);
        }
        proof {
            self@.lemma_finalize_valid(now, listing_id);
            assert forall|ledger: token::Ledger| #[trigger] self@.backed_by(ledger) implies
                self@.finalize(
                now,
                listing_id,
            )->Ok_0.backed_by(ledger) by {
                self@.lemma_finalize_backed(ledger, now, listing_id);
            }
        }
        match self.listings.remove(&listing_hash) {
            Some(listing) => {
                self.listings.insert(listing_hash, Listing { whitelisted: true, ..listing });
            },
            None => {},
        }
        assert(self.listings@ =~= old(self).listings@.insert(
            listing_hash,
            Listing { whitelisted: true, ..old(self).listings@[listing_hash] },
        ));
        Ok(Event::Accepted(listing_hash))
    }
}

/// What a winning voter is paid, if the amount fits the numeric domain.
pub fn winnings(pool: Balance, stake: Balance, total: Balance) -> (amount: Option<Balance>)
    ensures
        amount == (if payout(pool, stake, total) <= Balance::MAX {
            Some(payout(pool, stake, total) as Balance)
        } else {
            None
        }),
{
    if total == 0 {
        return Some(stake);
    }
    assert((pool as nat) * (stake as nat) <= 0xffff_ffff_ffff_ffff * 0xffff_ffff_ffff_ffff)
        by (nonlinear_arith)
        requires
            pool <= 0xffff_ffff_ffff_ffff,
            stake <= 0xffff_ffff_ffff_ffff,
    ;
    let share: u128 = (pool as u128) * (stake as u128) / (total as u128);
    if share > Balance::MAX as u128 {
        return None;
    }
    stake.checked_add(share as Balance)
}

} // verus!
