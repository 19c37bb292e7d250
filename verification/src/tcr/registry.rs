//! The registry as a mathematical value, and its transitions.

use crate::primitives::{AccountId, Balance, Error, ListingHash, Moment, MAX_DATA_LEN};
use crate::tcr::{
    Challenge, ChallengeRecord, Listing, ListingRecord, Poll, PollRecord, Vote, VoteRecord,
};
use crate::token::Ledger;
use vstd::prelude::*;

verus! {

/// The registry as a mathematical value.
pub struct Registry {
    /// Smallest stake a proposal may post; proposing fails while unset.
    pub min_deposit: Option<Balance>,
    /// Length of the apply window; proposing fails while unset.
    pub apply_stage_len: Option<Moment>,
    /// Length of the commit window; challenging fails while unset.
    pub commit_stage_len: Option<Moment>,
    /// Listings by content hash.
    pub listings: Map<ListingHash, ListingRecord>,
    /// Number of listings ever proposed; the next listing's id.
    pub listing_count: u32,
    /// Content hash by listing id.
    pub index_hash: Map<u32, ListingHash>,
    /// The next challenge's id; never zero.
    pub poll_nonce: u32,
    /// Challenges by id.
    pub challenges: Map<u32, ChallengeRecord>,
    /// Polls by the id of their challenge.
    pub polls: Map<u32, PollRecord>,
    /// Votes by poll id and voter.
    pub votes: Map<(u32, AccountId), VoteRecord>,
}

/// A voter's share of the reward pool: the pool in proportion of its stake
/// to the winning side's tally, rounded down.
pub open spec fn reward_share(pool: Balance, stake: Balance, total: Balance) -> nat {
    if total == 0 {
        0
    } else {
        ((pool as nat) * (stake as nat)) / (total as nat)
    }
}

/// What a winning voter is paid: its own stake and its share of the pool.
pub open spec fn payout(pool: Balance, stake: Balance, total: Balance) -> nat {
    stake as nat + reward_share(pool, stake, total)
}

impl Registry {
    /// An empty registry with the given configuration.
    pub open spec fn genesis(
        min_deposit: Option<Balance>,
        apply_stage_len: Option<Moment>,
        commit_stage_len: Option<Moment>,
    ) -> Registry {
        Registry {
            min_deposit,
            apply_stage_len,
            commit_stage_len,
            listings: Map::empty(),
            listing_count: 0,
            index_hash: Map::empty(),
            poll_nonce: 1,
            challenges: Map::empty(),
            polls: Map::empty(),
            votes: Map::empty(),
        }
    }

    /// The listing with the given id, with its content hash.
    pub open spec fn listing_by_id(self, listing_id: u32) -> Option<(ListingHash, ListingRecord)> {
        if self.index_hash.contains_key(listing_id) && self.listings.contains_key(
            self.index_hash[listing_id],
        ) {
            Some((self.index_hash[listing_id], self.listings[self.index_hash[listing_id]]))
        } else {
            None
        }
    }

    /// The challenge with the given id, with its poll.
    pub open spec fn dispute(self, poll_nonce: u32) -> Option<(ChallengeRecord, PollRecord)> {
        if self.challenges.contains_key(poll_nonce) && self.polls.contains_key(poll_nonce) {
            Some((self.challenges[poll_nonce], self.polls[poll_nonce]))
        } else {
            None
        }
    }

    /// `sender` applies for a listing of `data`, identified by
    /// `listing_hash`, and stakes `deposit` on it.
    pub open spec fn propose(
        self,
        token: Ledger,
        sender: AccountId,
        now: Moment,
        data: Vec<u8>,
        listing_hash: ListingHash,
        deposit: Balance,
    ) -> Result<(Registry, Ledger), Error> {
        if data@.len() > MAX_DATA_LEN || self.min_deposit is None {
            Err(Error::InvalidInput)
        } else if deposit < self.min_deposit.unwrap() {
            Err(Error::DepositTooLow)
        } else if self.apply_stage_len is None {
            Err(Error::InvalidInput)
        } else if now + self.apply_stage_len.unwrap() > Moment::MAX {
            Err(Error::Overflow)
        } else if self.listings.contains_key(listing_hash) {
            Err(Error::AlreadyExists)
        } else if self.listing_count == u32::MAX {
            Err(Error::Overflow)
        } else {
            match token.lock(sender, deposit, listing_hash) {
                Err(e) => Err(e),
                Ok(ledger) => Ok(
                    (
                        Registry {
                            listings: self.listings.insert(
                                listing_hash,
                                Listing {
                                    id: self.listing_count,
                                    data,
                                    deposit,
                                    owner: sender,
                                    application_expiry: (now
                                        + self.apply_stage_len.unwrap()) as Moment,
                                    whitelisted: false,
                                    challenge_id: 0,
                                },
                            ),
                            listing_count: (self.listing_count + 1) as u32,
                            index_hash: self.index_hash.insert(self.listing_count, listing_hash),
                            ..self
                        },
                        ledger,
                    ),
                ),
            }
        }
    }

    /// `sender` disputes the listing with the given id and stakes `deposit`
    /// against it. Both stakes seed the poll.
    pub open spec fn challenge(
        self,
        token: Ledger,
        sender: AccountId,
        now: Moment,
        listing_id: u32,
        deposit: Balance,
    ) -> Result<(Registry, Ledger), Error> {
        match self.listing_by_id(listing_id) {
            None => Err(Error::NotFound),
            Some((listing_hash, listing)) => {
                if listing.challenge_id != 0 {
                    Err(Error::AlreadyChallenged)
                } else if listing.owner == sender {
                    Err(Error::SelfChallenge)
                } else if deposit < listing.deposit {
                    Err(Error::DepositTooLow)
                } else if self.commit_stage_len is None {
                    Err(Error::InvalidInput)
                } else if now + self.commit_stage_len.unwrap() > Moment::MAX {
                    Err(Error::Overflow)
                } else if now >= listing.application_expiry {
                    Err(Error::StageExpired)
                } else if self.poll_nonce == u32::MAX {
                    Err(Error::Overflow)
                } else {
                    match token.lock(sender, deposit, listing_hash) {
                        Err(e) => Err(e),
                        Ok(ledger) => Ok(
                            (
                                Registry {
                                    challenges: self.challenges.insert(
                                        self.poll_nonce,
                                        Challenge {
                                            listing_hash,
                                            deposit,
                                            owner: sender,
                                            voting_ends: (now
                                                + self.commit_stage_len.unwrap()) as Moment,
                                            resolved: false,
                                            reward_pool: 0,
                                            total_tokens: 0,
                                        },
                                    ),
                                    polls: self.polls.insert(
                                        self.poll_nonce,
                                        Poll {
                                            listing_hash,
                                            votes_for: listing.deposit,
                                            votes_against: deposit,
                                            passed: false,
                                        },
                                    ),
                                    listings: self.listings.insert(
                                        listing_hash,
                                        Listing { challenge_id: self.poll_nonce, ..listing },
                                    ),
                                    poll_nonce: (self.poll_nonce + 1) as u32,
                                    ..self
                                },
                                ledger,
                            ),
                        ),
                    }
                }
            },
        }
    }

    /// `sender` stakes `deposit` for (`value` true) or against the listing
    /// disputed in the given poll.
    pub open spec fn vote(
        self,
        token: Ledger,
        sender: AccountId,
        now: Moment,
        poll_nonce: u32,
        value: bool,
        deposit: Balance,
    ) -> Result<(Registry, Ledger), Error> {
        match self.dispute(poll_nonce) {
            None => Err(Error::NotFound),
            Some((challenge, poll)) => {
                let tally = if value {
                    poll.votes_for
                } else {
                    poll.votes_against
                };
                if challenge.resolved {
                    Err(Error::AlreadyResolved)
                } else if now >= challenge.voting_ends {
                    Err(Error::StageExpired)
                } else if self.votes.contains_key((poll_nonce, sender)) {
                    Err(Error::AlreadyVoted)
                } else if tally + deposit > Balance::MAX {
                    Err(Error::Overflow)
                } else {
                    match token.lock(sender, deposit, challenge.listing_hash) {
                        Err(e) => Err(e),
                        Ok(ledger) => Ok(
                            (
                                Registry {
                                    votes: self.votes.insert(
                                        (poll_nonce, sender),
                                        Vote { value, deposit, claimed: false },
                                    ),
                                    polls: self.polls.insert(
                                        poll_nonce,
                                        if value {
                                            Poll { votes_for: (tally + deposit) as Balance, ..poll }
                                        } else {
                                            Poll {
                                                votes_against: (tally + deposit) as Balance,
                                                ..poll
                                            }
                                        },
                                    ),
                                    ..self
                                },
                                ledger,
                            ),
                        ),
                    }
                }
            },
        }
    }

    /// Determines the outcome of the challenge against the listing with the
    /// given id. The listing prevails only with strictly more tokens for it
    /// than against it. The winner of the two seed stakes gets its deposit
    /// back; the losing side's tally becomes the reward pool.
    pub open spec fn resolve(self, token: Ledger, now: Moment, listing_id: u32) -> Result<
        (Registry, Ledger),
        Error,
    > {
        match self.listing_by_id(listing_id) {
            None => Err(Error::NotFound),
            Some((listing_hash, listing)) => match self.dispute(listing.challenge_id) {
                None => Err(Error::NotFound),
                Some((challenge, poll)) => {
                    let passed = poll.votes_for > poll.votes_against;
                    if listing.challenge_id == 0 {
                        Err(Error::NotFound)
                    } else if challenge.resolved {
                        Err(Error::AlreadyResolved)
                    } else if now < challenge.voting_ends {
                        Err(Error::StageNotEnded)
                    } else {
                        let refund = if passed {
                            token.unlock(listing.owner, listing.deposit, listing_hash)
                        } else {
                            token.unlock(challenge.owner, challenge.deposit, listing_hash)
                        };
                        match refund {
                            Err(e) => Err(e),
                            Ok(ledger) => Ok(
                                (
                                    Registry {
                                        challenges: self.challenges.insert(
                                            listing.challenge_id,
                                            Challenge {
                                                resolved: true,
                                                reward_pool: if passed {
                                                    poll.votes_against
                                                } else {
                                                    poll.votes_for
                                                },
                                                total_tokens: if passed {
                                                    poll.votes_for
                                                } else {
                                                    poll.votes_against
                                                },
                                                ..challenge
                                            },
                                        ),
                                        polls: self.polls.insert(
                                            listing.challenge_id,
                                            Poll { passed, ..poll },
                                        ),
                                        listings: self.listings.insert(
                                            listing_hash,
                                            Listing { whitelisted: passed, ..listing },
                                        ),
                                        ..self
                                    },
                                    ledger,
                                ),
                            ),
                        }
                    }
                },
            },
        }
    }

    /// `sender` withdraws what its vote in a resolved poll has earned: its
    /// own stake and its share of the reward pool. What rounding leaves of
    /// the pool stays in the listing's escrow.
    pub open spec fn claim_reward(
        self,
        token: Ledger,
        sender: AccountId,
        poll_nonce: u32,
    ) -> Result<(Registry, Ledger), Error> {
        match self.dispute(poll_nonce) {
            None => Err(Error::NotFound),
            Some((challenge, poll)) => {
                if !challenge.resolved {
                    Err(Error::NotResolved)
                } else if !self.votes.contains_key((poll_nonce, sender)) {
                    Err(Error::NotFound)
                } else {
                    let vote = self.votes[(poll_nonce, sender)];
                    let amount = payout(
                        challenge.reward_pool,
                        vote.deposit,
                        challenge.total_tokens,
                    );
                    if vote.claimed {
                        Err(Error::AlreadyClaimed)
                    } else if vote.value != poll.passed {
                        Err(Error::NotAWinner)
                    } else if amount > Balance::MAX {
                        Err(Error::Overflow)
                    } else {
                        match token.unlock(sender, amount as Balance, challenge.listing_hash) {
                            Err(e) => Err(e),
                            Ok(ledger) => Ok(
                                (
                                    Registry {
                                        votes: self.votes.insert(
                                            (poll_nonce, sender),
                                            Vote { claimed: true, ..vote },
                                        ),
                                        ..self
                                    },
                                    ledger,
                                ),
                            ),
                        }
                    }
                }
            },
        }
    }

    /// Accepts a listing that went through its apply window unchallenged.
    pub open spec fn finalize(self, now: Moment, listing_id: u32) -> Result<Registry, Error> {
        match self.listing_by_id(listing_id) {
            None => Err(Error::NotFound),
            Some((listing_hash, listing)) => {
                if listing.challenge_id != 0 {
                    Err(Error::AlreadyChallenged)
                } else if now < listing.application_expiry {
                    Err(Error::StageNotEnded)
                } else {
                    Ok(
                        Registry {
                            listings: self.listings.insert(
                                listing_hash,
                                Listing { whitelisted: true, ..listing },
                            ),
                            ..self
                        },
                    )
                }
            },
        }
    }
}

/// A voter's share never exceeds the pool, as long as its stake is part of
/// the tally that the pool is divided by.
pub proof fn lemma_reward_share_bounded(pool: Balance, stake: Balance, total: Balance)
    requires
        stake <= total,
    ensures
        reward_share(pool, stake, total) <= pool,
{
    if total != 0 {
        assert((pool as nat) * (stake as nat) <= (pool as nat) * (total as nat))
            by (nonlinear_arith)
            requires
                stake <= total,
        ;
        vstd::arithmetic::div_mod::lemma_div_is_ordered(
            (pool as int) * (stake as int),
            (pool as int) * (total as int),
            total as int,
        );
        vstd::arithmetic::div_mod::lemma_div_multiples_vanish(pool as int, total as int);
        assert((pool as int) * (total as int) == (total as int) * (pool as int))
            by (nonlinear_arith);
    }
}

} // verus!
