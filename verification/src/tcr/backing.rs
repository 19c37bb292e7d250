//! Solvency of the escrow: what the ledger holds against each listing covers
//! everything the registry may still have to pay out of it.

use crate::primitives::{AccountId, Balance, Error, ListingHash, Moment};
use crate::sum::{
    lemma_weighted_bounds, lemma_weighted_insert, lemma_weighted_nothing, lemma_weighted_split,
    weighted,
};
use crate::tcr::registry::{payout, reward_share, Registry};
use crate::tcr::VoteRecord;
use crate::token;
use crate::token::Ledger;
use vstd::prelude::*;

verus! {

/// What a vote adds to the stakes placed on `side` in the given poll.
pub open spec fn stake_on(poll_nonce: u32, side: bool) -> spec_fn(
    (u32, AccountId),
    VoteRecord,
) -> nat {
    |key: (u32, AccountId), vote: VoteRecord|
        if key.0 == poll_nonce && vote.value == side {
            vote.deposit as nat
        } else {
            0
        }
}

/// What a vote on `side` in the given poll earns of `pool`, divided by
/// `total`.
pub open spec fn share_on(poll_nonce: u32, side: bool, pool: Balance, total: Balance) -> spec_fn(
    (u32, AccountId),
    VoteRecord,
) -> nat {
    |key: (u32, AccountId), vote: VoteRecord|
        if key.0 == poll_nonce && vote.value == side {
            reward_share(pool, vote.deposit, total)
        } else {
            0
        }
}

/// What a vote on `side` in the given poll may still withdraw.
pub open spec fn unclaimed_on(
    poll_nonce: u32,
    side: bool,
    pool: Balance,
    total: Balance,
) -> spec_fn((u32, AccountId), VoteRecord) -> nat {
    |key: (u32, AccountId), vote: VoteRecord|
        if key.0 == poll_nonce && vote.value == side && !vote.claimed {
            payout(pool, vote.deposit, total)
        } else {
            0
        }
}

/// The shares of one side, taken together and multiplied by the divisor,
/// do not exceed the pool multiplied by the side's stakes.
pub proof fn lemma_shares_bounded(
    votes: Map<(u32, AccountId), VoteRecord>,
    poll_nonce: u32,
    side: bool,
    pool: Balance,
    total: Balance,
)
    requires
        votes.dom().finite(),
    ensures
        weighted(votes, share_on(poll_nonce, side, pool, total)) * total <= pool * weighted(
            votes,
            stake_on(poll_nonce, side),
        ),
    decreases votes.dom().len(),
{
    if !votes.dom().is_empty() {
        let k = votes.dom().choose();
        let rest = votes.remove(k);
        lemma_shares_bounded(rest, poll_nonce, side, pool, total);
        let share = share_on(poll_nonce, side, pool, total)(k, votes[k]);
        let stake = stake_on(poll_nonce, side)(k, votes[k]);
        let shares = weighted(rest, share_on(poll_nonce, side, pool, total));
        let stakes = weighted(rest, stake_on(poll_nonce, side));
        assert(share * total <= pool * stake) by {
            if k.0 == poll_nonce && votes[k].value == side && total != 0 {
                let product = (pool as int) * (votes[k].deposit as int);
                vstd::arithmetic::div_mod::lemma_fundamental_div_mod(product, total as int);
                vstd::arithmetic::div_mod::lemma_mod_bound(product, total as int);
                assert(product >= 0) by (nonlinear_arith)
                    requires
                        product == (pool as int) * (votes[k].deposit as int),
                ;
                assert((product / (total as int)) * total == total * (product / (total as int)))
                    by (nonlinear_arith);
            } else {
                assert(share == 0);
                assert(share * total == 0) by (nonlinear_arith)
                    requires
                        share == 0,
                ;
                assert(pool * stake >= 0) by (nonlinear_arith)
                    requires
                        pool >= 0,
                        stake >= 0,
                ;
            }
        }
        assert((share + shares) * total <= pool * (stake + stakes)) by (nonlinear_arith)
            requires
                share * total <= pool * stake,
                shares * total <= pool * stakes,
        ;
    } else {
        assert(0 * total == 0) by (nonlinear_arith);
        assert(pool * 0 == 0) by (nonlinear_arith);
    }
}

/// What the voters of one side may withdraw, taken together, is at most
/// their stakes and the pool, as long as their stakes are part of the tally
/// that the pool is divided by.
pub proof fn lemma_unclaimed_bounded(
    votes: Map<(u32, AccountId), VoteRecord>,
    poll_nonce: u32,
    side: bool,
    pool: Balance,
    total: Balance,
)
    requires
        votes.dom().finite(),
        weighted(votes, stake_on(poll_nonce, side)) <= total,
    ensures
        weighted(votes, unclaimed_on(poll_nonce, side, pool, total)) <= weighted(
            votes,
            stake_on(poll_nonce, side),
        ) + pool,
{
    let shares = weighted(votes, share_on(poll_nonce, side, pool, total));
    let stakes = weighted(votes, stake_on(poll_nonce, side));
    lemma_weighted_split(
        votes,
        unclaimed_on(poll_nonce, side, pool, total),
        stake_on(poll_nonce, side),
        share_on(poll_nonce, side, pool, total),
    );
    if total == 0 {
        lemma_weighted_nothing(votes, share_on(poll_nonce, side, pool, total));
    } else {
        lemma_shares_bounded(votes, poll_nonce, side, pool, total);
        assert(shares <= pool) by (nonlinear_arith)
            requires
                shares * total <= pool * stakes,
                stakes <= total,
                total > 0,
                pool >= 0,
        ;
    }
}

impl Registry {
    /// The stakes that voters have placed on `side` in the given poll, the
    /// seed stakes apart.
    pub open spec fn staked(self, poll_nonce: u32, side: bool) -> nat {
        weighted(self.votes, stake_on(poll_nonce, side))
    }

    /// What the winners of the given resolved poll may still withdraw.
    pub open spec fn owed(self, poll_nonce: u32) -> nat {
        weighted(
            self.votes,
            unclaimed_on(
                poll_nonce,
                self.polls[poll_nonce].passed,
                self.challenges[poll_nonce].reward_pool,
                self.challenges[poll_nonce].total_tokens,
            ),
        )
    }

    /// Each tally of the given poll is its seed stake and the votes for its
    /// side.
    pub open spec fn tallies_add_up(self, poll_nonce: u32) -> bool {
        let challenge = self.challenges[poll_nonce];
        let poll = self.polls[poll_nonce];
        &&& poll.votes_for == self.listings[challenge.listing_hash].deposit + self.staked(
            poll_nonce,
            true,
        )
        &&& poll.votes_against == challenge.deposit + self.staked(poll_nonce, false)
    }

    /// What the escrow of the given listing has to cover: the listing's
    /// deposit while it is unchallenged, both tallies while its challenge is
    /// open, and afterwards what the winning voters may still withdraw.
    pub open spec fn escrow_due(self, listing_hash: ListingHash) -> nat {
        let listing = self.listings[listing_hash];
        if listing.challenge_id == 0 {
            listing.deposit as nat
        } else if !self.challenges[listing.challenge_id].resolved {
            (self.polls[listing.challenge_id].votes_for
                + self.polls[listing.challenge_id].votes_against) as nat
        } else {
            self.owed(listing.challenge_id)
        }
    }

    /// The ledger backs the registry: the escrow of every listing covers
    /// what is due from it, and the tallies of every open poll add up.
    pub open spec fn backed_by(self, token: Ledger) -> bool {
        &&& self.votes.dom().finite()
        &&& forall|h: ListingHash| #[trigger]
            self.listings.contains_key(h) ==> self.escrow_due(h) <= token.locked_deposits(h)
        &&& forall|n: u32| #[trigger]
            self.challenges.contains_key(n) && !self.challenges[n].resolved
                ==> self.tallies_add_up(n)
    }

    /// An empty registry is backed by any ledger.
    pub proof fn lemma_genesis_backed(
        min_deposit: Option<Balance>,
        apply_stage_len: Option<Moment>,
        commit_stage_len: Option<Moment>,
        token: Ledger,
    )
        ensures
            Registry::genesis(min_deposit, apply_stage_len, commit_stage_len).backed_by(token),
    {
    }

    /// A proposal keeps the registry backed.
    pub proof fn lemma_propose_backed(
        self,
        token: Ledger,
        sender: AccountId,
        now: Moment,
        data: Vec<u8>,
        listing_hash: ListingHash,
        deposit: Balance,
    )
        requires
            self.valid(),
            self.backed_by(token),
            self.propose(token, sender, now, data, listing_hash, deposit) is Ok,
        ensures
            ({
                let (registry, ledger) = self.propose(
                    token,
                    sender,
                    now,
                    data,
                    listing_hash,
                    deposit,
                )->Ok_0;
                registry.backed_by(ledger)
            }),
    {
        let (registry, ledger) = self.propose(
            token,
            sender,
            now,
            data,
            listing_hash,
            deposit,
        )->Ok_0;
        assert forall|h: ListingHash| #[trigger] registry.listings.contains_key(h) implies
            registry.escrow_due(h) <= ledger.locked_deposits(h) by {
            if h != listing_hash {
                assert(self.listings.contains_key(h));
                assert(self.escrow_due(h) <= token.locked_deposits(h));
            }
        }
        assert forall|n: u32| #[trigger]
            registry.challenges.contains_key(n) && !registry.challenges[n].resolved implies
            registry.tallies_add_up(n) by {
            assert(self.challenge_consistent(n));
            assert(self.tallies_add_up(n));
        }
    }

    /// A finalization keeps the registry backed.
    pub proof fn lemma_finalize_backed(self, token: Ledger, now: Moment, listing_id: u32)
        requires
            self.valid(),
            self.backed_by(token),
            self.finalize(now, listing_id) is Ok,
        ensures
            self.finalize(now, listing_id)->Ok_0.backed_by(token),
    {
        let registry = self.finalize(now, listing_id)->Ok_0;
        assert forall|h: ListingHash| #[trigger] registry.listings.contains_key(h) implies
            registry.escrow_due(h) <= token.locked_deposits(h) by {
            assert(self.listings.contains_key(h));
            assert(self.escrow_due(h) <= token.locked_deposits(h));
        }
        assert forall|n: u32| #[trigger]
            registry.challenges.contains_key(n) && !registry.challenges[n].resolved implies
            registry.tallies_add_up(n) by {
            assert(self.challenge_consistent(n));
            assert(self.tallies_add_up(n));
        }
    }

    /// A challenge keeps the registry backed.
    pub proof fn lemma_challenge_backed(
        self,
        token: Ledger,
        sender: AccountId,
        now: Moment,
        listing_id: u32,
        deposit: Balance,
    )
        requires
            self.valid(),
            self.backed_by(token),
            self.challenge(token, sender, now, listing_id, deposit) is Ok,
        ensures
            ({
                let (registry, ledger) = self.challenge(
                    token,
                    sender,
                    now,
                    listing_id,
                    deposit,
                )->Ok_0;
                registry.backed_by(ledger)
            }),
    {
        let (registry, ledger) = self.challenge(token, sender, now, listing_id, deposit)->Ok_0;
        let listing_hash = self.index_hash[listing_id];
        let opened = self.poll_nonce;
        assert(self.listing_consistent(listing_hash));
        assert(self.escrow_due(listing_hash) <= token.locked_deposits(listing_hash));
        assert forall|h: ListingHash| #[trigger] registry.listings.contains_key(h) implies
            registry.escrow_due(h) <= ledger.locked_deposits(h) by {
            assert(self.listings.contains_key(h));
            assert(self.listing_consistent(h));
            assert(self.escrow_due(h) <= token.locked_deposits(h));
        }
        assert forall|n: u32| #[trigger]
            registry.challenges.contains_key(n) && !registry.challenges[n].resolved implies
            registry.tallies_add_up(n) by {
            if n == opened {
                assert forall|k: (u32, AccountId)| #[trigger] self.votes.contains_key(k) implies
                    k.0 != opened by {
                    assert(self.votes.contains_key((k.0, k.1)));
                }
                lemma_weighted_nothing(self.votes, stake_on(opened, true));
                lemma_weighted_nothing(self.votes, stake_on(opened, false));
            } else {
                assert(self.challenges.contains_key(n));
                assert(self.challenge_consistent(n));
                assert(self.tallies_add_up(n));
            }
        }
    }

    /// A vote keeps the registry backed.
    pub proof fn lemma_vote_backed(
        self,
        token: Ledger,
        sender: AccountId,
        now: Moment,
        poll_nonce: u32,
        value: bool,
        deposit: Balance,
    )
        requires
            self.valid(),
            self.backed_by(token),
            self.vote(token, sender, now, poll_nonce, value, deposit) is Ok,
        ensures
            ({
                let (registry, ledger) = self.vote(
                    token,
                    sender,
                    now,
                    poll_nonce,
                    value,
                    deposit,
                )->Ok_0;
                registry.backed_by(ledger)
            }),
    {
        let (registry, ledger) = self.vote(token, sender, now, poll_nonce, value, deposit)->Ok_0;
        let listing_hash = self.challenges[poll_nonce].listing_hash;
        let cast = registry.votes[(poll_nonce, sender)];
        assert(self.challenge_consistent(poll_nonce));
        assert(self.tallies_add_up(poll_nonce));
        assert(self.escrow_due(listing_hash) <= token.locked_deposits(listing_hash));
        lemma_weighted_insert(self.votes, stake_on(poll_nonce, true), (poll_nonce, sender), cast);
        lemma_weighted_insert(self.votes, stake_on(poll_nonce, false), (poll_nonce, sender), cast);
        assert forall|h: ListingHash| #[trigger] registry.listings.contains_key(h) implies
            registry.escrow_due(h) <= ledger.locked_deposits(h) by {
            assert(self.listing_consistent(h));
            assert(self.escrow_due(h) <= token.locked_deposits(h));
            let other = self.listings[h].challenge_id;
            if h != listing_hash && other != 0 && self.challenges[other].resolved {
                lemma_weighted_insert(
                    self.votes,
                    unclaimed_on(
                        other,
                        self.polls[other].passed,
                        self.challenges[other].reward_pool,
                        self.challenges[other].total_tokens,
                    ),
                    (poll_nonce, sender),
                    cast,
                );
            }
        }
        assert forall|n: u32| #[trigger]
            registry.challenges.contains_key(n) && !registry.challenges[n].resolved implies
            registry.tallies_add_up(n) by {
            assert(self.challenge_consistent(n));
            assert(self.tallies_add_up(n));
            if n != poll_nonce {
                lemma_weighted_insert(self.votes, stake_on(n, true), (poll_nonce, sender), cast);
                lemma_weighted_insert(self.votes, stake_on(n, false), (poll_nonce, sender), cast);
            }
        }
    }

    /// A claim keeps the registry backed.
    pub proof fn lemma_claim_reward_backed(self, token: Ledger, sender: AccountId, poll_nonce: u32)
        requires
            self.valid(),
            self.backed_by(token),
            self.claim_reward(token, sender, poll_nonce) is Ok,
        ensures
            ({
                let (registry, ledger) = self.claim_reward(token, sender, poll_nonce)->Ok_0;
                registry.backed_by(ledger)
            }),
    {
        let (registry, ledger) = self.claim_reward(token, sender, poll_nonce)->Ok_0;
        let listing_hash = self.challenges[poll_nonce].listing_hash;
        let paid = registry.votes[(poll_nonce, sender)];
        assert(self.challenge_consistent(poll_nonce));
        assert(self.escrow_due(listing_hash) <= token.locked_deposits(listing_hash));
        assert forall|h: ListingHash| #[trigger] registry.listings.contains_key(h) implies
            registry.escrow_due(h) <= ledger.locked_deposits(h) by {
            assert(self.listing_consistent(h));
            assert(self.escrow_due(h) <= token.locked_deposits(h));
            let other = self.listings[h].challenge_id;
            if other != 0 && self.challenges[other].resolved {
                lemma_weighted_insert(
                    self.votes,
                    unclaimed_on(
                        other,
                        self.polls[other].passed,
                        self.challenges[other].reward_pool,
                        self.challenges[other].total_tokens,
                    ),
                    (poll_nonce, sender),
                    paid,
                );
            }
        }
        assert forall|n: u32| #[trigger]
            registry.challenges.contains_key(n) && !registry.challenges[n].resolved implies
            registry.tallies_add_up(n) by {
            assert(self.challenge_consistent(n));
            assert(self.tallies_add_up(n));
            lemma_weighted_insert(self.votes, stake_on(n, true), (poll_nonce, sender), paid);
            lemma_weighted_insert(self.votes, stake_on(n, false), (poll_nonce, sender), paid);
        }
    }

    /// A resolution keeps the registry backed: what stays in escrow after
    /// the winner's seed stake has left covers every winning voter's stake
    /// and share.
    pub proof fn lemma_resolve_backed(self, token: Ledger, now: Moment, listing_id: u32)
        requires
            self.valid(),
            self.backed_by(token),
            self.resolve(token, now, listing_id) is Ok,
        ensures
            ({
                let (registry, ledger) = self.resolve(token, now, listing_id)->Ok_0;
                registry.backed_by(ledger)
            }),
    {
        let (registry, ledger) = self.resolve(token, now, listing_id)->Ok_0;
        let listing_hash = self.index_hash[listing_id];
        let closed = self.listings[listing_hash].challenge_id;
        let outcome = registry.challenges[closed];
        let passed = registry.polls[closed].passed;
        assert(self.listing_consistent(listing_hash));
        assert(self.challenge_consistent(closed));
        assert(self.tallies_add_up(closed));
        assert(self.escrow_due(listing_hash) <= token.locked_deposits(listing_hash));
        lemma_unclaimed_bounded(
            self.votes,
            closed,
            passed,
            outcome.reward_pool,
            outcome.total_tokens,
        );
        assert forall|h: ListingHash| #[trigger] registry.listings.contains_key(h) implies
            registry.escrow_due(h) <= ledger.locked_deposits(h) by {
            assert(self.listings.contains_key(h));
            assert(self.listing_consistent(h));
            assert(self.escrow_due(h) <= token.locked_deposits(h));
        }
        assert forall|n: u32| #[trigger]
            registry.challenges.contains_key(n) && !registry.challenges[n].resolved implies
            registry.tallies_add_up(n) by {
            assert(self.challenges.contains_key(n));
            assert(self.challenge_consistent(n));
            assert(self.tallies_add_up(n));
        }
    }

    /// A call to the ledger that takes nothing out of escrow keeps the
    /// registry backed.
    pub proof fn lemma_token_call_backed(self, token: Ledger, call: token::Action)
        requires
            self.backed_by(token),
            !(call is Unlock),
        ensures
            self.backed_by(token.after(call)),
    {
        let ledger = token.after(call);
        assert forall|h: ListingHash| #[trigger] self.listings.contains_key(h) implies
            self.escrow_due(h) <= ledger.locked_deposits(h) by {
            assert(self.escrow_due(h) <= token.locked_deposits(h));
        }
    }

    /// Resolution never fails for want of funds: where registry and ledger
    /// are in order, it is refused only because there is no such challenge,
    /// because the challenge is already resolved, or because its commit
    /// window is still open.
    pub proof fn lemma_resolve_is_funded(self, token: Ledger, now: Moment, listing_id: u32)
        requires
            self.valid(),
            token.conserved(),
            self.backed_by(token),
        ensures
            (match self.resolve(token, now, listing_id) {
                Ok(_) => true,
                Err(e) => e == Error::NotFound || e == Error::AlreadyResolved || e
                    == Error::StageNotEnded,
            }),
    {
        if self.listing_by_id(listing_id) is Some {
            let listing_hash = self.index_hash[listing_id];
            let listing = self.listings[listing_hash];
            if listing.challenge_id != 0 {
                assert(self.listing_consistent(listing_hash));
                assert(self.challenge_consistent(listing.challenge_id));
                assert(self.escrow_due(listing_hash) <= token.locked_deposits(listing_hash));
                token.lemma_holdings_bounded(listing.owner, listing_hash);
                token.lemma_holdings_bounded(
                    self.challenges[listing.challenge_id].owner,
                    listing_hash,
                );
            }
        }
    }

    /// A claim never fails for want of funds: where registry and ledger are
    /// in order, it is refused only because there is no such poll or vote,
    /// because the poll is not resolved, because the vote has been paid, or
    /// because it backed the losing side.
    pub proof fn lemma_claim_reward_is_funded(
        self,
        token: Ledger,
        sender: AccountId,
        poll_nonce: u32,
    )
        requires
            self.valid(),
            token.conserved(),
            self.backed_by(token),
        ensures
            (match self.claim_reward(token, sender, poll_nonce) {
                Ok(_) => true,
                Err(e) => e == Error::NotFound || e == Error::NotResolved || e
                    == Error::AlreadyClaimed || e == Error::NotAWinner,
            }),
    {
        if self.dispute(poll_nonce) is Some && self.votes.contains_key((poll_nonce, sender)) {
            let challenge = self.challenges[poll_nonce];
            assert(self.challenge_consistent(poll_nonce));
            assert(self.escrow_due(challenge.listing_hash) <= token.locked_deposits(
                challenge.listing_hash,
            ));
            lemma_weighted_bounds(
                self.votes,
                unclaimed_on(
                    poll_nonce,
                    self.polls[poll_nonce].passed,
                    challenge.reward_pool,
                    challenge.total_tokens,
                ),
                (poll_nonce, sender),
            );
            token.lemma_holdings_bounded(sender, challenge.listing_hash);
        }
    }
}

} // verus!
