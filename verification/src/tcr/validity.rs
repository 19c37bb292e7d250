//! The registry's invariant, and the proof that every transition keeps it.

use crate::primitives::{AccountId, Balance, ListingHash, Moment, MAX_DATA_LEN};
use crate::tcr::registry::Registry;
use crate::token::Ledger;
use vstd::prelude::*;

verus! {

impl Registry {
    /// What holds of the listing stored under `listing_hash`: its data is
    /// within the cap, its id leads back to it, and its challenge, if it has
    /// one, is a stored challenge against it.
    pub open spec fn listing_consistent(self, listing_hash: ListingHash) -> bool {
        let listing = self.listings[listing_hash];
        &&& listing.data@.len() <= MAX_DATA_LEN
        &&& self.index_hash.contains_key(listing.id)
        &&& self.index_hash[listing.id] == listing_hash
        &&& listing.challenge_id != 0 ==> {
            &&& self.challenges.contains_key(listing.challenge_id)
            &&& self.challenges[listing.challenge_id].listing_hash == listing_hash
        }
    }

    /// What holds of the challenge stored under `poll_nonce`: it and its poll
    /// speak of one stored listing, which points back at it; the tallies
    /// include the two seed stakes; and once resolved, the recorded outcome
    /// is the one that the tallies give.
    pub open spec fn challenge_consistent(self, poll_nonce: u32) -> bool {
        let challenge = self.challenges[poll_nonce];
        let poll = self.polls[poll_nonce];
        let listing = self.listings[challenge.listing_hash];
        &&& poll.listing_hash == challenge.listing_hash
        &&& self.listings.contains_key(challenge.listing_hash)
        &&& listing.challenge_id == poll_nonce
        &&& listing.deposit <= challenge.deposit
        &&& listing.deposit <= poll.votes_for
        &&& challenge.deposit <= poll.votes_against
        &&& if challenge.resolved {
            &&& poll.passed == (poll.votes_for > poll.votes_against)
            &&& listing.whitelisted == poll.passed
            &&& challenge.reward_pool == if poll.passed {
                poll.votes_against
            } else {
                poll.votes_for
            }
            &&& challenge.total_tokens == if poll.passed {
                poll.votes_for
            } else {
                poll.votes_against
            }
        } else {
            &&& !poll.passed
            &&& challenge.reward_pool == 0
            &&& challenge.total_tokens == 0
        }
    }

    /// The invariant of every registry. Listing ids are the numbers below
    /// `listing_count`, challenge and poll ids the numbers from one up to
    /// `poll_nonce`; ids, listings, challenges and polls refer to each other
    /// consistently; and every vote belongs to a stored challenge.
    pub open spec fn valid(self) -> bool {
        &&& self.poll_nonce >= 1
        &&& forall|id: u32| #[trigger]
            self.index_hash.contains_key(id) <==> id < self.listing_count
        &&& forall|id: u32| #[trigger]
            self.index_hash.contains_key(id) ==> self.listings.contains_key(self.index_hash[id])
                && self.listings[self.index_hash[id]].id == id
        &&& forall|h: ListingHash| #[trigger]
            self.listings.contains_key(h) ==> self.listing_consistent(h)
        &&& forall|n: u32| #[trigger]
            self.challenges.contains_key(n) <==> 1 <= n < self.poll_nonce
        &&& forall|n: u32| #[trigger] self.polls.contains_key(n) <==> 1 <= n < self.poll_nonce
        &&& forall|n: u32| #[trigger]
            self.challenges.contains_key(n) ==> self.challenge_consistent(n)
        &&& forall|n: u32, voter: AccountId| #[trigger]
            self.votes.contains_key((n, voter)) ==> self.challenges.contains_key(n)
    }

    /// An empty registry is valid.
    pub proof fn lemma_genesis_valid(
        min_deposit: Option<Balance>,
        apply_stage_len: Option<Moment>,
        commit_stage_len: Option<Moment>,
    )
        ensures
            Registry::genesis(min_deposit, apply_stage_len, commit_stage_len).valid(),
    {
    }

    /// A proposal keeps the registry valid.
    pub proof fn lemma_propose_valid(
        self,
        token: Ledger,
        sender: AccountId,
        now: Moment,
        data: Vec<u8>,
        listing_hash: ListingHash,
        deposit: Balance,
    )
        requires
            self.valid(),
            self.propose(token, sender, now, data, listing_hash, deposit) is Ok,
        ensures
            self.propose(token, sender, now, data, listing_hash, deposit)->Ok_0.0.valid(),
    {
        let next = self.propose(token, sender, now, data, listing_hash, deposit)->Ok_0.0;
        assert forall|h: ListingHash| #[trigger] next.listings.contains_key(h) implies
            next.listing_consistent(h) by {
            if h != listing_hash {
                assert(self.listings.contains_key(h));
                assert(self.listing_consistent(h));
            }
        }
        assert forall|n: u32| #[trigger] next.challenges.contains_key(n) implies
            next.challenge_consistent(n) by {
            assert(self.challenge_consistent(n));
        }
    }

    /// A challenge keeps the registry valid.
    pub proof fn lemma_challenge_valid(
        self,
        token: Ledger,
        sender: AccountId,
        now: Moment,
        listing_id: u32,
        deposit: Balance,
    )
        requires
            self.valid(),
            self.challenge(token, sender, now, listing_id, deposit) is Ok,
        ensures
            self.challenge(token, sender, now, listing_id, deposit)->Ok_0.0.valid(),
    {
        let next = self.challenge(token, sender, now, listing_id, deposit)->Ok_0.0;
        let listing_hash = self.index_hash[listing_id];
        assert(self.listing_consistent(listing_hash));
        assert forall|h: ListingHash| #[trigger] next.listings.contains_key(h) implies
            next.listing_consistent(h) by {
            assert(self.listings.contains_key(h));
            assert(self.listing_consistent(h));
        }
        assert forall|n: u32| #[trigger] next.challenges.contains_key(n) implies
            next.challenge_consistent(n) by {
            if n != self.poll_nonce {
                assert(self.challenges.contains_key(n));
                assert(self.challenge_consistent(n));
            }
        }
    }

    /// A vote keeps the registry valid.
    pub proof fn lemma_vote_valid(
        self,
        token: Ledger,
        sender: AccountId,
        now: Moment,
        poll_nonce: u32,
        value: bool,
        deposit: Balance,
    )
        requires
            self.valid(),
            self.vote(token, sender, now, poll_nonce, value, deposit) is Ok,
        ensures
            self.vote(token, sender, now, poll_nonce, value, deposit)->Ok_0.0.valid(),
    {
        let next = self.vote(token, sender, now, poll_nonce, value, deposit)->Ok_0.0;
        assert forall|h: ListingHash| #[trigger] next.listings.contains_key(h) implies
            next.listing_consistent(h) by {
            assert(self.listing_consistent(h));
        }
        assert forall|n: u32| #[trigger] next.challenges.contains_key(n) implies
            next.challenge_consistent(n) by {
            assert(self.challenge_consistent(n));
        }
        assert forall|n: u32, voter: AccountId| #[trigger]
            next.votes.contains_key((n, voter)) implies next.challenges.contains_key(n) by {
            if (n, voter) != (poll_nonce, sender) {
                assert(self.votes.contains_key((n, voter)));
            }
        }
    }

    /// A resolution keeps the registry valid.
    pub proof fn lemma_resolve_valid(self, token: Ledger, now: Moment, listing_id: u32)
        requires
            self.valid(),
            self.resolve(token, now, listing_id) is Ok,
        ensures
            self.resolve(token, now, listing_id)->Ok_0.0.valid(),
    {
        let next = self.resolve(token, now, listing_id)->Ok_0.0;
        let listing_hash = self.index_hash[listing_id];
        let id = self.listings[listing_hash].challenge_id;
        assert(self.listing_consistent(listing_hash));
        assert(self.challenge_consistent(id));
        assert forall|h: ListingHash| #[trigger] next.listings.contains_key(h) implies
            next.listing_consistent(h) by {
            assert(self.listings.contains_key(h));
            assert(self.listing_consistent(h));
        }
        assert forall|n: u32| #[trigger] next.challenges.contains_key(n) implies
            next.challenge_consistent(n) by {
            assert(self.challenges.contains_key(n));
            assert(self.challenge_consistent(n));
        }
    }

    /// A claim keeps the registry valid.
    pub proof fn lemma_claim_reward_valid(self, token: Ledger, sender: AccountId, poll_nonce: u32)
        requires
            self.valid(),
            self.claim_reward(token, sender, poll_nonce) is Ok,
        ensures
            self.claim_reward(token, sender, poll_nonce)->Ok_0.0.valid(),
    {
        let next = self.claim_reward(token, sender, poll_nonce)->Ok_0.0;
        assert forall|h: ListingHash| #[trigger] next.listings.contains_key(h) implies
            next.listing_consistent(h) by {
            assert(self.listing_consistent(h));
        }
        assert forall|n: u32| #[trigger] next.challenges.contains_key(n) implies
            next.challenge_consistent(n) by {
            assert(self.challenge_consistent(n));
        }
        assert forall|n: u32, voter: AccountId| #[trigger]
            next.votes.contains_key((n, voter)) implies next.challenges.contains_key(n) by {
            if (n, voter) != (poll_nonce, sender) {
                assert(self.votes.contains_key((n, voter)));
            }
        }
    }

    /// A finalization keeps the registry valid.
    pub proof fn lemma_finalize_valid(self, now: Moment, listing_id: u32)
        requires
            self.valid(),
            self.finalize(now, listing_id) is Ok,
        ensures
            self.finalize(now, listing_id)->Ok_0.valid(),
    {
        let next = self.finalize(now, listing_id)->Ok_0;
        let listing_hash = self.index_hash[listing_id];
        assert(self.listing_consistent(listing_hash));
        assert forall|h: ListingHash| #[trigger] next.listings.contains_key(h) implies
            next.listing_consistent(h) by {
            assert(self.listings.contains_key(h));
            assert(self.listing_consistent(h));
        }
        assert forall|n: u32| #[trigger] next.challenges.contains_key(n) implies
            next.challenge_consistent(n) by {
            assert(self.challenge_consistent(n));
        }
    }
}

} // verus!
