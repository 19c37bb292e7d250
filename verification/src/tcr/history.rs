//! What holds of registry and ledger through every history of calls.

use crate::primitives::{AccountId, Balance, Error, ListingHash, Moment};
use crate::tcr::registry::{payout, Registry};
use crate::token;
use crate::token::Ledger;
use vstd::prelude::*;

verus! {

/// One call to the registry, as a value.
pub enum Action {
    /// A proposal by `sender`.
    Propose {
        sender: AccountId,
        now: Moment,
        data: Vec<u8>,
        listing_hash: ListingHash,
        deposit: Balance,
    },
    /// A challenge by `sender`.
    Challenge { sender: AccountId, now: Moment, listing_id: u32, deposit: Balance },
    /// A vote by `sender`.
    Vote { sender: AccountId, now: Moment, poll_nonce: u32, value: bool, deposit: Balance },
    /// A resolution, triggered by anyone.
    Resolve { now: Moment, listing_id: u32 },
    /// A claim by `sender`.
    ClaimReward { sender: AccountId, poll_nonce: u32 },
    /// A finalization, triggered by anyone.
    Finalize { now: Moment, listing_id: u32 },
    /// A call to the ledger that is open to end users.
    Token(token::Action),
}

impl Action {
    /// Whether end users can make this call. Escrow moves only through the
    /// registry's own operations.
    pub open spec fn is_public(self) -> bool {
        match self {
            Action::Token(token::Action::Lock { .. }) => false,
            Action::Token(token::Action::Unlock { .. }) => false,
            _ => true,
        }
    }
}

impl Registry {
    /// What the action does to registry and ledger, or why it is refused.
    pub open spec fn attempt(self, token: Ledger, action: Action) -> Result<
        (Registry, Ledger),
        Error,
    > {
        match action {
            Action::Propose { sender, now, data, listing_hash, deposit } => self.propose(
                token,
                sender,
                now,
                data,
                listing_hash,
                deposit,
            ),
            Action::Challenge { sender, now, listing_id, deposit } => self.challenge(
                token,
                sender,
                now,
                listing_id,
                deposit,
            ),
            Action::Vote { sender, now, poll_nonce, value, deposit } => self.vote(
                token,
                sender,
                now,
                poll_nonce,
                value,
                deposit,
            ),
            Action::Resolve { now, listing_id } => self.resolve(token, now, listing_id),
            Action::ClaimReward { sender, poll_nonce } => self.claim_reward(
                token,
                sender,
                poll_nonce,
            ),
            Action::Finalize { now, listing_id } => match self.finalize(now, listing_id) {
                Ok(registry) => Ok((registry, token)),
                Err(e) => Err(e),
            },
            Action::Token(call) => match token.attempt(call) {
                Ok(ledger) => Ok((self, ledger)),
                Err(e) => Err(e),
            },
        }
    }

    /// Registry and ledger after the action: changed as the action says, or,
    /// where the action is refused, as they were.
    pub open spec fn after(self, token: Ledger, action: Action) -> (Registry, Ledger) {
        match self.attempt(token, action) {
            Ok(next) => next,
            Err(_) => (self, token),
        }
    }

    /// Registry and ledger after a history of actions, applied in order.
    pub open spec fn after_all(self, token: Ledger, history: Seq<Action>) -> (Registry, Ledger)
        decreases history.len(),
    {
        if history.len() == 0 {
            (self, token)
        } else {
            let (registry, ledger) = self.after_all(token, history.drop_last());
            registry.after(ledger, history.last())
        }
    }

    /// No action breaks the registry's invariant or the ledger's
    /// conservation of value.
    pub proof fn lemma_action_keeps_invariants(self, token: Ledger, action: Action)
        requires
            self.valid(),
            token.conserved(),
        ensures
            self.after(token, action).0.valid(),
            self.after(token, action).1.conserved(),
    {
        if self.attempt(token, action) is Ok {
            match action {
                Action::Propose { sender, now, data, listing_hash, deposit } => {
                    self.lemma_propose_valid(token, sender, now, data, listing_hash, deposit);
                    token.lemma_lock_conserves(sender, deposit, listing_hash);
                },
                Action::Challenge { sender, now, listing_id, deposit } => {
                    self.lemma_challenge_valid(token, sender, now, listing_id, deposit);
                    token.lemma_lock_conserves(sender, deposit, self.index_hash[listing_id]);
                },
                Action::Vote { sender, now, poll_nonce, value, deposit } => {
                    self.lemma_vote_valid(token, sender, now, poll_nonce, value, deposit);
                    token.lemma_lock_conserves(
                        sender,
                        deposit,
                        self.challenges[poll_nonce].listing_hash,
                    );
                },
                Action::Resolve { now, listing_id } => {
                    self.lemma_resolve_valid(token, now, listing_id);
                    let listing_hash = self.index_hash[listing_id];
                    let listing = self.listings[listing_hash];
                    let challenge = self.challenges[listing.challenge_id];
                    if self.polls[listing.challenge_id].votes_for
                        > self.polls[listing.challenge_id].votes_against {
                        token.lemma_unlock_conserves(listing.owner, listing.deposit, listing_hash);
                    } else {
                        token.lemma_unlock_conserves(
                            challenge.owner,
                            challenge.deposit,
                            listing_hash,
                        );
                    }
                },
                Action::ClaimReward { sender, poll_nonce } => {
                    self.lemma_claim_reward_valid(token, sender, poll_nonce);
                    let challenge = self.challenges[poll_nonce];
                    token.lemma_unlock_conserves(
                        sender,
                        payout(
                            challenge.reward_pool,
                            self.votes[(poll_nonce, sender)].deposit,
                            challenge.total_tokens,
                        ) as Balance,
                        challenge.listing_hash,
                    );
                },
                Action::Finalize { now, listing_id } => {
                    self.lemma_finalize_valid(now, listing_id);
                },
                Action::Token(call) => {
                    token.lemma_action_conserves(call);
                },
            }
        }
    }

    /// No history of actions breaks the registry's invariant or the
    /// ledger's conservation of value.
    pub proof fn lemma_history_keeps_invariants(self, token: Ledger, history: Seq<Action>)
        requires
            self.valid(),
            token.conserved(),
        ensures
            self.after_all(token, history).0.valid(),
            self.after_all(token, history).1.conserved(),
        decreases history.len(),
    {
        if history.len() > 0 {
            self.lemma_history_keeps_invariants(token, history.drop_last());
            let (registry, ledger) = self.after_all(token, history.drop_last());
            registry.lemma_action_keeps_invariants(ledger, history.last());
        }
    }

    /// No action open to end users leaves an escrow short of what is due
    /// from it.
    pub proof fn lemma_action_keeps_backing(self, token: Ledger, action: Action)
        requires
            self.valid(),
            self.backed_by(token),
            action.is_public(),
        ensures
            self.after(token, action).0.backed_by(self.after(token, action).1),
    {
        if self.attempt(token, action) is Ok {
            match action {
                Action::Propose { sender, now, data, listing_hash, deposit } => {
                    self.lemma_propose_backed(token, sender, now, data, listing_hash, deposit);
                },
                Action::Challenge { sender, now, listing_id, deposit } => {
                    self.lemma_challenge_backed(token, sender, now, listing_id, deposit);
                },
                Action::Vote { sender, now, poll_nonce, value, deposit } => {
                    self.lemma_vote_backed(token, sender, now, poll_nonce, value, deposit);
                },
                Action::Resolve { now, listing_id } => {
                    self.lemma_resolve_backed(token, now, listing_id);
                },
                Action::ClaimReward { sender, poll_nonce } => {
                    self.lemma_claim_reward_backed(token, sender, poll_nonce);
                },
                Action::Finalize { now, listing_id } => {
                    self.lemma_finalize_backed(token, now, listing_id);
                },
                Action::Token(call) => {
                    self.lemma_token_call_backed(token, call);
                },
            }
        }
    }

    /// Whether end users can make every call of the history.
    pub open spec fn all_public(history: Seq<Action>) -> bool {
        forall|i: int| 0 <= i < history.len() ==> (#[trigger] history[i]).is_public()
    }

    /// No history of actions open to end users leaves an escrow short of
    /// what is due from it.
    pub proof fn lemma_history_keeps_backing(self, token: Ledger, history: Seq<Action>)
        requires
            self.valid(),
            token.conserved(),
            self.backed_by(token),
            Registry::all_public(history),
        ensures
            self.after_all(token, history).0.backed_by(self.after_all(token, history).1),
        decreases history.len(),
    {
        if history.len() > 0 {
            assert(Registry::all_public(history.drop_last())) by {
                assert forall|i: int| 0 <= i < history.drop_last().len() implies (
                #[trigger] history.drop_last()[i]).is_public() by {
                    assert(history[i].is_public());
                }
            }
            assert(history[history.len() - 1].is_public());
            self.lemma_history_keeps_backing(token, history.drop_last());
            self.lemma_history_keeps_invariants(token, history.drop_last());
            let (registry, ledger) = self.after_all(token, history.drop_last());
            registry.lemma_action_keeps_backing(ledger, history.last());
        }
    }

    /// In every reachable state the registry is valid and the ledger
    /// conserves value: whatever actions a freshly configured registry and
    /// ledger have gone through, balances and escrowed deposits sum to what
    /// was minted. Where end users could make all of those actions, every
    /// escrow also covers what is due from it.
    pub proof fn lemma_reachable_invariants(
        min_deposit: Option<Balance>,
        apply_stage_len: Option<Moment>,
        commit_stage_len: Option<Moment>,
        owner: AccountId,
        total_supply: Balance,
        history: Seq<Action>,
    )
        ensures
            ({
                let (registry, ledger) = Registry::genesis(
                    min_deposit,
                    apply_stage_len,
                    commit_stage_len,
                ).after_all(Ledger::genesis(owner, total_supply), history);
                &&& registry.valid()
                &&& ledger.conserved()
                &&& Registry::all_public(history) ==> registry.backed_by(ledger)
            }),
    {
        let registry = Registry::genesis(min_deposit, apply_stage_len, commit_stage_len);
        let token = Ledger::genesis(owner, total_supply);
        Registry::lemma_genesis_valid(min_deposit, apply_stage_len, commit_stage_len);
        Ledger::lemma_genesis_conserved(owner, total_supply);
        Registry::lemma_genesis_backed(min_deposit, apply_stage_len, commit_stage_len, token);
        registry.lemma_history_keeps_invariants(token, history);
        if Registry::all_public(history) {
            registry.lemma_history_keeps_backing(token, history);
        }
    }

    /// Whether the listing with the given id carries a challenge.
    pub open spec fn is_challenged(self, listing_id: u32) -> bool {
        self.listing_by_id(listing_id) matches Some((_, listing)) && listing.challenge_id != 0
    }

    /// Whether the challenge against the listing with the given id has been
    /// resolved.
    pub open spec fn is_resolved(self, listing_id: u32) -> bool {
        &&& self.listing_by_id(listing_id) matches Some((_, listing))
        &&& listing.challenge_id != 0
        &&& self.dispute(listing.challenge_id) matches Some((challenge, _))
        &&& challenge.resolved
    }

    /// A listing keeps its challenge, and a challenge its resolution,
    /// through every action.
    pub proof fn lemma_action_keeps_dispute(self, token: Ledger, action: Action, listing_id: u32)
        requires
            self.valid(),
        ensures
            self.is_challenged(listing_id) ==> self.after(token, action).0.is_challenged(
                listing_id,
            ),
            self.is_resolved(listing_id) ==> self.after(token, action).0.is_resolved(listing_id),
    {
        if self.is_challenged(listing_id) {
            let listing_hash = self.index_hash[listing_id];
            assert(self.listing_consistent(listing_hash));
            assert(self.challenge_consistent(self.listings[listing_hash].challenge_id));
            match action {
                Action::Challenge { sender, now, listing_id: other, deposit } => {
                    if self.index_hash.contains_key(other) {
                        assert(self.listings.contains_key(self.index_hash[other]));
                        assert(self.listing_consistent(self.index_hash[other]));
                    }
                },
                Action::Resolve { now, listing_id: other } => {
                    if self.index_hash.contains_key(other) {
                        assert(self.listings.contains_key(self.index_hash[other]));
                        assert(self.listing_consistent(self.index_hash[other]));
                    }
                },
                Action::Finalize { now, listing_id: other } => {
                    if self.index_hash.contains_key(other) {
                        assert(self.listings.contains_key(self.index_hash[other]));
                        assert(self.listing_consistent(self.index_hash[other]));
                    }
                },
                _ => {},
            }
        }
    }

    /// A listing cannot be challenged twice: once a challenge has succeeded,
    /// and whatever has happened since, every further challenge of the same
    /// listing, by anyone, is refused as already challenged.
    pub proof fn lemma_challenge_succeeds_once(
        self,
        token: Ledger,
        first: Action,
        history: Seq<Action>,
        sender: AccountId,
        now: Moment,
        deposit: Balance,
    )
        requires
            self.valid(),
            token.conserved(),
            first is Challenge,
            self.attempt(token, first) is Ok,
        ensures
            ({
                let (challenged, ledger) = self.attempt(token, first)->Ok_0;
                let (registry, token) = challenged.after_all(ledger, history);
                registry.challenge(token, sender, now, first->Challenge_listing_id, deposit)
                    == Err::<(Registry, Ledger), Error>(Error::AlreadyChallenged)
            }),
    {
        let (challenged, ledger) = self.attempt(token, first)->Ok_0;
        self.lemma_action_keeps_invariants(token, first);
        challenged.lemma_dispute_is_permanent(ledger, history, first->Challenge_listing_id);
    }

    /// Resolution happens once: after a challenge has been resolved, and
    /// whatever has happened since, every further resolution of the same
    /// listing is refused as already resolved.
    pub proof fn lemma_resolve_succeeds_once(
        self,
        token: Ledger,
        first: Action,
        history: Seq<Action>,
        now: Moment,
    )
        requires
            self.valid(),
            token.conserved(),
            first is Resolve,
            self.attempt(token, first) is Ok,
        ensures
            ({
                let (resolved, ledger) = self.attempt(token, first)->Ok_0;
                let (registry, token) = resolved.after_all(ledger, history);
                registry.resolve(token, now, first->Resolve_listing_id) == Err::<
                    (Registry, Ledger),
                    Error,
                >(Error::AlreadyResolved)
            }),
    {
        let (resolved, ledger) = self.attempt(token, first)->Ok_0;
        self.lemma_action_keeps_invariants(token, first);
        resolved.lemma_dispute_is_permanent(ledger, history, first->Resolve_listing_id);
    }

    /// Through every history of actions a challenged listing stays
    /// challenged and a resolved challenge stays resolved.
    pub proof fn lemma_dispute_is_permanent(
        self,
        token: Ledger,
        history: Seq<Action>,
        listing_id: u32,
    )
        requires
            self.valid(),
            token.conserved(),
        ensures
            self.is_challenged(listing_id) ==> self.after_all(token, history).0.is_challenged(
                listing_id,
            ),
            self.is_resolved(listing_id) ==> self.after_all(token, history).0.is_resolved(
                listing_id,
            ),
        decreases history.len(),
    {
        if history.len() > 0 {
            self.lemma_dispute_is_permanent(token, history.drop_last(), listing_id);
            self.lemma_history_keeps_invariants(token, history.drop_last());
            let (registry, ledger) = self.after_all(token, history.drop_last());
            registry.lemma_action_keeps_dispute(ledger, history.last(), listing_id);
        }
    }

    /// Whether the challenge with the given id has been resolved.
    pub open spec fn poll_resolved(self, poll_nonce: u32) -> bool {
        self.dispute(poll_nonce) matches Some((challenge, _)) && challenge.resolved
    }

    /// Whether `voter` has voted in the given poll.
    pub open spec fn has_voted(self, poll_nonce: u32, voter: AccountId) -> bool {
        self.votes.contains_key((poll_nonce, voter))
    }

    /// Whether `voter` has withdrawn what its vote in the given poll earned.
    pub open spec fn has_claimed(self, poll_nonce: u32, voter: AccountId) -> bool {
        self.has_voted(poll_nonce, voter) && self.votes[(poll_nonce, voter)].claimed
    }

    /// Polls and votes are kept for good: through every action a challenge
    /// stays stored and, once resolved, resolved; a vote stays cast, for the
    /// same side and with the same stake; and a vote that has been paid
    /// stays paid.
    pub proof fn lemma_action_keeps_votes(
        self,
        token: Ledger,
        action: Action,
        poll_nonce: u32,
        voter: AccountId,
    )
        requires
            self.valid(),
        ensures
            ({
                let next = self.after(token, action).0;
                &&& self.dispute(poll_nonce) is Some ==> next.dispute(poll_nonce) is Some
                &&& self.poll_resolved(poll_nonce) ==> next.poll_resolved(poll_nonce)
                &&& self.has_voted(poll_nonce, voter) ==> {
                    &&& next.has_voted(poll_nonce, voter)
                    &&& next.votes[(poll_nonce, voter)].value == self.votes[(
                        poll_nonce,
                        voter,
                    )].value
                    &&& next.votes[(poll_nonce, voter)].deposit == self.votes[(
                        poll_nonce,
                        voter,
                    )].deposit
                }
                &&& self.has_claimed(poll_nonce, voter) ==> next.has_claimed(poll_nonce, voter)
            }),
    {
        if self.dispute(poll_nonce) is Some {
            assert(self.challenge_consistent(poll_nonce));
            match action {
                Action::Resolve { now, listing_id } => {
                    if self.index_hash.contains_key(listing_id) {
                        assert(self.listings.contains_key(self.index_hash[listing_id]));
                        assert(self.listing_consistent(self.index_hash[listing_id]));
                    }
                },
                _ => {},
            }
        }
    }

    /// Through every history of actions a challenge stays stored and, once
    /// resolved, resolved; a vote stays cast; and a vote that has been paid
    /// stays paid.
    pub proof fn lemma_votes_are_permanent(
        self,
        token: Ledger,
        history: Seq<Action>,
        poll_nonce: u32,
        voter: AccountId,
    )
        requires
            self.valid(),
            token.conserved(),
        ensures
            ({
                let next = self.after_all(token, history).0;
                &&& self.dispute(poll_nonce) is Some ==> next.dispute(poll_nonce) is Some
                &&& self.poll_resolved(poll_nonce) ==> next.poll_resolved(poll_nonce)
                &&& self.has_voted(poll_nonce, voter) ==> next.has_voted(poll_nonce, voter)
                &&& self.has_claimed(poll_nonce, voter) ==> next.has_claimed(poll_nonce, voter)
            }),
        decreases history.len(),
    {
        if history.len() > 0 {
            self.lemma_votes_are_permanent(token, history.drop_last(), poll_nonce, voter);
            self.lemma_history_keeps_invariants(token, history.drop_last());
            let (registry, ledger) = self.after_all(token, history.drop_last());
            registry.lemma_action_keeps_votes(ledger, history.last(), poll_nonce, voter);
        }
    }

    /// One vote per account and poll: once an account has voted, and
    /// whatever has happened since, every further vote of that account in
    /// the same poll is refused.
    pub proof fn lemma_vote_succeeds_once(
        self,
        token: Ledger,
        first: Action,
        history: Seq<Action>,
        now: Moment,
        value: bool,
        deposit: Balance,
    )
        requires
            self.valid(),
            token.conserved(),
            first is Vote,
            self.attempt(token, first) is Ok,
        ensures
            ({
                let (voted, ledger) = self.attempt(token, first)->Ok_0;
                let (registry, token) = voted.after_all(ledger, history);
                let again = registry.vote(
                    token,
                    first->Vote_sender,
                    now,
                    first->Vote_poll_nonce,
                    value,
                    deposit,
                );
                again matches Err(e) && (e == Error::AlreadyResolved || e == Error::StageExpired
                    || e == Error::AlreadyVoted)
            }),
    {
        let (voted, ledger) = self.attempt(token, first)->Ok_0;
        self.lemma_action_keeps_invariants(token, first);
        voted.lemma_votes_are_permanent(
            ledger,
            history,
            first->Vote_poll_nonce,
            first->Vote_sender,
        );
    }

    /// A vote is paid once: after a claim has succeeded, and whatever has
    /// happened since, every further claim of the same voter in the same
    /// poll is refused as already claimed.
    pub proof fn lemma_claim_reward_succeeds_once(
        self,
        token: Ledger,
        first: Action,
        history: Seq<Action>,
    )
        requires
            self.valid(),
            token.conserved(),
            first is ClaimReward,
            self.attempt(token, first) is Ok,
        ensures
            ({
                let (paid, ledger) = self.attempt(token, first)->Ok_0;
                let (registry, token) = paid.after_all(ledger, history);
                registry.claim_reward(
                    token,
                    first->ClaimReward_sender,
                    first->ClaimReward_poll_nonce,
                ) == Err::<(Registry, Ledger), Error>(Error::AlreadyClaimed)
            }),
    {
        let (paid, ledger) = self.attempt(token, first)->Ok_0;
        self.lemma_action_keeps_invariants(token, first);
        paid.lemma_votes_are_permanent(
            ledger,
            history,
            first->ClaimReward_poll_nonce,
            first->ClaimReward_sender,
        );
    }

    /// Listings are kept for good: through every action a stored listing
    /// stays stored, with the id, data, deposit, owner and apply window it
    /// was proposed with; it changes its standing only through a resolution
    /// or a finalization; and the counters of listings and polls never go
    /// back.
    pub proof fn lemma_action_keeps_listings(
        self,
        token: Ledger,
        action: Action,
        listing_hash: ListingHash,
    )
        requires
            self.valid(),
            self.listings.contains_key(listing_hash),
        ensures
            ({
                let before = self.listings[listing_hash];
                let next = self.after(token, action).0;
                let after = next.listings[listing_hash];
                &&& next.listings.contains_key(listing_hash)
                &&& after.id == before.id
                &&& after.data == before.data
                &&& after.deposit == before.deposit
                &&& after.owner == before.owner
                &&& after.application_expiry == before.application_expiry
                &&& after.whitelisted != before.whitelisted ==> action is Resolve
                    || action is Finalize
                &&& next.listing_count >= self.listing_count
                &&& next.poll_nonce >= self.poll_nonce
            }),
    {
    }

    /// At most one challenge is ever raised against a listing.
    pub proof fn lemma_one_challenge_per_listing(self, first: u32, second: u32)
        requires
            self.valid(),
            self.challenges.contains_key(first),
            self.challenges.contains_key(second),
            self.challenges[first].listing_hash == self.challenges[second].listing_hash,
        ensures
            first == second,
    {
        assert(self.challenge_consistent(first));
        assert(self.challenge_consistent(second));
    }
}

} // verus!
