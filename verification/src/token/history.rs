//! What holds of a ledger through every history of calls.

use crate::primitives::{AccountId, Balance, Error, ListingHash};
use crate::sum::total;
use crate::token::ledger::Ledger;
use vstd::prelude::*;

verus! {

/// One call to the ledger, as a value.
pub enum Action {
    /// The genesis mint, attempted by `sender`.
    Init { sender: AccountId },
    /// A transfer of `value` from `from` to `to`.
    Transfer { from: AccountId, to: AccountId, value: Balance },
    /// An approval by `owner` of `value` more for `spender`.
    Approve { owner: AccountId, spender: AccountId, value: Balance },
    /// A delegated transfer by `spender` of `value` from `from` to `to`.
    TransferFrom { spender: AccountId, from: AccountId, to: AccountId, value: Balance },
    /// An escrow of `value` out of `from`'s balance against `subject`.
    Lock { from: AccountId, value: Balance, subject: ListingHash },
    /// A release of `value` to `to` out of the escrow of `subject`.
    Unlock { to: AccountId, value: Balance, subject: ListingHash },
}

impl Ledger {
    /// What the action does to the ledger, or why it is refused.
    pub open spec fn attempt(self, action: Action) -> Result<Ledger, Error> {
        match action {
            Action::Init { sender } => self.init(sender),
            Action::Transfer { from, to, value } => self.transfer(from, to, value),
            Action::Approve { owner, spender, value } => self.approve(owner, spender, value),
            Action::TransferFrom { spender, from, to, value } => self.transfer_from(
                spender,
                from,
                to,
                value,
            ),
            Action::Lock { from, value, subject } => self.lock(from, value, subject),
            Action::Unlock { to, value, subject } => self.unlock(to, value, subject),
        }
    }

    /// The ledger after the action: changed as the action says, or, where
    /// the action is refused, as it was.
    pub open spec fn after(self, action: Action) -> Ledger {
        match self.attempt(action) {
            Ok(next) => next,
            Err(_) => self,
        }
    }

    /// The ledger after a history of actions, applied in order.
    pub open spec fn after_all(self, history: Seq<Action>) -> Ledger
        decreases history.len(),
    {
        if history.len() == 0 {
            self
        } else {
            self.after_all(history.drop_last()).after(history.last())
        }
    }

    /// No action creates or destroys value.
    pub proof fn lemma_action_conserves(self, action: Action)
        requires
            self.conserved(),
        ensures
            self.after(action).conserved(),
    {
        if self.attempt(action) is Ok {
            match action {
                Action::Init { sender } => self.lemma_init_conserves(sender),
                Action::Transfer { from, to, value } => self.lemma_transfer_conserves(
                    from,
                    to,
                    value,
                ),
                Action::Approve { owner, spender, value } => self.lemma_approve_conserves(
                    owner,
                    spender,
                    value,
                ),
                Action::TransferFrom {
                    spender,
                    from,
                    to,
                    value,
                } => self.lemma_transfer_from_conserves(spender, from, to, value),
                Action::Lock { from, value, subject } => self.lemma_lock_conserves(
                    from,
                    value,
                    subject,
                ),
                Action::Unlock { to, value, subject } => self.lemma_unlock_conserves(
                    to,
                    value,
                    subject,
                ),
            }
        }
    }

    /// Conservation of value in every reachable state: whatever actions a
    /// freshly configured ledger has gone through, its balances and escrowed
    /// deposits sum to what was minted, which is the whole supply once the
    /// genesis mint has happened.
    pub proof fn lemma_reachable_conserved(
        owner: AccountId,
        total_supply: Balance,
        history: Seq<Action>,
    )
        ensures
            ({
                let reached = Ledger::genesis(owner, total_supply).after_all(history);
                &&& reached.conserved()
                &&& reached.total_supply == total_supply
                &&& reached.init ==> total(reached.balances) + total(reached.locked)
                    == total_supply
                &&& !reached.init ==> total(reached.balances) + total(reached.locked) == 0
            }),
        decreases history.len(),
    {
        if history.len() == 0 {
            Ledger::lemma_genesis_conserved(owner, total_supply);
        } else {
            Ledger::lemma_reachable_conserved(owner, total_supply, history.drop_last());
            Ledger::genesis(owner, total_supply).after_all(
                history.drop_last(),
            ).lemma_action_conserves(history.last());
        }
    }

    /// The genesis mint cannot be undone: once it has happened, no history
    /// of actions brings the ledger back to where it could happen again.
    pub proof fn lemma_init_is_permanent(self, history: Seq<Action>)
        requires
            self.init,
        ensures
            self.after_all(history).init,
        decreases history.len(),
    {
        if history.len() > 0 {
            self.lemma_init_is_permanent(history.drop_last());
        }
    }

    /// The genesis mint succeeds at most once: after it has succeeded, and
    /// whatever has happened since, every further attempt by anyone is
    /// refused as already initialized.
    pub proof fn lemma_init_succeeds_once(
        self,
        first: AccountId,
        history: Seq<Action>,
        second: AccountId,
    )
        requires
            self.init(first) is Ok,
        ensures
            self.init(first)->Ok_0.after_all(history).init(second) == Err::<Ledger, Error>(
                Error::AlreadyInitialized,
            ),
    {
        self.init(first)->Ok_0.lemma_init_is_permanent(history);
    }

    /// A delegated transfer never moves more than the allowance it draws on,
    /// and the allowance shrinks by exactly the amount moved.
    pub proof fn lemma_transfer_from_spends_allowance(
        self,
        spender: AccountId,
        from: AccountId,
        to: AccountId,
        value: Balance,
    )
        requires
            self.transfer_from(spender, from, to, value) is Ok,
        ensures
            value <= self.allowance(from, spender),
            self.transfer_from(spender, from, to, value)->Ok_0.allowance(from, spender)
                == self.allowance(from, spender) - value,
            from != to ==> ({
                let next = self.transfer_from(spender, from, to, value)->Ok_0;
                &&& next.balance_of(from) == self.balance_of(from) - value
                &&& next.balance_of(to) == self.balance_of(to) + value
            }),
            from == to ==> self.transfer_from(spender, from, to, value)->Ok_0.balance_of(from)
                == self.balance_of(from),
    {
    }

    /// Approvals accumulate: two in a row raise the allowance by the sum of
    /// their amounts.
    pub proof fn lemma_approve_accumulates(
        self,
        owner: AccountId,
        spender: AccountId,
        first: Balance,
        second: Balance,
    )
        requires
            self.approve(owner, spender, first) is Ok,
            self.approve(owner, spender, first)->Ok_0.approve(owner, spender, second) is Ok,
        ensures
            self.approve(owner, spender, first)->Ok_0.approve(
                owner,
                spender,
                second,
            )->Ok_0.allowance(owner, spender) == self.allowance(owner, spender) + first + second,
    {
    }
}

} // verus!
