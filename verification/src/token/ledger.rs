//! The ledger as a mathematical value, its transitions, and the proof that
//! each of them conserves value.

use crate::primitives::{AccountId, Balance, Error, ListingHash};
use crate::sum::{amount_at, lemma_total_bounds, lemma_total_empty, lemma_total_insert, total};
use vstd::prelude::*;

verus! {

/// The ledger as a mathematical value.
pub struct Ledger {
    /// Whether the genesis mint has happened.
    pub init: bool,
    /// The only account that may trigger the genesis mint.
    pub owner: AccountId,
    /// The quantity minted at genesis.
    pub total_supply: Balance,
    /// Spendable balance per account.
    pub balances: Map<AccountId, Balance>,
    /// What a spender may still move out of an owner's balance, keyed by
    /// `(owner, spender)`.
    pub allowances: Map<(AccountId, AccountId), Balance>,
    /// Escrowed amount per listing.
    pub locked: Map<ListingHash, Balance>,
}

impl Ledger {
    /// The ledger as configured, before the genesis mint.
    pub open spec fn genesis(owner: AccountId, total_supply: Balance) -> Ledger {
        Ledger {
            init: false,
            owner,
            total_supply,
            balances: Map::empty(),
            allowances: Map::empty(),
            locked: Map::empty(),
        }
    }

    /// Spendable balance of `who`; zero for an account never credited.
    pub open spec fn balance_of(self, who: AccountId) -> Balance {
        amount_at(self.balances, who)
    }

    /// What `spender` may still move out of `owner`'s balance.
    pub open spec fn allowance(self, owner: AccountId, spender: AccountId) -> Balance {
        amount_at(self.allowances, (owner, spender))
    }

    /// Amount escrowed against `subject`.
    pub open spec fn locked_deposits(self, subject: ListingHash) -> Balance {
        amount_at(self.locked, subject)
    }

    /// The quantity of tokens in existence.
    pub open spec fn minted(self) -> nat {
        if self.init {
            self.total_supply as nat
        } else {
            0
        }
    }

    /// Only finitely many accounts and subjects hold anything.
    pub open spec fn finite(self) -> bool {
        &&& self.balances.dom().finite()
        &&& self.allowances.dom().finite()
        &&& self.locked.dom().finite()
    }

    /// Conservation of value: spendable balances and escrowed deposits
    /// together make up exactly what was minted.
    pub open spec fn conserved(self) -> bool {
        &&& self.finite()
        &&& total(self.balances) + total(self.locked) == self.minted()
    }

    /// The genesis mint: credits the owner with the whole supply, once.
    pub open spec fn init(self, sender: AccountId) -> Result<Ledger, Error> {
        if self.init {
            Err(Error::AlreadyInitialized)
        } else if sender != self.owner {
            Err(Error::Unauthorized)
        } else {
            Ok(
                Ledger {
                    init: true,
                    balances: self.balances.insert(sender, self.total_supply),
                    ..self
                },
            )
        }
    }

    /// The balances after `value` has left `from` and then reached `to`.
    pub open spec fn moved(self, from: AccountId, to: AccountId, value: Balance) -> Map<
        AccountId,
        Balance,
    > {
        let debited = self.balances.insert(from, (self.balance_of(from) - value) as Balance);
        debited.insert(to, (amount_at(debited, to) + value) as Balance)
    }

    /// Debits `from` and credits `to`.
    pub open spec fn transfer(self, from: AccountId, to: AccountId, value: Balance) -> Result<
        Ledger,
        Error,
    > {
        if self.balance_of(from) < value {
            Err(Error::InsufficientBalance)
        } else if self.balance_of(to) + value > Balance::MAX {
            Err(Error::Overflow)
        } else {
            Ok(Ledger { balances: self.moved(from, to, value), ..self })
        }
    }

    /// Raises what `spender` may move out of `owner`'s balance by `value`.
    pub open spec fn approve(self, owner: AccountId, spender: AccountId, value: Balance) -> Result<
        Ledger,
        Error,
    > {
        if self.allowance(owner, spender) + value > Balance::MAX {
            Err(Error::Overflow)
        } else {
            Ok(
                Ledger {
                    allowances: self.allowances.insert(
                        (owner, spender),
                        (self.allowance(owner, spender) + value) as Balance,
                    ),
                    ..self
                },
            )
        }
    }

    /// A transfer out of `from`'s balance made by `spender` against its
    /// allowance, which shrinks by `value`.
    pub open spec fn transfer_from(
        self,
        spender: AccountId,
        from: AccountId,
        to: AccountId,
        value: Balance,
    ) -> Result<Ledger, Error> {
        if !self.allowances.contains_key((from, spender)) {
            Err(Error::AllowanceNotFound)
        } else if self.allowances[(from, spender)] < value {
            Err(Error::InsufficientAllowance)
        } else {
            match self.transfer(from, to, value) {
                Err(e) => Err(e),
                Ok(paid) => Ok(
                    Ledger {
                        allowances: self.allowances.insert(
                            (from, spender),
                            (self.allowances[(from, spender)] - value) as Balance,
                        ),
                        ..paid
                    },
                ),
            }
        }
    }

    /// Moves `value` out of `from`'s balance into the escrow of `subject`.
    pub open spec fn lock(self, from: AccountId, value: Balance, subject: ListingHash) -> Result<
        Ledger,
        Error,
    > {
        if self.balance_of(from) < value {
            Err(Error::InsufficientBalance)
        } else if self.locked_deposits(subject) + value > Balance::MAX {
            Err(Error::Overflow)
        } else {
            Ok(
                Ledger {
                    balances: self.balances.insert(
                        from,
                        (self.balance_of(from) - value) as Balance,
                    ),
                    locked: self.locked.insert(
                        subject,
                        (self.locked_deposits(subject) + value) as Balance,
                    ),
                    ..self
                },
            )
        }
    }

    /// Moves `value` out of the escrow of `subject` into `to`'s balance.
    pub open spec fn unlock(self, to: AccountId, value: Balance, subject: ListingHash) -> Result<
        Ledger,
        Error,
    > {
        if self.balance_of(to) + value > Balance::MAX {
            Err(Error::Overflow)
        } else if self.locked_deposits(subject) < value {
            Err(Error::InsufficientBalance)
        } else {
            Ok(
                Ledger {
                    balances: self.balances.insert(to, (self.balance_of(to) + value) as Balance),
                    locked: self.locked.insert(
                        subject,
                        (self.locked_deposits(subject) - value) as Balance,
                    ),
                    ..self
                },
            )
        }
    }
}

impl Ledger {
    /// The ledger as configured conserves value: nothing is minted yet and
    /// nothing is held.
    pub proof fn lemma_genesis_conserved(owner: AccountId, total_supply: Balance)
        ensures
            Ledger::genesis(owner, total_supply).conserved(),
    {
        lemma_total_empty::<AccountId>();
        lemma_total_empty::<ListingHash>();
    }

    /// The genesis mint conserves value: the supply comes into existence in
    /// the owner's balance.
    pub proof fn lemma_init_conserves(self, sender: AccountId)
        requires
            self.conserved(),
            self.init(sender) is Ok,
        ensures
            self.init(sender)->Ok_0.conserved(),
    {
        lemma_total_bounds(self.balances, sender);
        lemma_total_insert(self.balances, sender, self.total_supply);
    }

    /// A transfer leaves the sum of all balances as it was.
    pub proof fn lemma_moved_total(self, from: AccountId, to: AccountId, value: Balance)
        requires
            self.balances.dom().finite(),
            self.transfer(from, to, value) is Ok,
        ensures
            self.moved(from, to, value).dom().finite(),
            total(self.moved(from, to, value)) == total(self.balances),
    {
        let debited = self.balances.insert(from, (self.balance_of(from) - value) as Balance);
        lemma_total_insert(self.balances, from, (self.balance_of(from) - value) as Balance);
        lemma_total_insert(debited, to, (amount_at(debited, to) + value) as Balance);
    }

    /// A transfer conserves value.
    pub proof fn lemma_transfer_conserves(self, from: AccountId, to: AccountId, value: Balance)
        requires
            self.conserved(),
            self.transfer(from, to, value) is Ok,
        ensures
            self.transfer(from, to, value)->Ok_0.conserved(),
    {
        self.lemma_moved_total(from, to, value);
    }

    /// An approval moves no value.
    pub proof fn lemma_approve_conserves(self, owner: AccountId, spender: AccountId, value: Balance)
        requires
            self.conserved(),
            self.approve(owner, spender, value) is Ok,
        ensures
            self.approve(owner, spender, value)->Ok_0.conserved(),
    {
    }

    /// A delegated transfer conserves value.
    pub proof fn lemma_transfer_from_conserves(
        self,
        spender: AccountId,
        from: AccountId,
        to: AccountId,
        value: Balance,
    )
        requires
            self.conserved(),
            self.transfer_from(spender, from, to, value) is Ok,
        ensures
            self.transfer_from(spender, from, to, value)->Ok_0.conserved(),
    {
        self.lemma_moved_total(from, to, value);
    }

    /// Locking conserves value: what leaves the balance enters the escrow.
    pub proof fn lemma_lock_conserves(self, from: AccountId, value: Balance, subject: ListingHash)
        requires
            self.conserved(),
            self.lock(from, value, subject) is Ok,
        ensures
            self.lock(from, value, subject)->Ok_0.conserved(),
    {
        lemma_total_insert(self.balances, from, (self.balance_of(from) - value) as Balance);
        lemma_total_insert(
            self.locked,
            subject,
            (self.locked_deposits(subject) + value) as Balance,
        );
    }

    /// Unlocking conserves value: what leaves the escrow enters the balance.
    pub proof fn lemma_unlock_conserves(self, to: AccountId, value: Balance, subject: ListingHash)
        requires
            self.conserved(),
            self.unlock(to, value, subject) is Ok,
        ensures
            self.unlock(to, value, subject)->Ok_0.conserved(),
    {
        lemma_total_insert(self.balances, to, (self.balance_of(to) + value) as Balance);
        lemma_total_insert(
            self.locked,
            subject,
            (self.locked_deposits(subject) - value) as Balance,
        );
    }

    /// Nothing observable is ever negative: every balance, allowance and
    /// escrowed amount is at least zero.
    pub proof fn lemma_nothing_negative(
        self,
        who: AccountId,
        spender: AccountId,
        subject: ListingHash,
    )
        ensures
            0 <= self.balance_of(who),
            0 <= self.allowance(who, spender),
            0 <= self.locked_deposits(subject),
    {
    }

    /// No balance and no escrow holds more than what was minted, nor do any
    /// one balance and any one escrow together.
    pub proof fn lemma_holdings_bounded(self, who: AccountId, subject: ListingHash)
        requires
            self.conserved(),
        ensures
            self.balance_of(who) <= self.minted(),
            self.locked_deposits(subject) <= self.minted(),
            self.balance_of(who) + self.locked_deposits(subject) <= self.minted(),
    {
        lemma_total_bounds(self.balances, who);
        lemma_total_bounds(self.locked, subject);
    }
}

} // verus!
