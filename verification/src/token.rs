//! The token ledger: spendable balances, delegated allowances and deposits
//! escrowed against registry subjects.
//!
//! [`Ledger`] is the mathematical state, with one transition function per
//! operation. [`Module`] is the executable state; each of its operations
//! performs exactly the transition of the same name, or fails and changes
//! nothing.

use crate::primitives::{AccountId, Balance, Error, ListingHash};
use crate::table::Table;
use vstd::prelude::*;

pub mod history;
pub mod ledger;

pub use history::Action;
pub use ledger::Ledger;

verus! {

/// What a successful ledger operation reports to observers.
#[derive(Clone, Copy, Debug, PartialEq, Eq, Structural)]
pub enum Event {
    /// `Transfer(from, to, amount)`
    Transfer(AccountId, AccountId, Balance),
    /// `Approval(owner, spender, amount)`
    Approval(AccountId, AccountId, Balance),
}

/// The ledger's executable state.
pub struct Module {
    init: bool,
    owner: AccountId,
    total_supply: Balance,
    balance_of: Table<AccountId, Balance>,
    allowance: Table<(AccountId, AccountId), Balance>,
    locked_deposits: Table<ListingHash, Balance>,
}

impl View for Module {
    type V = Ledger;

    closed spec fn view(&self) -> Ledger {
        Ledger {
            init: self.init,
            owner: self.owner,
            total_supply: self.total_supply,
            balances: self.balance_of@,
            allowances: self.allowance@,
            locked: self.locked_deposits@,
        }
    }
}

impl Module {
    /// The stored tables hold each key once.
    pub closed spec fn well_stored(&self) -> bool {
        &&& self.balance_of.wf()
        &&& self.allowance.wf()
        &&& self.locked_deposits.wf()
    }

    /// The invariant of every ledger: it is well stored and conserves value.
    pub open spec fn wf(&self) -> bool {
        &&& self.well_stored()
        &&& self@.conserved()
    }

    proof fn lemma_finite(&self)
        ensures
            self@.finite(),
    {
        self.balance_of.lemma_finite();
        self.allowance.lemma_finite();
        self.locked_deposits.lemma_finite();
    }

    /// A ledger configured with its owner and supply, before the genesis
    /// mint.
    pub fn new(owner: AccountId, total_supply: Balance) -> (ledger: Module)
        ensures
            ledger.wf(),
            ledger@ == Ledger::genesis(owner, total_supply),
    {
        let ledger = Module {
            init: false,
            owner,
            total_supply,
            balance_of: Table::new(),
            allowance: Table::new(),
            locked_deposits: Table::new(),
        };
        proof {
            Ledger::lemma_genesis_conserved(owner, total_supply);
        }
        ledger
    }

    /// Whether the genesis mint has happened.
    pub fn is_init(&self) -> (done: bool)
        ensures
            done == self@.init,
    {
        self.init
    }

    /// The account that may trigger the genesis mint.
    pub fn owner(&self) -> (owner: AccountId)
        ensures
            owner == self@.owner,
    {
        self.owner
    }

    /// The quantity minted at genesis.
    pub fn total_supply(&self) -> (supply: Balance)
        ensures
            supply == self@.total_supply,
    {
        self.total_supply
    }

    /// Spendable balance of `who`.
    pub fn balance_of(&self, who: AccountId) -> (balance: Balance)
        requires
            self.wf(),
        ensures
            balance == self@.balance_of(who),
    {
        match self.balance_of.get(&who) {
            Some(amount) => *amount,
            None => 0,
        }
    }

    /// What `spender` may still move out of `owner`'s balance.
    pub fn allowance(&self, owner: AccountId, spender: AccountId) -> (allowance: Balance)
        requires
            self.wf(),
        ensures
            allowance == self@.allowance(owner, spender),
    {
        match self.allowance.get(&(owner, spender)) {
            Some(amount) => *amount,
            None => 0,
        }
    }

    /// Amount escrowed against `subject`.
    pub fn locked_deposits(&self, subject: &ListingHash) -> (locked: Balance)
        requires
            self.wf(),
        ensures
            locked == self@.locked_deposits(*subject),
    {
        match self.locked_deposits.get(subject) {
            Some(amount) => *amount,
            None => 0,
        }
    }

    /// The genesis mint. Succeeds once, for the owner; credits it with the
    /// whole supply.
    pub fn init(&mut self, sender: &AccountId) -> (done: Result<(), Error>)
        requires
            old(self).wf(),
        ensures
            final(self).wf(),
            (match old(self)@.init(*sender) {
                Ok(next) => done == Ok::<(), Error>(()) && final(self)@ == next,
                Err(e) => done == Err::<(), Error>(e) && *final(self) == *old(self),
            }),
    {
        if self.init {
            return Err(Error::AlreadyInitialized);
        }
        if *sender != self.owner {
            return Err(Error::Unauthorized);
        }
        proof {
            self@.lemma_init_conserves(*sender);
        }
        self.balance_of.insert(*sender, self.total_supply);
        self.init = true;
        Ok(())
    }

    /// Moves `value` out of `from`'s balance into the escrow of `subject`.
    pub fn lock(&mut self, from: &AccountId, value: Balance, subject: &ListingHash) -> (done:
        Result<(), Error>)
        requires
            old(self).wf(),
        ensures
            final(self).wf(),
            (match old(self)@.lock(*from, value, *subject) {
                Ok(next) => done == Ok::<(), Error>(()) && final(self)@ == next,
                Err(e) => done == Err::<(), Error>(e) && *final(self) == *old(self),
            }),
    {
        let sender_balance = match self.balance_of(*from).checked_sub(value) {
            Some(rest) => rest,
            None => { return Err(Error::InsufficientBalance); },
        };
        let deposit = match self.locked_deposits(subject).checked_add(value) {
            Some(sum) => sum,
            None => { return Err(Error::Overflow); },
        };
        proof {
            self@.lemma_lock_conserves(*from, value, *subject);
        }
        self.balance_of.insert(*from, sender_balance);
        self.locked_deposits.insert(*subject, deposit);
        Ok(())
    }

    /// Moves `value` out of the escrow of `subject` into `to`'s balance.
    pub fn unlock(&mut self, to: &AccountId, value: Balance, subject: &ListingHash) -> (done:
        Result<(), Error>)
        requires
            old(self).wf(),
        ensures
            final(self).wf(),
            (match old(self)@.unlock(*to, value, *subject) {
                Ok(next) => done == Ok::<(), Error>(()) && final(self)@ == next,
                Err(e) => done == Err::<(), Error>(e) && *final(self) == *old(self),
            }),
    {
        let to_balance = match self.balance_of(*to).checked_add(value) {
            Some(sum) => sum,
            None => { return Err(Error::Overflow); },
        };
        let deposit = match self.locked_deposits(subject).checked_sub(value) {
            Some(rest) => rest,
            None => { return Err(Error::InsufficientBalance); },
        };
        proof {
            self@.lemma_unlock_conserves(*to, value, *subject);
        }
        self.balance_of.insert(*to, to_balance);
        self.locked_deposits.insert(*subject, deposit);
        Ok(())
    }

    fn int_transfer(&mut self, from: AccountId, to: AccountId, value: Balance) -> (done: Result<
        Event,
        Error,
    >)
        requires
            old(self).wf(),
        ensures
            final(self).wf(),
            (match old(self)@.transfer(from, to, value) {
                Ok(next) => done == Ok::<Event, Error>(Event::Transfer(from, to, value))
                    && final(self)@ == next,
                Err(e) => done == Err::<Event, Error>(e) && *final(self) == *old(self),
            }),
    {
        let from_balance = match self.balance_of(from).checked_sub(value) {
            Some(rest) => rest,
            None => { return Err(Error::InsufficientBalance); },
        };
        if self.balance_of(to).checked_add(value).is_none() {
            return Err(Error::Overflow);
        }
        proof {
            self@.lemma_transfer_conserves(from, to, value);
        }
        self.balance_of.insert(from, from_balance);
        let to_balance = match self.balance_of.get(&to) {
            Some(amount) => *amount,
            None => 0,
        };
        self.balance_of.insert(to, to_balance + value);
        Ok(Event::Transfer(from, to, value))
    }

    /// Debits `sender` and credits `to`.
    pub fn transfer(&mut self, sender: AccountId, to: AccountId, value: Balance) -> (done: Result<
        Event,
        Error,
    >)
        requires
            old(self).wf(),
        ensures
            final(self).wf(),
            (match old(self)@.transfer(sender, to, value) {
                Ok(next) => done == Ok::<Event, Error>(Event::Transfer(sender, to, value))
                    && final(self)@ == next,
                Err(e) => done == Err::<Event, Error>(e) && *final(self) == *old(self),
            }),
    {
        self.int_transfer(sender, to, value)
    }

    /// Raises what `spender` may move out of `sender`'s balance by `value`.
    pub fn approve(&mut self, sender: AccountId, spender: AccountId, value: Balance) -> (done:
        Result<Event, Error>)
        requires
            old(self).wf(),
        ensures
            final(self).wf(),
            (match old(self)@.approve(sender, spender, value) {
                Ok(next) => done == Ok::<Event, Error>(Event::Approval(sender, spender, value))
                    && final(self)@ == next,
                Err(e) => done == Err::<Event, Error>(e) && *final(self) == *old(self),
            }),
    {
        let allowance = match self.allowance(sender, spender).checked_add(value) {
            Some(sum) => sum,
            None => { return Err(Error::Overflow); },
        };
        self.allowance.insert((sender, spender), allowance);
        proof {
            self.lemma_finite();
        }
        Ok(Event::Approval(sender, spender, value))
    }

    /// Moves `value` from `from` to `to` on behalf of `sender`, against the
    /// allowance that `from` gave it.
    pub fn transfer_from(
        &mut self,
        sender: AccountId,
        from: AccountId,
        to: AccountId,
        value: Balance,
    ) -> (done: Result<Event, Error>)
        requires
            old(self).wf(),
        ensures
            final(self).wf(),
            (match old(self)@.transfer_from(sender, from, to, value) {
                Ok(next) => done == Ok::<Event, Error>(Event::Transfer(from, to, value))
                    && final(self)@ == next,
                Err(e) => done == Err::<Event, Error>(e) && *final(self) == *old(self),
            }),
    {
        let granted = match self.allowance.get(&(from, sender)) {
            Some(amount) => *amount,
            None => { return Err(Error::AllowanceNotFound); },
        };
        let allowance = match granted.checked_sub(value) {
            Some(rest) => rest,
            None => { return Err(Error::InsufficientAllowance); },
        };
        let event = self.int_transfer(from, to, value)?;
        self.allowance.insert((from, sender), allowance);
        proof {
            self.lemma_finite();
        }
        Ok(event)
    }
}

} // verus!
