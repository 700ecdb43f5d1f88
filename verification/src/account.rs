//! The five transitions of a client account and the operations that carry them out.

use crate::amount::{rounded, saturating_difference, saturating_sum, Amount, Dec};
use crate::types::{AccountView, BalanceChange, ClientAccount, Deposit, DisputeState};
use std::collections::HashMap;
use vstd::prelude::*;

verus! {

broadcast use vstd::std_specs::hash::group_hash_axioms;

impl AccountView {
    /// An account at its first mention: zero balances, unlocked, no deposits.
    pub open spec fn fresh() -> AccountView {
        AccountView {
            available: Dec::zero(),
            held: Dec::zero(),
            total: Dec::zero(),
            locked: false,
            deposits: Map::empty(),
        }
    }

    /// The deposit `tx` exists and is in the state `state`.
    pub open spec fn deposit_is(self, tx: u32, state: DisputeState) -> bool {
        self.deposits.contains_key(tx) && self.deposits[tx].dispute == state
    }

    /// The deposits with the deposit `tx` moved to the state `state`, its amount kept.
    pub open spec fn with_state(self, tx: u32, state: DisputeState) -> Map<u32, Deposit> {
        self.deposits.insert(tx, Deposit { amount: self.deposits[tx].amount, dispute: state })
    }

    /// A deposit: a locked account ignores it; otherwise the amount goes to the available
    /// and total funds and the deposit is registered as undisputed, in place of any earlier
    /// deposit with the same id.
    pub open spec fn deposit(self, tx: u32, amount: Amount) -> AccountView {
        if self.locked {
            self
        } else {
            AccountView {
                available: saturating_sum(self.available, amount@),
                total: saturating_sum(self.total, amount@),
                deposits: self.deposits.insert(
                    tx,
                    Deposit { amount, dispute: DisputeState::Undisputed },
                ),
                ..self
            }
        }
    }

    /// A withdrawal: ignored by a locked account and where the available funds are less
    /// than the amount; otherwise the amount leaves the available and total funds.
    pub open spec fn withdraw(self, amount: Dec) -> AccountView {
        if self.locked || self.available.value() < amount.value() {
            self
        } else {
            AccountView {
                available: saturating_difference(self.available, amount),
                total: saturating_difference(self.total, amount),
                ..self
            }
        }
    }

    /// A dispute: ignored unless the deposit exists and is undisputed; otherwise its
    /// amount moves from the available to the held funds and the deposit is disputed.
    pub open spec fn dispute(self, tx: u32) -> AccountView {
        if self.deposit_is(tx, DisputeState::Undisputed) {
            let amount = self.deposits[tx].amount@;
            AccountView {
                held: saturating_sum(self.held, amount),
                available: saturating_difference(self.available, amount),
                deposits: self.with_state(tx, DisputeState::Disputed),
                ..self
            }
        } else {
            self
        }
    }

    /// A resolve: ignored unless the deposit exists and is disputed; otherwise its
    /// amount moves back from the held to the available funds and the deposit is
    /// undisputed again.
    pub open spec fn resolve(self, tx: u32) -> AccountView {
        if self.deposit_is(tx, DisputeState::Disputed) {
            let amount = self.deposits[tx].amount@;
            AccountView {
                held: saturating_difference(self.held, amount),
                available: saturating_sum(self.available, amount),
                deposits: self.with_state(tx, DisputeState::Undisputed),
                ..self
            }
        } else {
            self
        }
    }

    /// A chargeback: ignored unless the deposit exists and is disputed; otherwise its
    /// amount leaves the held and total funds, the deposit is charged back for good and
    /// the account is locked.
    pub open spec fn chargeback(self, tx: u32) -> AccountView {
        if self.deposit_is(tx, DisputeState::Disputed) {
            let amount = self.deposits[tx].amount@;
            AccountView {
                held: saturating_difference(self.held, amount),
                total: saturating_difference(self.total, amount),
                deposits: self.with_state(tx, DisputeState::Chargeback),
                locked: true,
                ..self
            }
        } else {
            self
        }
    }

    /// The account with its three balances rounded to four fractional digits.
    pub open spec fn normalized(self) -> AccountView {
        AccountView {
            available: rounded(self.available, 4),
            held: rounded(self.held, 4),
            total: rounded(self.total, 4),
            ..self
        }
    }
}

impl Default for ClientAccount {
    fn default() -> (r: ClientAccount)
        ensures
            r@ == AccountView::fresh(),
    {
        ClientAccount {
            available: Amount::zero(),
            held: Amount::zero(),
            total: Amount::zero(),
            locked: false,
            deposit_txs: HashMap::new(),
        }
    }
}

impl ClientAccount {
    /// Applies a deposit; the client that the change names is not looked at.
    pub fn deposit(&mut self, change: BalanceChange)
        ensures
            final(self)@ == old(self)@.deposit(change.tx, change.amount),
    {
        if self.locked {
            return ;
        }
        self.available = self.available.saturating_add(change.amount);
        self.total = self.total.saturating_add(change.amount);
        self.deposit_txs.insert(change.tx, Deposit::from(change));
    }

    /// Applies a withdrawal of `amount`.
    pub fn withdraw(&mut self, amount: Amount)
        ensures
            final(self)@ == old(self)@.withdraw(amount@),
    {
        if self.locked {
            return ;
        }
        if self.available.less_than(&amount) {
            return ;
        }
        self.available = self.available.saturating_sub(amount);
        self.total = self.total.saturating_sub(amount);
    }

    /// The deposit `tx`, where the account has it and it is in the state `state`.
    fn deposit_in_state(&self, tx: u32, state: DisputeState) -> (r: Option<Deposit>)
        ensures
            r is Some <==> self@.deposit_is(tx, state),
            r matches Some(d) ==> d == self@.deposits[tx],
    {
        match self.deposit_txs.get(&tx) {
            Some(deposit) => {
                let same = match (deposit.dispute, state) {
                    (DisputeState::Undisputed, DisputeState::Undisputed) => true,
                    (DisputeState::Disputed, DisputeState::Disputed) => true,
                    (DisputeState::Chargeback, DisputeState::Chargeback) => true,
                    _ => false,
                };
                if same {
                    Some(*deposit)
                } else {
                    None
                }
            },
            None => None,
        }
    }

    /// Applies a dispute of the deposit `tx`.
    pub fn dispute(&mut self, tx: u32)
        ensures
            final(self)@ == old(self)@.dispute(tx),
    {
        if let Some(deposit) = self.deposit_in_state(tx, DisputeState::Undisputed) {
            self.held = self.held.saturating_add(deposit.amount);
            self.available = self.available.saturating_sub(deposit.amount);
            self.deposit_txs.insert(
                tx,
                Deposit { amount: deposit.amount, dispute: DisputeState::Disputed },
            );
        }
    }

    /// Applies a resolve of the deposit `tx`.
    pub fn resolve(&mut self, tx: u32)
        ensures
            final(self)@ == old(self)@.resolve(tx),
    {
        if let Some(deposit) = self.deposit_in_state(tx, DisputeState::Disputed) {
            self.held = self.held.saturating_sub(deposit.amount);
            self.available = self.available.saturating_add(deposit.amount);
            self.deposit_txs.insert(
                tx,
                Deposit { amount: deposit.amount, dispute: DisputeState::Undisputed },
            );
        }
    }

    /// Applies a chargeback of the deposit `tx`.
    pub fn chargeback(&mut self, tx: u32)
        ensures
            final(self)@ == old(self)@.chargeback(tx),
    {
        if let Some(deposit) = self.deposit_in_state(tx, DisputeState::Disputed) {
            self.held = self.held.saturating_sub(deposit.amount);
            self.total = self.total.saturating_sub(deposit.amount);
            self.deposit_txs.insert(
                tx,
                Deposit { amount: deposit.amount, dispute: DisputeState::Chargeback },
            );
            self.locked = true;
        }
    }

    /// Rounds the three balances to four fractional digits.
    pub fn normalize(&mut self)
        ensures
            final(self)@ == old(self)@.normalized(),
    {
        self.available = self.available.round_dp(4);
        self.held = self.held.round_dp(4);
        self.total = self.total.round_dp(4);
    }
}

} // verus!
