//! When a transaction computes without rounding and without saturating.

use crate::amount::{difference_is_exact, sum_is_exact, Dec};
use crate::ledger::{account_of, replay};
use crate::types::{AccountView, DisputeState, TxType};
use vstd::prelude::*;

verus! {

impl AccountView {
    /// The balances and the amounts of the deposits are representable decimals.
    pub open spec fn representable(self) -> bool {
        &&& self.available.wf()
        &&& self.held.wf()
        &&& self.total.wf()
        &&& forall|tx: u32| #[trigger]
            self.deposits.contains_key(tx) ==> self.deposits[tx].amount@.wf()
    }

    /// A deposit of `amount` is ignored or adds without rounding or saturating.
    pub open spec fn deposit_is_exact(self, amount: Dec) -> bool {
        !self.locked ==> sum_is_exact(self.available, amount) && sum_is_exact(self.total, amount)
    }

    /// A withdrawal of `amount` is ignored or subtracts without rounding or saturating.
    pub open spec fn withdrawal_is_exact(self, amount: Dec) -> bool {
        !self.locked && self.available.value() >= amount.value() ==> difference_is_exact(
            self.available,
            amount,
        ) && difference_is_exact(self.total, amount)
    }

    /// A dispute of `tx` is ignored or moves the amount without rounding or saturating.
    pub open spec fn dispute_is_exact(self, tx: u32) -> bool {
        self.deposit_is(tx, DisputeState::Undisputed) ==> sum_is_exact(
            self.held,
            self.deposits[tx].amount@,
        ) && difference_is_exact(self.available, self.deposits[tx].amount@)
    }

    /// A resolve of `tx` is ignored or moves the amount without rounding or saturating.
    pub open spec fn resolve_is_exact(self, tx: u32) -> bool {
        self.deposit_is(tx, DisputeState::Disputed) ==> difference_is_exact(
            self.held,
            self.deposits[tx].amount@,
        ) && sum_is_exact(self.available, self.deposits[tx].amount@)
    }

    /// A chargeback of `tx` is ignored or takes the amount without rounding or saturating.
    pub open spec fn chargeback_is_exact(self, tx: u32) -> bool {
        self.deposit_is(tx, DisputeState::Disputed) ==> difference_is_exact(
            self.held,
            self.deposits[tx].amount@,
        ) && difference_is_exact(self.total, self.deposits[tx].amount@)
    }
}

/// The amount that a transaction carries, if it carries one, is a representable decimal.
pub open spec fn amount_is_representable(tx: TxType) -> bool {
    match tx {
        TxType::Deposit(change) => change.amount@.wf(),
        TxType::Withdrawal(change) => change.amount@.wf(),
        _ => true,
    }
}

/// The transaction is ignored, or every sum and difference that it computes on the
/// ledger can be written at the larger scale of its two operands: nothing is rounded
/// and nothing saturates.
pub open spec fn apply_is_exact(ledger: Map<u16, AccountView>, tx: TxType) -> bool {
    match tx {
        TxType::Deposit(change) => account_of(ledger, change.client).deposit_is_exact(
            change.amount@,
        ),
        TxType::Withdrawal(change) => account_of(ledger, change.client).withdrawal_is_exact(
            change.amount@,
        ),
        TxType::Dispute(dispute) => ledger.contains_key(dispute.client)
            ==> ledger[dispute.client].dispute_is_exact(dispute.tx),
        TxType::Resolve(dispute) => ledger.contains_key(dispute.client)
            ==> ledger[dispute.client].resolve_is_exact(dispute.tx),
        TxType::Chargeback(dispute) => ledger.contains_key(dispute.client)
            ==> ledger[dispute.client].chargeback_is_exact(dispute.tx),
    }
}

/// Every transaction of the sequence carries a representable amount and is exact on
/// the ledger that the transactions before it have made.
pub open spec fn replay_is_exact(ledger: Map<u16, AccountView>, txs: Seq<TxType>) -> bool
    decreases txs.len(),
{
    txs.len() > 0 ==> {
        &&& replay_is_exact(ledger, txs.drop_last())
        &&& amount_is_representable(txs.last())
        &&& apply_is_exact(replay(ledger, txs.drop_last()), txs.last())
    }
}

/// Every account of the ledger is representable.
pub open spec fn ledger_is_representable(ledger: Map<u16, AccountView>) -> bool {
    forall|client: u16| #[trigger] ledger.contains_key(client) ==> ledger[client].representable()
}

} // verus!
