//! Locks and chargebacks: a locked account has a charged-back deposit.

use crate::amount::{Amount, Dec};
use crate::ledger::{account_of, apply, replay};
use crate::types::{AccountView, DisputeState, TxType};
use vstd::prelude::*;

verus! {

impl AccountView {
    /// A locked account has a deposit that was charged back.
    pub open spec fn lock_is_earned(self) -> bool {
        self.locked ==> exists|tx: u32| #[trigger] self.deposit_is(tx, DisputeState::Chargeback)
    }
}

/// Every locked account of the ledger has a deposit that was charged back.
pub open spec fn locks_are_earned(ledger: Map<u16, AccountView>) -> bool {
    forall|client: u16| #[trigger]
        ledger.contains_key(client) ==> ledger[client].lock_is_earned()
}

/// None of the five transitions locks an account without a charged-back deposit, or
/// takes the charged-back deposit of a locked account away.
proof fn lemma_transitions_keep_lock_earned(account: AccountView, tx: u32)
    requires
        account.lock_is_earned(),
    ensures
        AccountView::fresh().lock_is_earned(),
        forall|amount: Amount| (#[trigger] account.deposit(tx, amount)).lock_is_earned(),
        forall|amount: Dec| (#[trigger] account.withdraw(amount)).lock_is_earned(),
        account.dispute(tx).lock_is_earned(),
        account.resolve(tx).lock_is_earned(),
        account.chargeback(tx).lock_is_earned(),
{
    if account.locked {
        let w = choose|w: u32| #[trigger] account.deposit_is(w, DisputeState::Chargeback);
        assert(account.dispute(tx).deposit_is(w, DisputeState::Chargeback));
        assert(account.resolve(tx).deposit_is(w, DisputeState::Chargeback));
        assert(account.chargeback(tx).deposit_is(w, DisputeState::Chargeback));
        assert forall|amount: Dec| (#[trigger] account.withdraw(amount)).lock_is_earned() by {
            assert(account.withdraw(amount).deposit_is(w, DisputeState::Chargeback));
        }
    } else {
        if account.deposit_is(tx, DisputeState::Disputed) {
            assert(account.chargeback(tx).deposit_is(tx, DisputeState::Chargeback));
        }
    }
}

/// One transaction keeps every lock of the ledger earned.
pub proof fn law_apply_keeps_locks_earned(ledger: Map<u16, AccountView>, tx: TxType)
    requires
        locks_are_earned(ledger),
    ensures
        locks_are_earned(apply(ledger, tx)),
{
    let after = apply(ledger, tx);
    assert forall|client: u16| #[trigger] after.contains_key(client) implies after[client]
        .lock_is_earned() by {
        match tx {
            TxType::Deposit(change) => {
                lemma_transitions_keep_lock_earned(account_of(ledger, change.client), change.tx);
            },
            TxType::Withdrawal(change) => {
                lemma_transitions_keep_lock_earned(account_of(ledger, change.client), change.tx);
            },
            TxType::Dispute(dispute) => {
                if ledger.contains_key(dispute.client) {
                    lemma_transitions_keep_lock_earned(ledger[dispute.client], dispute.tx);
                }
            },
            TxType::Resolve(dispute) => {
                if ledger.contains_key(dispute.client) {
                    lemma_transitions_keep_lock_earned(ledger[dispute.client], dispute.tx);
                }
            },
            TxType::Chargeback(dispute) => {
                if ledger.contains_key(dispute.client) {
                    lemma_transitions_keep_lock_earned(ledger[dispute.client], dispute.tx);
                }
            },
        }
    }
}

/// After every prefix of a stream of transactions on an empty ledger, an account that
/// is locked has a deposit that reached the state of a chargeback.
pub proof fn law_locked_implies_chargeback(txs: Seq<TxType>, prefix: int, client: u16)
    requires
        0 <= prefix <= txs.len(),
    ensures
        ({
            let ledger = replay(Map::empty(), txs.take(prefix));
            ledger.contains_key(client) && ledger[client].locked ==> exists|tx: u32| #[trigger]
                ledger[client].deposit_is(tx, DisputeState::Chargeback)
        }),
{
    law_replay_keeps_locks_earned(Map::empty(), txs.take(prefix));
}

/// A sequence of transactions keeps every lock of the ledger earned.
pub proof fn law_replay_keeps_locks_earned(ledger: Map<u16, AccountView>, txs: Seq<TxType>)
    requires
        locks_are_earned(ledger),
    ensures
        locks_are_earned(replay(ledger, txs)),
    decreases txs.len(),
{
    if txs.len() > 0 {
        law_replay_keeps_locks_earned(ledger, txs.drop_last());
        law_apply_keeps_locks_earned(replay(ledger, txs.drop_last()), txs.last());
    }
}

} // verus!
