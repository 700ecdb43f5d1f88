//! The total funds of an account are its available and its held funds together.

use crate::amount::{lemma_exact_difference, lemma_exact_sum, Amount};
use crate::laws::exact::{amount_is_representable, apply_is_exact, replay_is_exact};
use crate::ledger::{account_of, apply, replay};
use crate::types::{AccountView, DisputeState, TxType};
use vstd::prelude::*;

verus! {

impl AccountView {
    /// The total funds are the available and the held funds together.
    pub open spec fn balanced(self) -> bool {
        self.total.value() == self.available.value() + self.held.value()
    }
}

/// Every account of the ledger is representable and balanced.
pub open spec fn ledger_is_balanced(ledger: Map<u16, AccountView>) -> bool {
    forall|client: u16| #[trigger]
        ledger.contains_key(client) ==> ledger[client].representable()
            && ledger[client].balanced()
}

/// An exact deposit or withdrawal keeps a representable account representable and
/// a balanced account balanced.
proof fn lemma_balance_change_keeps_balance(account: AccountView, tx: u32, amount: Amount)
    requires
        account.representable(),
        account.balanced(),
        amount@.wf(),
    ensures
        account.deposit_is_exact(amount@) ==> account.deposit(tx, amount).representable()
            && account.deposit(tx, amount).balanced(),
        account.withdrawal_is_exact(amount@) ==> account.withdraw(amount@).representable()
            && account.withdraw(amount@).balanced(),
{
    if account.deposit_is_exact(amount@) && !account.locked {
        lemma_exact_sum(account.available, amount@);
        lemma_exact_sum(account.total, amount@);
    }
    if account.withdrawal_is_exact(amount@) && !account.locked && account.available.value()
        >= amount@.value() {
        lemma_exact_difference(account.available, amount@);
        lemma_exact_difference(account.total, amount@);
    }
}

/// An exact dispute, resolve or chargeback keeps a representable account
/// representable and a balanced account balanced.
proof fn lemma_dispute_cycle_keeps_balance(account: AccountView, tx: u32)
    requires
        account.representable(),
        account.balanced(),
    ensures
        account.dispute_is_exact(tx) ==> account.dispute(tx).representable() && account.dispute(
            tx,
        ).balanced(),
        account.resolve_is_exact(tx) ==> account.resolve(tx).representable() && account.resolve(
            tx,
        ).balanced(),
        account.chargeback_is_exact(tx) ==> account.chargeback(tx).representable()
            && account.chargeback(tx).balanced(),
{
    if account.deposits.contains_key(tx) {
        let amount = account.deposits[tx].amount@;
        if account.dispute_is_exact(tx) && account.deposit_is(tx, DisputeState::Undisputed) {
            lemma_exact_sum(account.held, amount);
            lemma_exact_difference(account.available, amount);
        }
        if account.resolve_is_exact(tx) && account.deposit_is(tx, DisputeState::Disputed) {
            lemma_exact_difference(account.held, amount);
            lemma_exact_sum(account.available, amount);
        }
        if account.chargeback_is_exact(tx) && account.deposit_is(tx, DisputeState::Disputed) {
            lemma_exact_difference(account.held, amount);
            lemma_exact_difference(account.total, amount);
        }
    }
}

/// One exact transaction keeps every account of the ledger representable and balanced.
pub proof fn law_apply_keeps_balance(ledger: Map<u16, AccountView>, tx: TxType)
    requires
        ledger_is_balanced(ledger),
        amount_is_representable(tx),
        apply_is_exact(ledger, tx),
    ensures
        ledger_is_balanced(apply(ledger, tx)),
{
    let after = apply(ledger, tx);
    assert forall|client: u16| #[trigger] after.contains_key(client) implies after[client]
        .representable() && after[client].balanced() by {
        match tx {
            TxType::Deposit(change) => {
                lemma_balance_change_keeps_balance(
                    account_of(ledger, change.client),
                    change.tx,
                    change.amount,
                );
            },
            TxType::Withdrawal(change) => {
                lemma_balance_change_keeps_balance(
                    account_of(ledger, change.client),
                    change.tx,
                    change.amount,
                );
            },
            TxType::Dispute(dispute) => {
                if ledger.contains_key(dispute.client) {
                    lemma_dispute_cycle_keeps_balance(ledger[dispute.client], dispute.tx);
                }
            },
            TxType::Resolve(dispute) => {
                if ledger.contains_key(dispute.client) {
                    lemma_dispute_cycle_keeps_balance(ledger[dispute.client], dispute.tx);
                }
            },
            TxType::Chargeback(dispute) => {
                if ledger.contains_key(dispute.client) {
                    lemma_dispute_cycle_keeps_balance(ledger[dispute.client], dispute.tx);
                }
            },
        }
    }
}

/// A sequence of exact transactions keeps every account of the ledger representable
/// and balanced.
pub proof fn law_replay_keeps_balance(ledger: Map<u16, AccountView>, txs: Seq<TxType>)
    requires
        ledger_is_balanced(ledger),
        replay_is_exact(ledger, txs),
    ensures
        ledger_is_balanced(replay(ledger, txs)),
    decreases txs.len(),
{
    if txs.len() > 0 {
        law_replay_keeps_balance(ledger, txs.drop_last());
        law_apply_keeps_balance(replay(ledger, txs.drop_last()), txs.last());
    }
}

/// After every prefix of a stream of transactions on an empty ledger, the total funds
/// of every account are exactly its available and its held funds together, as long as
/// no sum or difference of that prefix had to be rounded or saturated.
pub proof fn law_total_is_available_plus_held(txs: Seq<TxType>, prefix: int, client: u16)
    requires
        0 <= prefix <= txs.len(),
        replay_is_exact(Map::empty(), txs.take(prefix)),
    ensures
        ({
            let ledger = replay(Map::empty(), txs.take(prefix));
            ledger.contains_key(client) ==> ledger[client].total.value()
                == ledger[client].available.value() + ledger[client].held.value()
        }),
{
    law_replay_keeps_balance(Map::empty(), txs.take(prefix));
}

} // verus!
