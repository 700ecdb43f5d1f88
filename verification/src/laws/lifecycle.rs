//! The lifecycle of a deposit: undisputed, disputed, and charged back for good.

use crate::amount::{Amount, Dec};
use crate::ledger::{account_of, apply, replay};
use crate::types::{AccountView, DisputeState, TxType};
use vstd::prelude::*;

verus! {

/// What one transaction may do to the state of a registered deposit: leave it, dispute an
/// undisputed deposit, or resolve or charge back a disputed one. Nothing follows a
/// chargeback.
pub open spec fn lifecycle_step(before: DisputeState, after: DisputeState) -> bool {
    ||| before == after
    ||| before == DisputeState::Undisputed && after == DisputeState::Disputed
    ||| before == DisputeState::Disputed && after == DisputeState::Undisputed
    ||| before == DisputeState::Disputed && after == DisputeState::Chargeback
}

impl AccountView {
    /// An account with a charged-back deposit is locked.
    pub open spec fn chargeback_locks(self) -> bool {
        (exists|tx: u32| #[trigger] self.deposit_is(tx, DisputeState::Chargeback)) ==> self.locked
    }

    /// The account `after` has every deposit of this account, each in a state that one
    /// step of the lifecycle leads to.
    pub open spec fn leads_to(self, after: AccountView) -> bool {
        forall|tx: u32| #[trigger]
            self.deposits.contains_key(tx) ==> after.deposits.contains_key(tx) && lifecycle_step(
                self.deposits[tx].dispute,
                after.deposits[tx].dispute,
            )
    }
}

/// Every account of the ledger that has a charged-back deposit is locked.
pub open spec fn chargebacks_lock(ledger: Map<u16, AccountView>) -> bool {
    forall|client: u16| #[trigger]
        ledger.contains_key(client) ==> ledger[client].chargeback_locks()
}

/// The five transitions keep an account with a charged-back deposit locked, delete no
/// deposit and move each deposit by one step of the lifecycle.
proof fn lemma_transitions_follow_lifecycle(account: AccountView, tx: u32)
    requires
        account.chargeback_locks(),
    ensures
        AccountView::fresh().chargeback_locks(),
        forall|amount: Amount|
            (#[trigger] account.deposit(tx, amount)).chargeback_locks() && account.leads_to(
                account.deposit(tx, amount),
            ),
        forall|amount: Dec|
            (#[trigger] account.withdraw(amount)).chargeback_locks() && account.leads_to(
                account.withdraw(amount),
            ),
        account.dispute(tx).chargeback_locks() && account.leads_to(account.dispute(tx)),
        account.resolve(tx).chargeback_locks() && account.leads_to(account.resolve(tx)),
        account.chargeback(tx).chargeback_locks() && account.leads_to(account.chargeback(tx)),
{
    if !account.locked {
        assert forall|amount: Amount|
            (#[trigger] account.deposit(tx, amount)).chargeback_locks() && account.leads_to(
                account.deposit(tx, amount),
            ) by {
            let next = account.deposit(tx, amount);
            assert forall|other: u32| !next.deposit_is(other, DisputeState::Chargeback) by {
                if other != tx {
                    assert(!account.deposit_is(other, DisputeState::Chargeback));
                }
            }
            assert(!account.deposit_is(tx, DisputeState::Chargeback));
        }
        assert forall|amount: Dec|
            (#[trigger] account.withdraw(amount)).chargeback_locks() && account.leads_to(
                account.withdraw(amount),
            ) by {
            assert forall|other: u32| !account.withdraw(amount).deposit_is(
                other,
                DisputeState::Chargeback,
            ) by {
                assert(!account.deposit_is(other, DisputeState::Chargeback));
            }
        }
        assert forall|other: u32| !(#[trigger] account.dispute(tx).deposit_is(
            other,
            DisputeState::Chargeback,
        )) by {
            assert(!account.deposit_is(other, DisputeState::Chargeback));
        }
        assert forall|other: u32| !(#[trigger] account.resolve(tx).deposit_is(
            other,
            DisputeState::Chargeback,
        )) by {
            assert(!account.deposit_is(other, DisputeState::Chargeback));
        }
    }
}

/// One transaction deletes no account and no deposit, moves each deposit by one step of
/// its lifecycle, so that no charged-back deposit changes its state again, and keeps
/// every account with a charged-back deposit locked.
pub proof fn law_apply_follows_lifecycle(ledger: Map<u16, AccountView>, tx: TxType)
    requires
        chargebacks_lock(ledger),
    ensures
        chargebacks_lock(apply(ledger, tx)),
        forall|client: u16| #[trigger]
            ledger.contains_key(client) ==> apply(ledger, tx).contains_key(client)
                && ledger[client].leads_to(apply(ledger, tx)[client]),
{
    let after = apply(ledger, tx);
    let touched = match tx {
        TxType::Deposit(change) => account_of(ledger, change.client),
        TxType::Withdrawal(change) => account_of(ledger, change.client),
        TxType::Dispute(dispute) => account_of(ledger, dispute.client),
        TxType::Resolve(dispute) => account_of(ledger, dispute.client),
        TxType::Chargeback(dispute) => account_of(ledger, dispute.client),
    };
    let id = match tx {
        TxType::Deposit(change) => change.tx,
        TxType::Withdrawal(change) => change.tx,
        TxType::Dispute(dispute) => dispute.tx,
        TxType::Resolve(dispute) => dispute.tx,
        TxType::Chargeback(dispute) => dispute.tx,
    };
    lemma_transitions_follow_lifecycle(AccountView::fresh(), id);
    lemma_transitions_follow_lifecycle(touched, id);
    assert forall|client: u16| #[trigger] after.contains_key(client) implies after[client]
        .chargeback_locks() by {
        if ledger.contains_key(client) {
            assert(ledger[client].chargeback_locks());
        }
    }
    assert forall|client: u16| #[trigger] ledger.contains_key(client) implies after.contains_key(
        client,
    ) && ledger[client].leads_to(after[client]) by {
        assert(ledger[client].chargeback_locks());
    }
}

/// After every prefix of a stream of transactions on an empty ledger, an account with
/// a charged-back deposit is locked.
pub proof fn law_chargeback_locks(txs: Seq<TxType>, prefix: int, client: u16, tx: u32)
    requires
        0 <= prefix <= txs.len(),
    ensures
        ({
            let ledger = replay(Map::empty(), txs.take(prefix));
            ledger.contains_key(client) && ledger[client].deposit_is(tx, DisputeState::Chargeback)
                ==> ledger[client].locked
        }),
{
    law_replay_keeps_chargebacks_locking(Map::empty(), txs.take(prefix));
}

/// A sequence of transactions keeps every account with a charged-back deposit locked.
pub proof fn law_replay_keeps_chargebacks_locking(
    ledger: Map<u16, AccountView>,
    txs: Seq<TxType>,
)
    requires
        chargebacks_lock(ledger),
    ensures
        chargebacks_lock(replay(ledger, txs)),
    decreases txs.len(),
{
    if txs.len() > 0 {
        law_replay_keeps_chargebacks_locking(ledger, txs.drop_last());
        law_apply_follows_lifecycle(replay(ledger, txs.drop_last()), txs.last());
    }
}

} // verus!
