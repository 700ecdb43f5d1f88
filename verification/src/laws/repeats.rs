//! Transactions that are ignored however often they come.

use crate::ledger::{apply, replay};
use crate::types::{AccountView, BalanceChange, Dispute, TxType};
use vstd::prelude::*;

verus! {

/// The transaction `tx`, `count` times over.
pub open spec fn repeated(tx: TxType, count: nat) -> Seq<TxType> {
    Seq::new(count, |i: int| tx)
}

/// Replaying one transaction `count + 1` times is replaying it `count` times and
/// applying it once more.
proof fn lemma_replay_repeated(ledger: Map<u16, AccountView>, tx: TxType, count: nat)
    ensures
        replay(ledger, repeated(tx, count + 1)) == apply(
            replay(ledger, repeated(tx, count)),
            tx,
        ),
        replay(ledger, repeated(tx, 0)) == ledger,
{
    assert(repeated(tx, count + 1).drop_last() =~= repeated(tx, count));
}

/// A chargeback that is applied a second time changes nothing: applied once or any
/// number of times more, it leaves the ledger as its first application left it.
pub proof fn law_chargeback_replay_is_ignored(
    ledger: Map<u16, AccountView>,
    dispute: Dispute,
    count: nat,
)
    requires
        count >= 1,
    ensures
        replay(ledger, repeated(TxType::Chargeback(dispute), count)) == apply(
            ledger,
            TxType::Chargeback(dispute),
        ),
    decreases count,
{
    let tx = TxType::Chargeback(dispute);
    lemma_replay_repeated(ledger, tx, (count - 1) as nat);
    if count > 1 {
        law_chargeback_replay_is_ignored(ledger, dispute, (count - 1) as nat);
        let once = apply(ledger, tx);
        assert(apply(once, tx) =~= once);
    }
}

/// A deposit or a withdrawal on a locked account changes nothing, applied once or any
/// number of times.
pub proof fn law_locked_account_ignores_balance_changes(
    ledger: Map<u16, AccountView>,
    change: BalanceChange,
    count: nat,
)
    requires
        ledger.contains_key(change.client),
        ledger[change.client].locked,
    ensures
        replay(ledger, repeated(TxType::Deposit(change), count)) == ledger,
        replay(ledger, repeated(TxType::Withdrawal(change), count)) == ledger,
    decreases count,
{
    if count > 0 {
        law_locked_account_ignores_balance_changes(ledger, change, (count - 1) as nat);
        lemma_replay_repeated(ledger, TxType::Deposit(change), (count - 1) as nat);
        lemma_replay_repeated(ledger, TxType::Withdrawal(change), (count - 1) as nat);
        assert(apply(ledger, TxType::Deposit(change)) =~= ledger);
        assert(apply(ledger, TxType::Withdrawal(change)) =~= ledger);
    } else {
        lemma_replay_repeated(ledger, TxType::Deposit(change), 0);
        lemma_replay_repeated(ledger, TxType::Withdrawal(change), 0);
    }
}

} // verus!
