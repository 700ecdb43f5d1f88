//! A resolve undoes the dispute before it.

use crate::amount::{lemma_exact_difference, lemma_exact_sum};
use crate::laws::exact::{apply_is_exact, ledger_is_representable};
use crate::ledger::apply;
use crate::types::{AccountView, Dispute, DisputeState, TxType};
use vstd::prelude::*;

verus! {

impl AccountView {
    /// The two accounts have the same three balances as numbers, the same lock and the
    /// same deposits in the same states.
    pub open spec fn same_funds(self, other: AccountView) -> bool {
        &&& self.available.value() == other.available.value()
        &&& self.held.value() == other.held.value()
        &&& self.total.value() == other.total.value()
        &&& self.locked == other.locked
        &&& self.deposits == other.deposits
    }
}

/// The two ledgers have the same clients, each with the same funds.
pub open spec fn same_ledger_funds(a: Map<u16, AccountView>, b: Map<u16, AccountView>) -> bool {
    &&& a.dom() == b.dom()
    &&& forall|client: u16| #[trigger] a.contains_key(client) ==> a[client].same_funds(b[client])
}

/// The ledger after a dispute and, at once, a resolve of the same deposit.
pub open spec fn dispute_then_resolve(
    ledger: Map<u16, AccountView>,
    dispute: Dispute,
) -> Map<u16, AccountView> {
    apply(apply(ledger, TxType::Dispute(dispute)), TxType::Resolve(dispute))
}

/// Neither the dispute nor the resolve that follows it rounds or saturates.
pub open spec fn dispute_then_resolve_is_exact(
    ledger: Map<u16, AccountView>,
    dispute: Dispute,
) -> bool {
    &&& apply_is_exact(ledger, TxType::Dispute(dispute))
    &&& apply_is_exact(apply(ledger, TxType::Dispute(dispute)), TxType::Resolve(dispute))
}

/// The deposit that `dispute` names is not under dispute in the ledger.
pub open spec fn not_under_dispute(ledger: Map<u16, AccountView>, dispute: Dispute) -> bool {
    ledger.contains_key(dispute.client) ==> !ledger[dispute.client].deposit_is(
        dispute.tx,
        DisputeState::Disputed,
    )
}

/// A resolve right after a dispute of the same deposit gives every balance its value
/// from before the dispute and leaves the deposits as they were, for a deposit that
/// was not under dispute already and as long as neither step rounds or saturates.
pub proof fn law_resolve_undoes_dispute(ledger: Map<u16, AccountView>, dispute: Dispute)
    requires
        ledger_is_representable(ledger),
        not_under_dispute(ledger, dispute),
        dispute_then_resolve_is_exact(ledger, dispute),
    ensures
        same_ledger_funds(dispute_then_resolve(ledger, dispute), ledger),
        ledger_is_representable(dispute_then_resolve(ledger, dispute)),
        not_under_dispute(dispute_then_resolve(ledger, dispute), dispute),
{
    let after = dispute_then_resolve(ledger, dispute);
    if ledger.contains_key(dispute.client) {
        let account = ledger[dispute.client];
        if account.deposit_is(dispute.tx, DisputeState::Undisputed) {
            let amount = account.deposits[dispute.tx].amount@;
            let disputed = account.dispute(dispute.tx);
            lemma_exact_sum(account.held, amount);
            lemma_exact_difference(account.available, amount);
            lemma_exact_difference(disputed.held, amount);
            lemma_exact_sum(disputed.available, amount);
            assert(disputed.resolve(dispute.tx).deposits =~= account.deposits);
        }
    }
    assert(after.dom() =~= ledger.dom());
}

/// A dispute and a resolve of the same deposit, twice over, give every balance its
/// value from before and leave the deposits as they were, for a deposit that was not
/// under dispute already and as long as none of the four steps rounds or saturates.
pub proof fn law_dispute_resolve_twice(ledger: Map<u16, AccountView>, dispute: Dispute)
    requires
        ledger_is_representable(ledger),
        not_under_dispute(ledger, dispute),
        dispute_then_resolve_is_exact(ledger, dispute),
        dispute_then_resolve_is_exact(dispute_then_resolve(ledger, dispute), dispute),
    ensures
        same_ledger_funds(
            dispute_then_resolve(dispute_then_resolve(ledger, dispute), dispute),
            ledger,
        ),
{
    law_resolve_undoes_dispute(ledger, dispute);
    law_resolve_undoes_dispute(dispute_then_resolve(ledger, dispute), dispute);
}

} // verus!
