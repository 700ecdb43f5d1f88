//! The held funds of an account are never negative.

use crate::amount::{
    difference_is_exact, lemma_exact_difference, lemma_exact_sum, sum_is_exact, Amount,
};
use crate::ledger::{account_of, apply, replay};
use crate::types::{AccountView, Deposit, DisputeState, TxType};
use vstd::prelude::*;

verus! {

/// What the deposit `tx` adds to the held funds: its amount while it is disputed.
pub open spec fn disputed_amount(deposits: Map<u32, Deposit>, tx: u32) -> int {
    if deposits.contains_key(tx) && deposits[tx].dispute == DisputeState::Disputed {
        deposits[tx].amount@.value()
    } else {
        0
    }
}

/// The amounts of the disputed deposits with an id below `bound`, added up.
pub open spec fn disputed_below(deposits: Map<u32, Deposit>, bound: nat) -> int
    decreases bound,
{
    if bound == 0 {
        0
    } else {
        disputed_below(deposits, (bound - 1) as nat) + disputed_amount(
            deposits,
            (bound - 1) as u32,
        )
    }
}

/// The amounts of all disputed deposits, added up.
pub open spec fn disputed_total(deposits: Map<u32, Deposit>) -> int {
    disputed_below(deposits, 0x1_0000_0000)
}

impl AccountView {
    /// The held funds and the amounts of the deposits are representable decimals.
    pub open spec fn holds_representably(self) -> bool {
        &&& self.held.wf()
        &&& forall|tx: u32| #[trigger]
            self.deposits.contains_key(tx) ==> self.deposits[tx].amount@.wf()
    }

    /// A dispute of `tx` is ignored or adds to the held funds without rounding or
    /// saturating.
    pub open spec fn hold_is_exact(self, tx: u32) -> bool {
        self.deposit_is(tx, DisputeState::Undisputed) ==> sum_is_exact(
            self.held,
            self.deposits[tx].amount@,
        )
    }

    /// A resolve or a chargeback of `tx` is ignored or takes from the held funds without
    /// rounding or saturating.
    pub open spec fn release_is_exact(self, tx: u32) -> bool {
        self.deposit_is(tx, DisputeState::Disputed) ==> difference_is_exact(
            self.held,
            self.deposits[tx].amount@,
        )
    }

    /// No deposit has a negative amount.
    pub open spec fn deposits_are_not_negative(self) -> bool {
        forall|tx: u32| #[trigger]
            self.deposits.contains_key(tx) ==> self.deposits[tx].amount@.value() >= 0
    }

    /// The held funds are at least the amounts of the disputed deposits together.
    pub open spec fn covers_disputes(self) -> bool {
        self.held.value() >= disputed_total(self.deposits)
    }
}

/// Every account of the ledger has representable held funds and deposits, no negative
/// deposit, and holds at least what its disputed deposits amount to.
pub open spec fn ledger_covers_disputes(ledger: Map<u16, AccountView>) -> bool {
    forall|client: u16| #[trigger]
        ledger.contains_key(client) ==> {
            &&& ledger[client].holds_representably()
            &&& ledger[client].deposits_are_not_negative()
            &&& ledger[client].covers_disputes()
        }
}

/// The transaction deposits a representable amount that is not negative, or leaves the
/// held funds alone, or adds to them or takes from them without rounding or saturating.
pub open spec fn holds_exactly(ledger: Map<u16, AccountView>, tx: TxType) -> bool {
    match tx {
        TxType::Deposit(change) => change.amount@.wf() && change.amount@.value() >= 0,
        TxType::Withdrawal(_) => true,
        TxType::Dispute(dispute) => ledger.contains_key(dispute.client)
            ==> ledger[dispute.client].hold_is_exact(dispute.tx),
        TxType::Resolve(dispute) => ledger.contains_key(dispute.client)
            ==> ledger[dispute.client].release_is_exact(dispute.tx),
        TxType::Chargeback(dispute) => ledger.contains_key(dispute.client)
            ==> ledger[dispute.client].release_is_exact(dispute.tx),
    }
}

/// Every transaction of the sequence holds exactly on the ledger that the transactions
/// before it have made.
pub open spec fn replay_holds_exactly(ledger: Map<u16, AccountView>, txs: Seq<TxType>) -> bool
    decreases txs.len(),
{
    txs.len() > 0 ==> {
        &&& replay_holds_exactly(ledger, txs.drop_last())
        &&& holds_exactly(replay(ledger, txs.drop_last()), txs.last())
    }
}

/// Writing one deposit changes the sum of the disputed amounts by what that deposit
/// adds to it afterwards, less what it added before.
proof fn lemma_disputed_below_insert(
    deposits: Map<u32, Deposit>,
    tx: u32,
    deposit: Deposit,
    bound: nat,
)
    requires
        bound <= 0x1_0000_0000,
    ensures
        disputed_below(deposits.insert(tx, deposit), bound) == disputed_below(deposits, bound) + (
        if tx < bound {
            disputed_amount(deposits.insert(tx, deposit), tx) - disputed_amount(deposits, tx)
        } else {
            0
        }),
    decreases bound,
{
    if bound > 0 {
        lemma_disputed_below_insert(deposits, tx, deposit, (bound - 1) as nat);
    }
}

/// Without negative deposits the sum of the disputed amounts is not negative.
proof fn lemma_disputed_below_not_negative(deposits: Map<u32, Deposit>, bound: nat)
    requires
        forall|tx: u32| #[trigger] deposits.contains_key(tx) ==> deposits[tx].amount@.value() >= 0,
    ensures
        disputed_below(deposits, bound) >= 0,
    decreases bound,
{
    if bound > 0 {
        lemma_disputed_below_not_negative(deposits, (bound - 1) as nat);
    }
}

/// An account without deposits has no disputed amount.
proof fn lemma_no_deposits_no_disputes(bound: nat)
    ensures
        disputed_below(Map::empty(), bound) == 0,
    decreases bound,
{
    if bound > 0 {
        lemma_no_deposits_no_disputes((bound - 1) as nat);
    }
}

/// A deposit of a representable amount that is not negative keeps the held funds above
/// the disputed amounts.
proof fn lemma_deposit_keeps_cover(account: AccountView, tx: u32, amount: Amount)
    requires
        account.holds_representably(),
        account.deposits_are_not_negative(),
        account.covers_disputes(),
        amount@.wf(),
        amount@.value() >= 0,
    ensures
        account.deposit(tx, amount).holds_representably(),
        account.deposit(tx, amount).deposits_are_not_negative(),
        account.deposit(tx, amount).covers_disputes(),
{
    if !account.locked {
        lemma_disputed_below_insert(
            account.deposits,
            tx,
            Deposit { amount, dispute: DisputeState::Undisputed },
            0x1_0000_0000,
        );
    }
}

/// A dispute, a resolve or a chargeback that computes the held funds exactly keeps them
/// above the disputed amounts.
proof fn lemma_dispute_cycle_keeps_cover(account: AccountView, tx: u32)
    requires
        account.holds_representably(),
        account.deposits_are_not_negative(),
        account.covers_disputes(),
    ensures
        account.hold_is_exact(tx) ==> {
            &&& account.dispute(tx).holds_representably()
            &&& account.dispute(tx).deposits_are_not_negative()
            &&& account.dispute(tx).covers_disputes()
        },
        account.release_is_exact(tx) ==> {
            &&& account.resolve(tx).holds_representably()
            &&& account.resolve(tx).deposits_are_not_negative()
            &&& account.resolve(tx).covers_disputes()
            &&& account.chargeback(tx).holds_representably()
            &&& account.chargeback(tx).deposits_are_not_negative()
            &&& account.chargeback(tx).covers_disputes()
        },
{
    if account.deposits.contains_key(tx) {
        let deposit = account.deposits[tx];
        let amount = deposit.amount@;
        if account.hold_is_exact(tx) && account.deposit_is(tx, DisputeState::Undisputed) {
            lemma_exact_sum(account.held, amount);
            lemma_disputed_below_insert(
                account.deposits,
                tx,
                Deposit { amount: deposit.amount, dispute: DisputeState::Disputed },
                0x1_0000_0000,
            );
        }
        if account.release_is_exact(tx) && account.deposit_is(tx, DisputeState::Disputed) {
            lemma_exact_difference(account.held, amount);
            lemma_disputed_below_insert(
                account.deposits,
                tx,
                Deposit { amount: deposit.amount, dispute: DisputeState::Undisputed },
                0x1_0000_0000,
            );
            lemma_disputed_below_insert(
                account.deposits,
                tx,
                Deposit { amount: deposit.amount, dispute: DisputeState::Chargeback },
                0x1_0000_0000,
            );
        }
    }
}

/// One transaction that holds exactly keeps the held funds of every account above the
/// amounts of its disputed deposits.
pub proof fn law_apply_keeps_cover(ledger: Map<u16, AccountView>, tx: TxType)
    requires
        ledger_covers_disputes(ledger),
        holds_exactly(ledger, tx),
    ensures
        ledger_covers_disputes(apply(ledger, tx)),
{
    let after = apply(ledger, tx);
    assert forall|client: u16| #[trigger] after.contains_key(client) implies {
        &&& after[client].holds_representably()
        &&& after[client].deposits_are_not_negative()
        &&& after[client].covers_disputes()
    } by {
        lemma_no_deposits_no_disputes(0x1_0000_0000);
        match tx {
            TxType::Deposit(change) => {
                lemma_deposit_keeps_cover(
                    account_of(ledger, change.client),
                    change.tx,
                    change.amount,
                );
            },
            TxType::Withdrawal(change) => {
                let account = account_of(ledger, change.client);
                assert(account.withdraw(change.amount@).covers_disputes());
            },
            TxType::Dispute(dispute) => {
                if ledger.contains_key(dispute.client) {
                    lemma_dispute_cycle_keeps_cover(ledger[dispute.client], dispute.tx);
                }
            },
            TxType::Resolve(dispute) => {
                if ledger.contains_key(dispute.client) {
                    lemma_dispute_cycle_keeps_cover(ledger[dispute.client], dispute.tx);
                }
            },
            TxType::Chargeback(dispute) => {
                if ledger.contains_key(dispute.client) {
                    lemma_dispute_cycle_keeps_cover(ledger[dispute.client], dispute.tx);
                }
            },
        }
    }
}

/// A sequence of transactions that hold exactly keeps the held funds of every account
/// above the amounts of its disputed deposits.
pub proof fn law_replay_keeps_cover(ledger: Map<u16, AccountView>, txs: Seq<TxType>)
    requires
        ledger_covers_disputes(ledger),
        replay_holds_exactly(ledger, txs),
    ensures
        ledger_covers_disputes(replay(ledger, txs)),
    decreases txs.len(),
{
    if txs.len() > 0 {
        law_replay_keeps_cover(ledger, txs.drop_last());
        law_apply_keeps_cover(replay(ledger, txs.drop_last()), txs.last());
    }
}

/// After every prefix of a stream of transactions on an empty ledger, no account holds
/// a negative amount, as long as no deposit of that prefix was of a negative amount and
/// no sum or difference of held funds in it had to be rounded or saturated.
pub proof fn law_held_is_not_negative(txs: Seq<TxType>, prefix: int, client: u16)
    requires
        0 <= prefix <= txs.len(),
        replay_holds_exactly(Map::empty(), txs.take(prefix)),
    ensures
        ({
            let ledger = replay(Map::empty(), txs.take(prefix));
            ledger.contains_key(client) ==> ledger[client].held.value() >= 0
        }),
{
    law_replay_keeps_cover(Map::empty(), txs.take(prefix));
    let ledger = replay(Map::empty(), txs.take(prefix));
    if ledger.contains_key(client) {
        lemma_disputed_below_not_negative(ledger[client].deposits, 0x1_0000_0000);
    }
}

} // verus!
