//! The ledger: one account per client, and the dispatch of a transaction to its account.

use crate::types::{
    parse_row, AccountRow, AccountView, Accounts, ClientAccount, CsvRow, RowError, TxType,
};
use std::collections::hash_map::Entry;
use vstd::std_specs::iter::IteratorSpec;
use vstd::prelude::*;

verus! {

broadcast use vstd::std_specs::hash::group_hash_axioms;

/// The accounts of a ledger, each by its view.
pub open spec fn ledger(accounts: Map<u16, ClientAccount>) -> Map<u16, AccountView> {
    accounts.map_values(|account: ClientAccount| account@)
}

/// The account of `client`, or a fresh one where the ledger has none.
pub open spec fn account_of(ledger: Map<u16, AccountView>, client: u16) -> AccountView {
    if ledger.contains_key(client) {
        ledger[client]
    } else {
        AccountView::fresh()
    }
}

/// The ledger after one transaction. A deposit or a withdrawal creates the client's
/// account where there is none; a dispute, a resolve or a chargeback of a client
/// without an account changes nothing.
pub open spec fn apply(ledger: Map<u16, AccountView>, tx: TxType) -> Map<u16, AccountView> {
    match tx {
        TxType::Deposit(change) => ledger.insert(
            change.client,
            account_of(ledger, change.client).deposit(change.tx, change.amount),
        ),
        TxType::Withdrawal(change) => ledger.insert(
            change.client,
            account_of(ledger, change.client).withdraw(change.amount@),
        ),
        TxType::Dispute(dispute) => if ledger.contains_key(dispute.client) {
            ledger.insert(dispute.client, ledger[dispute.client].dispute(dispute.tx))
        } else {
            ledger
        },
        TxType::Resolve(dispute) => if ledger.contains_key(dispute.client) {
            ledger.insert(dispute.client, ledger[dispute.client].resolve(dispute.tx))
        } else {
            ledger
        },
        TxType::Chargeback(dispute) => if ledger.contains_key(dispute.client) {
            ledger.insert(dispute.client, ledger[dispute.client].chargeback(dispute.tx))
        } else {
            ledger
        },
    }
}

/// The ledger after the transactions of `txs`, applied in order.
pub open spec fn replay(ledger: Map<u16, AccountView>, txs: Seq<TxType>) -> Map<u16, AccountView>
    decreases txs.len(),
{
    if txs.len() == 0 {
        ledger
    } else {
        apply(replay(ledger, txs.drop_last()), txs.last())
    }
}

/// Processes one transaction against the ledger.
pub fn process_tx(tx: TxType, accounts: &mut Accounts)
    ensures
        ledger(final(accounts)@) == apply(ledger(old(accounts)@), tx),
{
    match tx {
        TxType::Deposit(change) => {
            let account = accounts.entry(change.client).or_insert(ClientAccount::default());
            account.deposit(change);
        },
        TxType::Withdrawal(change) => {
            let account = accounts.entry(change.client).or_insert(ClientAccount::default());
            account.withdraw(change.amount);
        },
        TxType::Dispute(dispute) => {
            match accounts.entry(dispute.client) {
                Entry::Occupied(entry) => {
                    entry.into_mut().dispute(dispute.tx);
                },
                Entry::Vacant(_) => {},
            }
        },
        TxType::Resolve(dispute) => {
            match accounts.entry(dispute.client) {
                Entry::Occupied(entry) => {
                    entry.into_mut().resolve(dispute.tx);
                },
                Entry::Vacant(_) => {},
            }
        },
        TxType::Chargeback(dispute) => {
            match accounts.entry(dispute.client) {
                Entry::Occupied(entry) => {
                    entry.into_mut().chargeback(dispute.tx);
                },
                Entry::Vacant(_) => {},
            }
        },
    }
}

/// The transactions that the rows stand for, in their order, without the rows that
/// stand for none.
pub open spec fn parsed(rows: Seq<CsvRow>) -> Seq<TxType>
    decreases rows.len(),
{
    if rows.len() == 0 {
        Seq::empty()
    } else {
        match parse_row(rows.last()) {
            Ok(tx) => parsed(rows.drop_last()).push(tx),
            Err(_) => parsed(rows.drop_last()),
        }
    }
}

/// Reads each row as a transaction, or as the reason why it is none.
pub fn record_iter(rows: Vec<CsvRow>) -> (records: Vec<Result<TxType, RowError>>)
    ensures
        records@.len() == rows@.len(),
        forall|i: int| 0 <= i < rows@.len() ==> records@[i] == parse_row(#[trigger] rows@[i]),
{
    let mut records: Vec<Result<TxType, RowError>> = Vec::new();
    for row in it: rows
        invariant
            records@.len() == it.index(),
            forall|i: int| 0 <= i < it.index() ==> records@[i] == parse_row(#[trigger] it.seq()[i]),
    {
        records.push(TxType::try_from(row));
    }
    records
}

/// Processes the rows in order against the ledger; a row that stands for no
/// transaction is skipped.
pub fn process_txs(rows: Vec<CsvRow>, accounts: &mut Accounts)
    ensures
        ledger(final(accounts)@) == replay(ledger(old(accounts)@), parsed(rows@)),
{
    let ghost all = rows@;
    let ghost start = ledger(accounts@);
    let records = record_iter(rows);
    let mut i: usize = 0;
    assert(all.take(0) =~= Seq::empty());
    while i < records.len()
        invariant
            i <= records@.len() == all.len(),
            forall|j: int| 0 <= j < all.len() ==> records@[j] == parse_row(#[trigger] all[j]),
            ledger(accounts@) == replay(start, parsed(all.take(i as int))),
        decreases records@.len() - i,
    {
        proof {
            let before = all.take(i as int);
            let upto = all.take(i + 1);
            assert(upto.drop_last() =~= before);
            assert(upto.last() == all[i as int]);
            if let Ok(tx) = parse_row(all[i as int]) {
                assert(parsed(before).push(tx).drop_last() =~= parsed(before));
            }
        }
        match &records[i] {
            Ok(tx) => {
                process_tx(*tx, accounts);
            },
            Err(_) => {},
        }
        i += 1;
    }
    assert(all.take(all.len() as int) =~= all);
}

/// The ledger with the balances of every account rounded to four fractional digits.
pub open spec fn normalized(ledger: Map<u16, AccountView>) -> Map<u16, AccountView> {
    ledger.map_values(|account: AccountView| account.normalized())
}

/// The clients of the ledger, each once, in the order in which the map hands them out.
fn clients_of(accounts: &Accounts) -> (clients: Vec<u16>)
    ensures
        clients@.no_duplicates(),
        clients@.to_set() == accounts@.dom(),
        clients@.len() == accounts@.len(),
{
    let mut clients: Vec<u16> = Vec::new();
    for client in it: accounts.keys()
        invariant
            it.seq() == accounts.keys().remaining(),
            clients@.len() == it.index(),
            forall|i: int| 0 <= i < it.index() ==> clients@[i] == *(#[trigger] it.seq()[i]),
    {
        clients.push(*client);
    }
    proof {
        let keys = accounts.keys().remaining();
        assert(clients@ =~= keys.unref());
        assert forall|i: int, j: int|
            0 <= i < clients@.len() && 0 <= j < clients@.len() && i != j implies clients@[i]
            != clients@[j] by {
            assert(keys[i] != keys[j]);
        }
    }
    clients
}

/// Rounds the balances of every account to four fractional digits and returns one row
/// for each account, in no particular order.
pub fn account_rows(accounts: &mut Accounts) -> (rows: Vec<AccountRow>)
    ensures
        ledger(final(accounts)@) == normalized(ledger(old(accounts)@)),
        rows@.len() == final(accounts)@.len(),
        forall|i: int|
            0 <= i < rows@.len() ==> final(accounts)@.contains_key((#[trigger] rows@[i]).client)
                && rows@[i].shows(rows@[i].client, final(accounts)@[rows@[i].client]@),
        forall|i: int, j: int|
            0 <= i < j < rows@.len() ==> (#[trigger] rows@[i]).client != (
            #[trigger] rows@[j]).client,
        forall|client: u16| #[trigger]
            final(accounts)@.contains_key(client) ==> exists|i: int|
                0 <= i < rows@.len() && (#[trigger] rows@[i]).client == client,
{
    let clients = clients_of(accounts);
    let ghost start = accounts@;
    let mut rows: Vec<AccountRow> = Vec::new();
    let mut i: usize = 0;
    while i < clients.len()
        invariant
            i <= clients@.len(),
            clients@.no_duplicates(),
            clients@.to_set() == start.dom(),
            accounts@.dom() == start.dom(),
            rows@.len() == i,
            forall|client: u16| #[trigger]
                start.contains_key(client) ==> accounts@[client]@ == (if clients@.take(
                    i as int,
                ).contains(client) {
                    start[client]@.normalized()
                } else {
                    start[client]@
                }),
            forall|j: int|
                0 <= j < i ==> (#[trigger] rows@[j]).client == clients@[j] && rows@[j].shows(
                    clients@[j],
                    start[clients@[j]]@.normalized(),
                ),
        decreases clients@.len() - i,
    {
        let client = clients[i];
        proof {
            let before = clients@.take(i as int);
            let upto = clients@.take(i + 1);
            assert(clients@.to_set().contains(clients@[i as int]));
            assert forall|other: u16| upto.contains(other) <==> before.contains(other) || other
                == client by {
                if upto.contains(other) {
                    let j = choose|j: int| 0 <= j < upto.len() && upto[j] == other;
                    if j < i {
                        assert(before[j] == other);
                    }
                }
                if before.contains(other) {
                    let j = choose|j: int| 0 <= j < before.len() && before[j] == other;
                    assert(upto[j] == other);
                }
                if other == client {
                    assert(upto[i as int] == other);
                }
            }
            if before.contains(client) {
                let j = choose|j: int| 0 <= j < before.len() && before[j] == client;
                assert(clients@[j] == clients@[i as int]);
            }
        }
        match accounts.entry(client) {
            Entry::Occupied(entry) => {
                let account = entry.into_mut();
                account.normalize();
                rows.push(
                    AccountRow {
                        client,
                        available: account.available,
                        held: account.held,
                        total: account.total,
                        locked: account.locked,
                    },
                );
            },
            Entry::Vacant(_) => {},
        }
        i += 1;
    }
    proof {
        assert(clients@.take(clients@.len() as int) =~= clients@);
        assert forall|client: u16| #[trigger] start.contains_key(client) implies clients@.contains(
            client,
        ) && exists|i: int| 0 <= i < rows@.len() && (#[trigger] rows@[i]).client == client by {
            assert(clients@.to_set().contains(client));
            let j = choose|j: int| 0 <= j < clients@.len() && clients@[j] == client;
            assert(rows@[j].client == client);
        }
        assert(ledger(accounts@) =~= normalized(ledger(start)));
        assert forall|a: int, b: int| 0 <= a < b < rows@.len() implies (#[trigger] rows@[a]).client
            != (#[trigger] rows@[b]).client by {
            assert(clients@[a] != clients@[b]);
        }
    }
    rows
}

} // verus!
