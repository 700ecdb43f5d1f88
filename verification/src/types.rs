//! The ledger's data: transactions, deposits and client accounts.

use crate::amount::{Amount, Dec};
use std::collections::HashMap;
use vstd::prelude::*;

verus! {

/// A map of client ids to account data.
pub type Accounts = HashMap<u16, ClientAccount>;

/// State of a dispute.
#[derive(Debug, Clone, Copy, PartialEq, Eq)]
pub enum DisputeState {
    /// The transaction is not disputed.
    Undisputed,
    /// The transaction is disputed.
    Disputed,
    /// A chargeback followed the dispute; nothing follows a chargeback.
    Chargeback,
}

/// A deposit as an account remembers it.
#[derive(Debug, Clone, Copy, PartialEq)]
pub struct Deposit {
    /// The amount that was deposited; it never changes.
    pub amount: Amount,
    pub dispute: DisputeState,
}

/// A dispute, a resolve or a chargeback: it names a deposit of a client.
#[derive(Debug, Clone, Copy)]
pub struct Dispute {
    pub client: u16,
    pub tx: u32,
}

/// A deposit or a withdrawal.
#[derive(Debug, Clone, Copy)]
pub struct BalanceChange {
    pub client: u16,
    pub tx: u32,
    pub amount: Amount,
}

/// A transaction.
#[derive(Debug, Clone, Copy)]
pub enum TxType {
    Deposit(BalanceChange),
    Withdrawal(BalanceChange),
    Dispute(Dispute),
    Resolve(Dispute),
    Chargeback(Dispute),
}

/// State of a client account.
#[derive(Debug, Clone, PartialEq)]
pub struct ClientAccount {
    /// The funds that are available for withdrawal.
    pub available: Amount,
    /// The funds that are held for dispute.
    pub held: Amount,
    /// The funds that are available or held.
    pub total: Amount,
    /// Whether the account is locked. An account is locked when a chargeback occurs.
    pub locked: bool,
    /// The deposits made on this account, by transaction id.
    pub deposit_txs: HashMap<u32, Deposit>,
}

/// What a client account holds, with its balances as numbers and its deposits as a map.
pub ghost struct AccountView {
    pub available: Dec,
    pub held: Dec,
    pub total: Dec,
    pub locked: bool,
    pub deposits: Map<u32, Deposit>,
}

impl View for ClientAccount {
    type V = AccountView;

    open spec fn view(&self) -> AccountView {
        AccountView {
            available: self.available@,
            held: self.held@,
            total: self.total@,
            locked: self.locked,
            deposits: self.deposit_txs@,
        }
    }
}

/// One row of the output: a client and the state of its account.
#[derive(Debug, Clone, Copy, PartialEq)]
pub struct AccountRow {
    pub client: u16,
    pub available: Amount,
    pub held: Amount,
    pub total: Amount,
    pub locked: bool,
}

impl AccountRow {
    /// The row is that of `client` and shows the balances and the lock of `account`.
    pub open spec fn shows(self, client: u16, account: AccountView) -> bool {
        &&& self.client == client
        &&& self.available@ == account.available
        &&& self.held@ == account.held
        &&& self.total@ == account.total
        &&& self.locked == account.locked
    }
}

impl From<BalanceChange> for Deposit {
    fn from(value: BalanceChange) -> (r: Deposit) {
        Deposit { amount: value.amount, dispute: DisputeState::Undisputed }
    }
}

/// A deposit made from a balance change has its amount and is undisputed.
impl vstd::std_specs::convert::FromSpecImpl<BalanceChange> for Deposit {
    open spec fn obeys_from_spec() -> bool {
        true
    }

    open spec fn from_spec(value: BalanceChange) -> Deposit {
        Deposit { amount: value.amount, dispute: DisputeState::Undisputed }
    }
}

/// One row of the input: the kind of transaction as text, and its fields.
#[derive(Debug, Clone)]
pub struct CsvRow {
    pub tx_type: String,
    pub client: u16,
    pub tx: u32,
    pub amount: Option<Amount>,
}

/// Why a row is no transaction.
#[derive(Debug, Clone, PartialEq)]
pub enum RowError {
    /// A deposit without an amount.
    MissingDepositAmount,
    /// A withdrawal without an amount.
    MissingWithdrawalAmount,
    /// The kind is none of the five; it is handed back.
    UnknownType(String),
}

/// `==` on two string slices holds when they have the same characters.
pub assume_specification[ <str as PartialEq>::eq ](a: &str, b: &str) -> (r: bool)
    ensures
        r == (a@ == b@),
;

/// The transaction that a row stands for. A deposit and a withdrawal need an amount;
/// the other three kinds ignore one.
pub open spec fn parse_row(row: CsvRow) -> Result<TxType, RowError> {
    if row.tx_type@ == "deposit"@ {
        match row.amount {
            Some(amount) => Ok(
                TxType::Deposit(BalanceChange { client: row.client, tx: row.tx, amount }),
            ),
            None => Err(RowError::MissingDepositAmount),
        }
    } else if row.tx_type@ == "withdrawal"@ {
        match row.amount {
            Some(amount) => Ok(
                TxType::Withdrawal(BalanceChange { client: row.client, tx: row.tx, amount }),
            ),
            None => Err(RowError::MissingWithdrawalAmount),
        }
    } else if row.tx_type@ == "dispute"@ {
        Ok(TxType::Dispute(Dispute { client: row.client, tx: row.tx }))
    } else if row.tx_type@ == "resolve"@ {
        Ok(TxType::Resolve(Dispute { client: row.client, tx: row.tx }))
    } else if row.tx_type@ == "chargeback"@ {
        Ok(TxType::Chargeback(Dispute { client: row.client, tx: row.tx }))
    } else {
        Err(RowError::UnknownType(row.tx_type))
    }
}

impl TryFrom<CsvRow> for TxType {
    type Error = RowError;

    fn try_from(row: CsvRow) -> (r: Result<TxType, RowError>) {
        let kind = row.tx_type.as_str();
        if kind.eq("deposit") {
            match row.amount {
                Some(amount) => Ok(
                    TxType::Deposit(BalanceChange { client: row.client, tx: row.tx, amount }),
                ),
                None => Err(RowError::MissingDepositAmount),
            }
        } else if kind.eq("withdrawal") {
            match row.amount {
                Some(amount) => Ok(
                    TxType::Withdrawal(BalanceChange { client: row.client, tx: row.tx, amount }),
                ),
                None => Err(RowError::MissingWithdrawalAmount),
            }
        } else if kind.eq("dispute") {
            Ok(TxType::Dispute(Dispute { client: row.client, tx: row.tx }))
        } else if kind.eq("resolve") {
            Ok(TxType::Resolve(Dispute { client: row.client, tx: row.tx }))
        } else if kind.eq("chargeback") {
            Ok(TxType::Chargeback(Dispute { client: row.client, tx: row.tx }))
        } else {
            Err(RowError::UnknownType(row.tx_type))
        }
    }
}

/// Converting a row gives the transaction that it stands for.
impl vstd::std_specs::convert::TryFromSpecImpl<CsvRow> for TxType {
    open spec fn obeys_try_from_spec() -> bool {
        true
    }

    open spec fn try_from_spec(row: CsvRow) -> Result<TxType, RowError> {
        parse_row(row)
    }
}

} // verus!
