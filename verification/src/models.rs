//! The values that the services store and exchange.
use vstd::prelude::*;

verus! {

/// The currencies that accounts can hold.
#[derive(Clone, Copy, Debug, PartialEq, Eq, Structural)]
pub enum Currency {
    Btc,
    Eth,
    Stq,
}

/// Every wallet has a credit side, which tracks what the system owes the
/// user, and a debit side, which tracks what the system holds on the blockchain.
#[derive(Clone, Copy, Debug, PartialEq, Eq, Structural)]
pub enum AccountKind {
    Cr,
    Dr,
}

/// An amount in the smallest unit of its currency (satoshi, wei).
#[derive(Clone, Copy, Debug, PartialEq, Eq, Structural)]
pub struct Amount(pub u128);

impl Amount {
    pub fn new(raw: u128) -> (r: Amount)
        ensures
            r.0 == raw,
    {
        Amount(raw)
    }

    pub fn raw(&self) -> (r: u128)
        ensures
            r == self.0,
    {
        self.0
    }

    pub fn checked_add(&self, other: Amount) -> (r: Option<Amount>)
        ensures
            r == (if self.0 + other.0 <= u128::MAX {
                Some(Amount((self.0 + other.0) as u128))
            } else {
                None::<Amount>
            }),
    {
        match self.0.checked_add(other.0) {
            Some(v) => Some(Amount(v)),
            None => None,
        }
    }

    pub fn checked_sub(&self, other: Amount) -> (r: Option<Amount>)
        ensures
            r == (if self.0 >= other.0 {
                Some(Amount((self.0 - other.0) as u128))
            } else {
                None::<Amount>
            }),
    {
        if self.0 >= other.0 {
            Some(Amount(self.0 - other.0))
        } else {
            None
        }
    }

    pub fn checked_mul(&self, other: Amount) -> (r: Option<Amount>)
        ensures
            r == (if self.0 * other.0 <= u128::MAX {
                Some(Amount((self.0 * other.0) as u128))
            } else {
                None::<Amount>
            }),
    {
        match self.0.checked_mul(other.0) {
            Some(v) => Some(Amount(v)),
            None => None,
        }
    }

    pub fn checked_div(&self, other: Amount) -> (r: Option<Amount>)
        ensures
            r == (if other.0 != 0 {
                Some(Amount((self.0 / other.0) as u128))
            } else {
                None::<Amount>
            }),
    {
        if other.0 != 0 {
            Some(Amount(self.0 / other.0))
        } else {
            None
        }
    }
}

/// Identifier of a user.
#[derive(Clone, Copy, Debug, PartialEq, Eq, Structural)]
pub struct UserId(pub u128);

/// Identifier of an account.
#[derive(Clone, Copy, Debug, PartialEq, Eq, Structural)]
pub struct AccountId(pub u128);

/// Identifier of a transaction; the transactions of one group get consecutive ids.
#[derive(Clone, Copy, Debug, PartialEq, Eq, Structural)]
pub struct TransactionId(pub u128);

impl TransactionId {
    /// The id that follows this one (wrapping around at the end of the range).
    pub fn next(&self) -> (r: TransactionId)
        ensures
            r.0 == (if self.0 == u128::MAX {
                0
            } else {
                self.0 + 1
            }),
    {
        if self.0 == u128::MAX {
            TransactionId(0)
        } else {
            TransactionId(self.0 + 1)
        }
    }
}

/// Identifier of an exchange offer.
#[derive(Clone, Copy, Debug, PartialEq, Eq, Structural)]
pub struct ExchangeId(pub u128);

#[derive(Clone, Copy, Debug, PartialEq, Eq, Structural)]
pub enum TransactionStatus {
    Pending,
    Done,
}

/// The role of one transaction within its group.
#[derive(Clone, Copy, Debug, PartialEq, Eq, Structural)]
pub enum TransactionKind {
    Internal,
    Withdrawal,
    Deposit,
    Fee,
    BlockchainFee,
    MultiFrom,
    MultiTo,
    ApprovalTransfer,
}

/// What a group of transactions as a whole does.
#[derive(Clone, Copy, Debug, PartialEq, Eq, Structural)]
pub enum TransactionGroupKind {
    Internal,
    Withdrawal,
    Deposit,
    InternalMulti,
    WithdrawalMulti,
    Approval,
}

/// ERC-20 operations that a blockchain transaction may carry.
#[derive(Clone, Copy, Debug, PartialEq, Eq, Structural)]
pub enum Erc20OperationKind {
    Approve,
    TransferFrom,
}

/// A user of the wallet.
#[derive(Debug)]
pub struct User {
    pub id: UserId,
    pub name: String,
    pub authentication_token: String,
}

/// An account: one side (`kind`) of a wallet for one currency at one blockchain address.
#[derive(Debug)]
pub struct Account {
    pub id: AccountId,
    pub user_id: UserId,
    pub currency: Currency,
    pub address: String,
    pub name: Option<String>,
    pub kind: AccountKind,
    pub erc20_approved: bool,
}

/// An account together with an amount that belongs to it (its balance, or the
/// part of a transfer that it takes).
#[derive(Debug)]
pub struct AccountWithBalance {
    pub account: Account,
    pub balance: Amount,
}

impl Clone for AccountWithBalance {
    fn clone(&self) -> (r: Self)
        ensures
            r == *self,
    {
        AccountWithBalance { account: self.account.clone(), balance: self.balance }
    }
}

/// A transfer of `value` from `dr_account_id` to `cr_account_id`.
#[derive(Debug)]
pub struct NewTransaction {
    pub id: TransactionId,
    pub gid: TransactionId,
    pub user_id: UserId,
    pub dr_account_id: AccountId,
    pub cr_account_id: AccountId,
    pub currency: Currency,
    pub value: Amount,
    pub status: TransactionStatus,
    pub blockchain_tx_id: Option<String>,
    pub kind: TransactionKind,
    pub group_kind: TransactionGroupKind,
    pub related_tx: Option<TransactionId>,
}

/// A stored transaction; `created_at` is the time at which it was stored,
/// `updated_at` the time of its last change.
#[derive(Debug)]
pub struct Transaction {
    pub id: TransactionId,
    pub gid: TransactionId,
    pub user_id: UserId,
    pub dr_account_id: AccountId,
    pub cr_account_id: AccountId,
    pub currency: Currency,
    pub value: Amount,
    pub status: TransactionStatus,
    pub blockchain_tx_id: Option<String>,
    pub kind: TransactionKind,
    pub group_kind: TransactionGroupKind,
    pub related_tx: Option<TransactionId>,
    pub created_at: u64,
    pub updated_at: u64,
}

/// One side of a transfer as shown to users: an account of the wallet, or an
/// outside blockchain address.
#[derive(Debug)]
pub struct TransactionAddressInfo {
    pub account_id: Option<AccountId>,
    pub blockchain_address: String,
}

impl Clone for TransactionAddressInfo {
    fn clone(&self) -> (r: Self)
        ensures
            r == *self,
    {
        TransactionAddressInfo { account_id: self.account_id, blockchain_address: self.blockchain_address.clone() }
    }
}

/// A group of transactions as shown to users: one transfer, possibly with an
/// exchange between two currencies.
#[derive(Debug)]
pub struct TransactionOut {
    pub id: TransactionId,
    pub from: Vec<TransactionAddressInfo>,
    pub to: TransactionAddressInfo,
    pub from_value: Amount,
    pub from_currency: Currency,
    pub to_value: Amount,
    pub to_currency: Currency,
    pub fee: Amount,
    pub status: TransactionStatus,
    pub blockchain_tx_id: Option<String>,
    pub created_at: u64,
    pub updated_at: u64,
}

/// One receiving output of a blockchain transaction.
#[derive(Debug)]
pub struct BlockchainTransactionEntryTo {
    pub address: String,
    pub value: Amount,
}

/// A transaction as the blockchain gateway reports it.
#[derive(Debug)]
pub struct BlockchainTransaction {
    pub hash: String,
    pub from: Vec<String>,
    pub to: Vec<BlockchainTransactionEntryTo>,
    pub block_number: u64,
    pub currency: Currency,
    pub fee: Amount,
    pub confirmations: u64,
    pub erc20_operation_kind: Option<Erc20OperationKind>,
}


/// A copy of an optional string.
pub fn clone_opt_string(s: &Option<String>) -> (r: Option<String>)
    ensures
        r == *s,
{
    match s {
        Some(v) => Some(v.clone()),
        None => None,
    }
}

/// A copy of a vector of strings.
pub fn clone_strings(v: &Vec<String>) -> (r: Vec<String>)
    ensures
        r@ == v@,
{
    let mut r: Vec<String> = Vec::new();
    let mut i: usize = 0;
    while i < v.len()
        invariant
            0 <= i <= v.len(),
            r@ == v@.take(i as int),
        decreases v.len() - i,
    {
        r.push(v[i].clone());
        assert(r@ =~= v@.take(i + 1));
        i = i + 1;
    }
    assert(v@.take(v.len() as int) =~= v@);
    r
}

impl Clone for User {
    fn clone(&self) -> (r: Self)
        ensures
            r == *self,
    {
        User { id: self.id, name: self.name.clone(), authentication_token: self.authentication_token.clone() }
    }
}

impl Clone for Account {
    fn clone(&self) -> (r: Self)
        ensures
            r == *self,
    {
        Account {
            id: self.id,
            user_id: self.user_id,
            currency: self.currency,
            address: self.address.clone(),
            name: clone_opt_string(&self.name),
            kind: self.kind,
            erc20_approved: self.erc20_approved,
        }
    }
}

impl Clone for NewTransaction {
    fn clone(&self) -> (r: Self)
        ensures
            r == *self,
    {
        NewTransaction {
            id: self.id,
            gid: self.gid,
            user_id: self.user_id,
            dr_account_id: self.dr_account_id,
            cr_account_id: self.cr_account_id,
            currency: self.currency,
            value: self.value,
            status: self.status,
            blockchain_tx_id: clone_opt_string(&self.blockchain_tx_id),
            kind: self.kind,
            group_kind: self.group_kind,
            related_tx: self.related_tx,
        }
    }
}

impl Clone for Transaction {
    fn clone(&self) -> (r: Self)
        ensures
            r == *self,
    {
        Transaction {
            id: self.id,
            gid: self.gid,
            user_id: self.user_id,
            dr_account_id: self.dr_account_id,
            cr_account_id: self.cr_account_id,
            currency: self.currency,
            value: self.value,
            status: self.status,
            blockchain_tx_id: clone_opt_string(&self.blockchain_tx_id),
            kind: self.kind,
            group_kind: self.group_kind,
            related_tx: self.related_tx,
            created_at: self.created_at,
            updated_at: self.updated_at,
        }
    }
}

impl Clone for BlockchainTransactionEntryTo {
    fn clone(&self) -> (r: Self)
        ensures
            r == *self,
    {
        BlockchainTransactionEntryTo { address: self.address.clone(), value: self.value }
    }
}

/// A copy of the receiving outputs of a blockchain transaction.
pub fn clone_entries(v: &Vec<BlockchainTransactionEntryTo>) -> (r: Vec<BlockchainTransactionEntryTo>)
    ensures
        r@ == v@,
{
    let mut r: Vec<BlockchainTransactionEntryTo> = Vec::new();
    let mut i: usize = 0;
    while i < v.len()
        invariant
            0 <= i <= v.len(),
            r@ == v@.take(i as int),
        decreases v.len() - i,
    {
        r.push(v[i].clone());
        assert(r@ =~= v@.take(i + 1));
        i = i + 1;
    }
    assert(v@.take(v.len() as int) =~= v@);
    r
}

impl BlockchainTransaction {
    /// Two reports of a blockchain transaction with the same contents.
    pub open spec fn same_as(&self, other: &BlockchainTransaction) -> bool {
        &&& self.hash == other.hash
        &&& self.from@ == other.from@
        &&& self.to@ == other.to@
        &&& self.block_number == other.block_number
        &&& self.currency == other.currency
        &&& self.fee == other.fee
        &&& self.confirmations == other.confirmations
        &&& self.erc20_operation_kind == other.erc20_operation_kind
    }
}

impl Clone for BlockchainTransaction {
    fn clone(&self) -> (r: Self)
        ensures
            r.same_as(self),
    {
        BlockchainTransaction {
            hash: self.hash.clone(),
            from: clone_strings(&self.from),
            to: clone_entries(&self.to),
            block_number: self.block_number,
            currency: self.currency,
            fee: self.fee,
            confirmations: self.confirmations,
            erc20_operation_kind: self.erc20_operation_kind,
        }
    }
}


/// The result of parsing a string as a UUID, as the `uuid` crate parses it
/// (simple, hyphenated, braced or URN form), as its 128-bit value.
pub uninterp spec fn spec_parse_uuid(s: Seq<char>) -> Option<u128>;

/// Parses a UUID with `uuid::Uuid::parse_str`. Claimed: the result depends
/// only on the text (`spec_parse_uuid`); which texts parse is not stated.
#[verifier::external_body]
fn parse_uuid(s: &str) -> (r: Option<u128>)
    ensures
        r == spec_parse_uuid(s@),
{
    match uuid::Uuid::parse_str(s) {
        Ok(u) => Some(u.as_u128()),
        Err(_) => None,
    }
}

/// How the recipient of a transfer is given.
#[derive(Clone, Copy, Debug, PartialEq, Eq, Structural)]
pub enum RecepientType {
    /// The recipient is the id of an account.
    Account,
    /// The recipient is a blockchain address.
    Address,
}

/// The recipient of a transfer as the user wrote it.
#[derive(Debug)]
pub struct Recepient(pub String);

impl Clone for Recepient {
    fn clone(&self) -> (r: Self)
        ensures
            r == *self,
    {
        Recepient(self.0.clone())
    }
}

impl Recepient {
    pub fn new(s: String) -> (r: Recepient)
        ensures
            r.0 == s,
    {
        Recepient(s)
    }

    /// The recipient read as an account id, when it is a UUID.
    pub fn to_account_id(&self) -> (r: Option<AccountId>)
        ensures
            r == (match spec_parse_uuid(self.0@) {
                Some(v) => Some(AccountId(v)),
                None => None::<AccountId>,
            }),
    {
        match parse_uuid(self.0.as_str()) {
            Some(v) => Some(AccountId(v)),
            None => None,
        }
    }

    /// The recipient read as a blockchain address.
    pub fn to_account_address(&self) -> (r: String)
        ensures
            r == self.0,
    {
        self.0.clone()
    }
}

/// An exchange rate agreed with the exchange, held as the IEEE-754 bit
/// pattern of the `f64` that the exchange quoted. The library carries it along
/// and decides only on its sign.
#[derive(Clone, Copy, Debug, PartialEq, Eq, Structural)]
pub struct ExchangeRate(pub u64);

impl ExchangeRate {
    /// The quoted rate is greater than zero: the sign bit is clear, the value
    /// is not zero and not NaN.
    pub open spec fn spec_is_positive(self) -> bool {
        &&& self.0 < 0x8000_0000_0000_0000u64
        &&& self.0 != 0
        &&& self.0 <= 0x7ff0_0000_0000_0000u64
    }

    pub fn is_positive(&self) -> (r: bool)
        ensures
            r == self.spec_is_positive(),
    {
        self.0 < 0x8000_0000_0000_0000u64 && self.0 != 0 && self.0 <= 0x7ff0_0000_0000_0000u64
    }
}

/// A request to transfer `value` (in `value_currency`) from the account `from`
/// to `to`, which is an account id or a blockchain address.
#[derive(Debug)]
pub struct CreateTransactionInput {
    pub id: TransactionId,
    pub user_id: UserId,
    pub from: AccountId,
    pub to: Recepient,
    pub to_type: RecepientType,
    pub to_currency: Currency,
    pub value: Amount,
    pub value_currency: Currency,
    pub fee: Amount,
    pub exchange_id: Option<ExchangeId>,
    pub exchange_rate: Option<ExchangeRate>,
}

impl Clone for CreateTransactionInput {
    fn clone(&self) -> (r: Self)
        ensures
            r == *self,
    {
        CreateTransactionInput {
            id: self.id,
            user_id: self.user_id,
            from: self.from,
            to: self.to.clone(),
            to_type: self.to_type,
            to_currency: self.to_currency,
            value: self.value,
            value_currency: self.value_currency,
            fee: self.fee,
            exchange_id: self.exchange_id,
            exchange_rate: self.exchange_rate,
        }
    }
}

impl CreateTransactionInput {
    /// The rules an input must satisfy: a given exchange rate is positive.
    pub open spec fn spec_valid(&self) -> bool {
        self.exchange_rate matches Some(r) ==> r.spec_is_positive()
    }

    pub fn validate(&self) -> (r: bool)
        ensures
            r == self.spec_valid(),
    {
        match self.exchange_rate {
            Some(r) => r.is_positive(),
            None => true,
        }
    }
}

} // verus!
