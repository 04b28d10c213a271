//! The stored state of the wallet: users, accounts, the transaction ledger and
//! the records kept about blockchain transactions. Every service operation
//! reads and changes it through the operations below.
use vstd::prelude::*;
use crate::error::{failure, invalid_input, Error, ErrorContext, ErrorKind, ErrorKindView, ErrorView};
use crate::lookup::{first_match, lemma_filter_ends, lemma_filter_step, lemma_first_match_bounds, lemma_first_match_hit, lemma_first_match_skip, lemma_first_match_some};
use crate::blockchain_tx::{has_output_to, has_text};
use crate::blockchain::StoredNonce;
use crate::models::{Account, AccountId, AccountWithBalance, AccountKind, Amount, BlockchainTransaction, BlockchainTransactionEntryTo, Currency, NewTransaction, Transaction, TransactionGroupKind, TransactionId, TransactionStatus, User, UserId};

verus! {

/// A blockchain transaction that has been handled and must not be handled again.
#[derive(Debug)]
pub struct SeenHash {
    pub hash: String,
    pub block_number: u64,
    pub currency: Currency,
}

impl Clone for SeenHash {
    fn clone(&self) -> (r: Self)
        ensures
            r == *self,
    {
        SeenHash { hash: self.hash.clone(), block_number: self.block_number, currency: self.currency }
    }
}

/// A blockchain transaction that was sent and is waiting for confirmation.
#[derive(Debug)]
pub struct PendingBlockchainTransaction {
    pub hash: String,
    pub from: String,
    pub to: String,
    pub currency: Currency,
    pub value: Amount,
}

impl Clone for PendingBlockchainTransaction {
    fn clone(&self) -> (r: Self)
        ensures
            r == *self,
    {
        PendingBlockchainTransaction {
            hash: self.hash.clone(),
            from: self.from.clone(),
            to: self.to.clone(),
            currency: self.currency,
            value: self.value,
        }
    }
}

/// A blockchain transaction that breaks an invariant of the wallet, with the reason.
#[derive(Debug)]
pub struct StrangeBlockchainTransaction {
    pub transaction: BlockchainTransaction,
    pub message: String,
}

/// Sum of the values of the transactions that credit account `id`.
pub open spec fn cr_turnover(txs: Seq<Transaction>, id: AccountId) -> int
    decreases txs.len(),
{
    if txs.len() == 0 {
        0
    } else {
        cr_turnover(txs.drop_last(), id) + if txs.last().cr_account_id == id {
            txs.last().value.0 as int
        } else {
            0
        }
    }
}

/// Sum of the values of the transactions that debit account `id`.
pub open spec fn dr_turnover(txs: Seq<Transaction>, id: AccountId) -> int
    decreases txs.len(),
{
    if txs.len() == 0 {
        0
    } else {
        dr_turnover(txs.drop_last(), id) + if txs.last().dr_account_id == id {
            txs.last().value.0 as int
        } else {
            0
        }
    }
}

/// The balance of an account: for a `Cr` account what it was credited minus what
/// it was debited, for a `Dr` account the other way round.
pub open spec fn balance_of(txs: Seq<Transaction>, id: AccountId, kind: AccountKind) -> int {
    match kind {
        AccountKind::Cr => cr_turnover(txs, id) - dr_turnover(txs, id),
        AccountKind::Dr => dr_turnover(txs, id) - cr_turnover(txs, id),
    }
}

/// Whether the balance of an account can be reported: both turnovers fit in
/// an amount and the balance is not negative.
pub open spec fn balance_reportable(txs: Seq<Transaction>, id: AccountId, kind: AccountKind) -> bool {
    &&& cr_turnover(txs, id) <= u128::MAX
    &&& dr_turnover(txs, id) <= u128::MAX
    &&& balance_of(txs, id, kind) >= 0
}

proof fn lemma_turnover_nonneg(txs: Seq<Transaction>, id: AccountId)
    ensures
        cr_turnover(txs, id) >= 0,
        dr_turnover(txs, id) >= 0,
    decreases txs.len(),
{
    if txs.len() > 0 {
        lemma_turnover_nonneg(txs.drop_last(), id);
    }
}

proof fn lemma_turnover_take_monotone(txs: Seq<Transaction>, id: AccountId, j: int, k: int)
    requires
        0 <= j <= k <= txs.len(),
    ensures
        cr_turnover(txs.take(j), id) <= cr_turnover(txs.take(k), id),
        dr_turnover(txs.take(j), id) <= dr_turnover(txs.take(k), id),
    decreases k - j,
{
    if j < k {
        lemma_turnover_take_monotone(txs, id, j, k - 1);
        assert(txs.take(k).drop_last() =~= txs.take(k - 1));
    }
}

/// Appending a transaction changes the turnovers of its two accounts by its value
/// and leaves those of every other account as they were.
pub proof fn lemma_turnover_push(txs: Seq<Transaction>, tx: Transaction, id: AccountId)
    ensures
        cr_turnover(txs.push(tx), id) == cr_turnover(txs, id) + if tx.cr_account_id == id {
            tx.value.0 as int
        } else {
            0
        },
        dr_turnover(txs.push(tx), id) == dr_turnover(txs, id) + if tx.dr_account_id == id {
            tx.value.0 as int
        } else {
            0
        },
{
    assert(txs.push(tx).drop_last() =~= txs);
}

/// Two ledgers that move the same values between the same accounts, position
/// by position, give every account the same turnovers.
pub proof fn lemma_turnover_same_flows(a: Seq<Transaction>, b: Seq<Transaction>, id: AccountId)
    requires
        a.len() == b.len(),
        forall|k: int|
            0 <= k < a.len() ==> (#[trigger] a[k]).dr_account_id == b[k].dr_account_id && a[k].cr_account_id
                == b[k].cr_account_id && a[k].value == b[k].value,
    ensures
        cr_turnover(a, id) == cr_turnover(b, id),
        dr_turnover(a, id) == dr_turnover(b, id),
    decreases a.len(),
{
    if a.len() > 0 {
        lemma_turnover_same_flows(a.drop_last(), b.drop_last(), id);
    }
}

/// Whether a transfer of `value` from `dr` to `cr` lowers the balance of the
/// stored account `a`: it debits a credit account or credits a debit account
/// (a transfer from an account to itself changes nothing).
pub open spec fn lowers(dr: AccountId, cr: AccountId, a: Account) -> bool {
    dr != cr && match a.kind {
        AccountKind::Cr => dr == a.id,
        AccountKind::Dr => cr == a.id,
    }
}

/// The ledger's constraint on a new transfer of `value` from `dr` to `cr`:
/// every stored account whose balance it lowers has a balance that can be
/// read and that covers the value, so that no balance falls below zero.
pub open spec fn booking_allowed(
    accounts: Seq<Account>,
    txs: Seq<Transaction>,
    dr: AccountId,
    cr: AccountId,
    value: Amount,
) -> bool {
    forall|i: int|
        0 <= i < accounts.len() && lowers(dr, cr, #[trigger] accounts[i]) ==> balance_reportable(
            txs,
            accounts[i].id,
            accounts[i].kind,
        ) && balance_of(txs, accounts[i].id, accounts[i].kind) >= value.0
}

/// Every stored account has a balance that is not negative.
pub open spec fn balances_nonneg(accounts: Seq<Account>, txs: Seq<Transaction>) -> bool {
    forall|i: int| 0 <= i < accounts.len() ==> balance_of(txs, (#[trigger] accounts[i]).id, accounts[i].kind) >= 0
}

/// No balance ever falls below zero: when every stored account's balance is
/// not negative, a transfer that the ledger's constraint admits keeps it so.
pub proof fn law_booking_keeps_balances_nonneg(accounts: Seq<Account>, txs: Seq<Transaction>, t: Transaction)
    requires
        balances_nonneg(accounts, txs),
        booking_allowed(accounts, txs, t.dr_account_id, t.cr_account_id, t.value),
    ensures
        balances_nonneg(accounts, txs.push(t)),
{
    assert forall|i: int| 0 <= i < accounts.len() implies balance_of(
        txs.push(t),
        (#[trigger] accounts[i]).id,
        accounts[i].kind,
    ) >= 0 by {
        lemma_turnover_push(txs, t, accounts[i].id);
        if lowers(t.dr_account_id, t.cr_account_id, accounts[i]) {
            assert(balance_of(txs, accounts[i].id, accounts[i].kind) >= t.value.0);
        }
    }
}

/// Two ledgers that move the same values between the same accounts admit the
/// same transfers.
pub proof fn lemma_booking_allowed_same_flows(
    accounts: Seq<Account>,
    a: Seq<Transaction>,
    b: Seq<Transaction>,
    dr: AccountId,
    cr: AccountId,
    value: Amount,
)
    requires
        a.len() == b.len(),
        forall|k: int|
            0 <= k < a.len() ==> (#[trigger] a[k]).dr_account_id == b[k].dr_account_id && a[k].cr_account_id
                == b[k].cr_account_id && a[k].value == b[k].value,
    ensures
        booking_allowed(accounts, a, dr, cr, value) == booking_allowed(accounts, b, dr, cr, value),
{
    assert forall|i: int| 0 <= i < accounts.len() implies cr_turnover(a, (#[trigger] accounts[i]).id) == cr_turnover(
        b,
        accounts[i].id,
    ) && dr_turnover(a, accounts[i].id) == dr_turnover(b, accounts[i].id) by {
        lemma_turnover_same_flows(a, b, accounts[i].id);
    }
}

/// What account `id` (of `kind`) paid out in transactions created at `since` or later.
pub open spec fn spending(txs: Seq<Transaction>, id: AccountId, kind: AccountKind, since: u64) -> int
    decreases txs.len(),
{
    if txs.len() == 0 {
        0
    } else {
        let t = txs.last();
        let pays = match kind {
            AccountKind::Cr => t.dr_account_id == id,
            AccountKind::Dr => t.cr_account_id == id,
        };
        spending(txs.drop_last(), id, kind, since) + if pays && t.created_at >= since {
            t.value.0 as int
        } else {
            0
        }
    }
}

proof fn lemma_spending_take_monotone(txs: Seq<Transaction>, id: AccountId, kind: AccountKind, since: u64, j: int, k: int)
    requires
        0 <= j <= k <= txs.len(),
    ensures
        0 <= spending(txs.take(j), id, kind, since) <= spending(txs.take(k), id, kind, since),
    decreases k - j,
{
    if j < k {
        lemma_spending_take_monotone(txs, id, kind, since, j, k - 1);
        assert(txs.take(k).drop_last() =~= txs.take(k - 1));
    } else {
        lemma_spending_nonneg(txs.take(j), id, kind, since);
    }
}

proof fn lemma_spending_nonneg(txs: Seq<Transaction>, id: AccountId, kind: AccountKind, since: u64)
    ensures
        spending(txs, id, kind, since) >= 0,
    decreases txs.len(),
{
    if txs.len() > 0 {
        lemma_spending_nonneg(txs.drop_last(), id, kind, since);
    }
}

/// The accounts that a withdrawal of `remaining` in `currency` draws from, and
/// what is left uncovered: the debit accounts of that currency, in stored
/// order, whose balance exceeds the blockchain fee `fee`; each gives the
/// smaller of its balance less the fee and what is still needed.
pub open spec fn withdrawal_pick(
    accounts: Seq<Account>,
    txs: Seq<Transaction>,
    currency: Currency,
    remaining: int,
    fee: int,
) -> (Seq<AccountWithBalance>, int)
    decreases accounts.len(),
{
    if accounts.len() == 0 || remaining <= 0 {
        (Seq::empty(), remaining)
    } else {
        let a = accounts[0];
        let b = balance_of(txs, a.id, AccountKind::Dr);
        if a.currency == currency && a.kind == AccountKind::Dr && balance_reportable(txs, a.id, AccountKind::Dr)
            && b > fee {
            let take = if b - fee < remaining {
                b - fee
            } else {
                remaining
            };
            let rest = withdrawal_pick(accounts.drop_first(), txs, currency, remaining - take, fee);
            (seq![AccountWithBalance { account: a, balance: Amount(take as u128) }] + rest.0, rest.1)
        } else {
            withdrawal_pick(accounts.drop_first(), txs, currency, remaining, fee)
        }
    }
}

/// The selection of accounts for a withdrawal: refused when the accounts of
/// the currency cannot cover the value.
pub open spec fn withdrawal_selection(
    accounts: Seq<Account>,
    txs: Seq<Transaction>,
    value: Amount,
    currency: Currency,
    fee: Amount,
) -> Result<Seq<AccountWithBalance>, ErrorView> {
    let (parts, left) = withdrawal_pick(accounts, txs, currency, value.0 as int, fee.0 as int);
    if left <= 0 {
        Ok(parts)
    } else {
        Err(failure(ErrorKindView::InvalidInput("not_enough_balance"@), ErrorContext::NotEnoughFunds))
    }
}

/// The sum of the parts.
pub open spec fn parts_sum(parts: Seq<AccountWithBalance>) -> int
    decreases parts.len(),
{
    if parts.len() == 0 {
        0
    } else {
        parts[0].balance.0 + parts_sum(parts.drop_first())
    }
}

/// Every part is a positive amount from a debit account of the currency that
/// leaves at least the fee on the account.
pub open spec fn parts_within_balances(
    parts: Seq<AccountWithBalance>,
    txs: Seq<Transaction>,
    currency: Currency,
    fee: int,
) -> bool {
    forall|i: int|
        0 <= i < parts.len() ==> {
            let p = #[trigger] parts[i];
            &&& p.account.kind == AccountKind::Dr
            &&& p.account.currency == currency
            &&& p.balance.0 > 0
            &&& p.balance.0 + fee <= balance_of(txs, p.account.id, AccountKind::Dr)
        }
}

proof fn lemma_withdrawal_pick(accounts: Seq<Account>, txs: Seq<Transaction>, currency: Currency, remaining: int, fee: int)
    requires
        remaining >= 0,
        fee >= 0,
        remaining <= u128::MAX,
    ensures
        ({
            let (parts, left) = withdrawal_pick(accounts, txs, currency, remaining, fee);
            &&& 0 <= left <= remaining
            &&& parts_sum(parts) == remaining - left
            &&& parts_within_balances(parts, txs, currency, fee)
        }),
    decreases accounts.len(),
{
    if accounts.len() > 0 && remaining > 0 {
        let a = accounts[0];
        let b = balance_of(txs, a.id, AccountKind::Dr);
        if a.currency == currency && a.kind == AccountKind::Dr && balance_reportable(txs, a.id, AccountKind::Dr)
            && b > fee {
            let take = if b - fee < remaining {
                b - fee
            } else {
                remaining
            };
            lemma_withdrawal_pick(accounts.drop_first(), txs, currency, remaining - take, fee);
            let rest = withdrawal_pick(accounts.drop_first(), txs, currency, remaining - take, fee);
            let x = AccountWithBalance { account: a, balance: Amount(take as u128) };
            let parts = seq![x] + rest.0;
            assert(parts.drop_first() =~= rest.0);
            assert(parts[0] == x);
            assert forall|i: int| 0 <= i < parts.len() implies {
                let p = #[trigger] parts[i];
                &&& p.account.kind == AccountKind::Dr
                &&& p.account.currency == currency
                &&& p.balance.0 > 0
                &&& p.balance.0 + fee <= balance_of(txs, p.account.id, AccountKind::Dr)
            } by {
                if i > 0 {
                    assert(parts[i] == rest.0[i - 1]);
                }
            }
        } else {
            lemma_withdrawal_pick(accounts.drop_first(), txs, currency, remaining, fee);
        }
    }
}

/// A withdrawal draws exactly its value from the wallet's debit accounts of
/// its currency, each part positive and leaving at least the blockchain fee
/// on its account.
pub proof fn law_withdrawal_selection_covers(
    accounts: Seq<Account>,
    txs: Seq<Transaction>,
    value: Amount,
    currency: Currency,
    fee: Amount,
)
    requires
        withdrawal_selection(accounts, txs, value, currency, fee) is Ok,
    ensures
        parts_sum(withdrawal_selection(accounts, txs, value, currency, fee)->Ok_0) == value.0,
        parts_within_balances(withdrawal_selection(accounts, txs, value, currency, fee)->Ok_0, txs, currency, fee.0 as int),
{
    lemma_withdrawal_pick(accounts, txs, currency, value.0 as int, fee.0 as int);
}

/// Predicates that the lookups of the store select by.
pub open spec fn has_account_id(id: AccountId) -> spec_fn(Account) -> bool {
    |a: Account| a.id == id
}

pub open spec fn has_address(address: Seq<char>, currency: Currency, kind: AccountKind) -> spec_fn(
    Account,
) -> bool {
    |a: Account| a.address@ == address && a.currency == currency && a.kind == kind
}

pub open spec fn at_address(address: Seq<char>) -> spec_fn(Account) -> bool {
    |a: Account| a.address@ == address
}

pub open spec fn has_token(token: Seq<char>) -> spec_fn(User) -> bool {
    |u: User| u.authentication_token@ == token
}

pub open spec fn has_tx_id(id: TransactionId) -> spec_fn(Transaction) -> bool {
    |t: Transaction| t.id == id
}

pub open spec fn has_blockchain_tx(hash: Seq<char>) -> spec_fn(Transaction) -> bool {
    |t: Transaction| t.blockchain_tx_id is Some && t.blockchain_tx_id->0@ == hash
}

pub open spec fn is_seen(hash: Seq<char>, currency: Currency) -> spec_fn(SeenHash) -> bool {
    |s: SeenHash| s.hash@ == hash && s.currency == currency
}

pub open spec fn is_pending(hash: Seq<char>) -> spec_fn(PendingBlockchainTransaction) -> bool {
    |p: PendingBlockchainTransaction| p.hash@ == hash
}

pub open spec fn has_gid(gid: TransactionId) -> spec_fn(Transaction) -> bool {
    |t: Transaction| t.gid == gid
}

pub open spec fn is_blockchain_tx(hash: Seq<char>) -> spec_fn(BlockchainTransaction) -> bool {
    |b: BlockchainTransaction| b.hash@ == hash
}

/// The transaction with its blockchain hash set, at time `now`, when it has this id.
pub open spec fn with_blockchain_tx(t: Transaction, id: TransactionId, hash: String, now: u64) -> Transaction {
    if t.id == id {
        Transaction { blockchain_tx_id: Some(hash), updated_at: now, ..t }
    } else {
        t
    }
}

/// The transaction with its status set, at time `now`, when it carries this
/// blockchain hash.
pub open spec fn with_status(t: Transaction, hash: Seq<char>, status: TransactionStatus, now: u64) -> Transaction {
    if has_blockchain_tx(hash)(t) {
        Transaction { status, updated_at: now, ..t }
    } else {
        t
    }
}

/// Accounts of this currency and kind at one of the addresses.
pub open spec fn at_one_of(addresses: Seq<String>, currency: Currency, kind: AccountKind) -> spec_fn(Account) -> bool {
    |a: Account| has_text(addresses, a.address@) && a.currency == currency && a.kind == kind
}

/// The account marked as approved for token transfers when it has this id.
pub open spec fn with_approval(a: Account, id: AccountId) -> Account {
    if a.id == id {
        Account { erc20_approved: true, ..a }
    } else {
        a
    }
}

/// Every debit account has a credit account at the same address in the same
/// currency (accounts are created in such pairs).
pub open spec fn accounts_paired(accounts: Seq<Account>) -> bool {
    forall|i: int|
        0 <= i < accounts.len() && (#[trigger] accounts[i]).kind == AccountKind::Dr ==> exists|j: int|
            0 <= j < accounts.len() && #[trigger] has_address(accounts[i].address@, accounts[i].currency, AccountKind::Cr)(
                accounts[j],
            )
}

/// Every debit account of `currency` at an address that the outputs `to`
/// send to has a credit account at the same address (the deposits of a
/// transaction with these outputs can be booked).
pub open spec fn receivers_paired(accounts: Seq<Account>, to: Seq<BlockchainTransactionEntryTo>, currency: Currency) -> bool {
    forall|i: int|
        0 <= i < accounts.len() && (#[trigger] accounts[i]).kind == AccountKind::Dr && accounts[i].currency == currency
            && has_output_to(to, accounts[i].address@) ==> exists|j: int|
            0 <= j < accounts.len() && #[trigger] has_address(accounts[i].address@, accounts[i].currency, AccountKind::Cr)(
                accounts[j],
            )
}

/// Accounts of a user.
pub open spec fn of_user(user_id: UserId) -> spec_fn(Account) -> bool {
    |a: Account| a.user_id == user_id
}

/// Credit accounts of a user.
pub open spec fn cr_of_user(user_id: UserId) -> spec_fn(Account) -> bool {
    |a: Account| a.user_id == user_id && a.kind == AccountKind::Cr
}

/// The account with the changes applied when it has this id: a new name,
/// and whether it is approved for token transfers.
pub open spec fn with_update(a: Account, id: AccountId, name: Option<String>, erc20_approved: Option<bool>) -> Account {
    if a.id == id {
        Account {
            name: match name {
                Some(n) => Some(n),
                None => a.name,
            },
            erc20_approved: match erc20_approved {
                Some(b) => b,
                None => a.erc20_approved,
            },
            ..a
        }
    } else {
        a
    }
}

/// Transactions of a user that are not part of a token approval.
pub open spec fn visible_to_user(user_id: UserId) -> spec_fn(Transaction) -> bool {
    |t: Transaction| t.user_id == user_id && t.group_kind != TransactionGroupKind::Approval
}

/// Transactions that move money from or to an account and are not part of
/// a token approval.
pub open spec fn visible_for_account(account_id: AccountId) -> spec_fn(Transaction) -> bool {
    |t: Transaction|
        (t.dr_account_id == account_id || t.cr_account_id == account_id) && t.group_kind
            != TransactionGroupKind::Approval
}

/// The history of an account holds every transaction, but those of token
/// approvals, that pays from it or into it, and nothing else: a transfer out
/// of the account (its debit side) is listed as much as one into it.
pub proof fn law_account_history_has_both_sides(txs: Seq<Transaction>, account_id: AccountId)
    ensures
        forall|k: int|
            0 <= k < txs.len() && txs[k].group_kind != TransactionGroupKind::Approval && (txs[k].dr_account_id
                == account_id || txs[k].cr_account_id == account_id) ==> #[trigger] txs.filter(
                visible_for_account(account_id),
            ).contains(txs[k]),
        forall|t: Transaction|
            #[trigger] txs.filter(visible_for_account(account_id)).contains(t) ==> txs.contains(t)
                && t.group_kind != TransactionGroupKind::Approval && (t.dr_account_id == account_id
                || t.cr_account_id == account_id),
{
    broadcast use vstd::seq_lib::group_filter_ensures;

    let p = visible_for_account(account_id);
    assert forall|k: int|
        0 <= k < txs.len() && txs[k].group_kind != TransactionGroupKind::Approval && (txs[k].dr_account_id
            == account_id || txs[k].cr_account_id == account_id) implies #[trigger] txs.filter(p).contains(txs[k]) by {
        assert(p(txs[k]));
    }
    assert forall|t: Transaction| #[trigger] txs.filter(p).contains(t) implies txs.contains(t)
        && t.group_kind != TransactionGroupKind::Approval && (t.dr_account_id == account_id || t.cr_account_id
        == account_id) by {
        let i = choose|i: int| 0 <= i < txs.filter(p).len() && txs.filter(p)[i] == t;
        assert(p(txs.filter(p)[i]));
        txs.lemma_filter_contains_rev(p, t);
    }
}

/// The history of a user holds every transaction of the user but those of
/// token approvals, and nothing else.
pub proof fn law_user_history_skips_only_approvals(txs: Seq<Transaction>, user_id: UserId)
    ensures
        forall|k: int|
            0 <= k < txs.len() && txs[k].group_kind != TransactionGroupKind::Approval && txs[k].user_id == user_id
                ==> #[trigger] txs.filter(visible_to_user(user_id)).contains(txs[k]),
        forall|t: Transaction|
            #[trigger] txs.filter(visible_to_user(user_id)).contains(t) ==> txs.contains(t) && t.group_kind
                != TransactionGroupKind::Approval && t.user_id == user_id,
{
    broadcast use vstd::seq_lib::group_filter_ensures;

    let p = visible_to_user(user_id);
    assert forall|k: int|
        0 <= k < txs.len() && txs[k].group_kind != TransactionGroupKind::Approval && txs[k].user_id
            == user_id implies #[trigger] txs.filter(p).contains(txs[k]) by {
        assert(p(txs[k]));
    }
    assert forall|t: Transaction| #[trigger] txs.filter(p).contains(t) implies txs.contains(t) && t.group_kind
        != TransactionGroupKind::Approval && t.user_id == user_id by {
        let i = choose|i: int| 0 <= i < txs.filter(p).len() && txs.filter(p)[i] == t;
        assert(p(txs.filter(p)[i]));
        txs.lemma_filter_contains_rev(p, t);
    }
}

/// The elements of `s` from position `offset`, at most `limit` of them
/// (both taken as non-negative).
pub open spec fn page_of<T>(s: Seq<T>, offset: int, limit: int) -> Seq<T> {
    let start = if offset > s.len() {
        s.len() as int
    } else {
        offset
    };
    let end = if start + limit > s.len() {
        s.len() as int
    } else {
        start + limit
    };
    s.subrange(start, end)
}

/// The stored state.
pub struct Repos {
    users: Vec<User>,
    accounts: Vec<Account>,
    transactions: Vec<Transaction>,
    seen_hashes: Vec<SeenHash>,
    pending: Vec<PendingBlockchainTransaction>,
    blockchain_transactions: Vec<BlockchainTransaction>,
    strange: Vec<StrangeBlockchainTransaction>,
    nonces: Vec<NonceRecord>,
}

impl Repos {
    pub closed spec fn users(&self) -> Seq<User> {
        self.users@
    }

    pub closed spec fn accounts(&self) -> Seq<Account> {
        self.accounts@
    }

    /// The ledger, oldest transaction first.
    pub closed spec fn transactions(&self) -> Seq<Transaction> {
        self.transactions@
    }

    pub closed spec fn seen_hashes(&self) -> Seq<SeenHash> {
        self.seen_hashes@
    }

    pub closed spec fn pending(&self) -> Seq<PendingBlockchainTransaction> {
        self.pending@
    }

    pub closed spec fn blockchain_transactions(&self) -> Seq<BlockchainTransaction> {
        self.blockchain_transactions@
    }

    pub closed spec fn strange(&self) -> Seq<StrangeBlockchainTransaction> {
        self.strange@
    }

    pub closed spec fn nonces(&self) -> Seq<NonceRecord> {
        self.nonces@
    }

    /// An empty store.
    pub fn new() -> (r: Repos)
        ensures
            r.users() == Seq::<User>::empty(),
            r.accounts() == Seq::<Account>::empty(),
            r.transactions() == Seq::<Transaction>::empty(),
            r.seen_hashes() == Seq::<SeenHash>::empty(),
            r.pending() == Seq::<PendingBlockchainTransaction>::empty(),
            r.blockchain_transactions() == Seq::<BlockchainTransaction>::empty(),
            r.strange() == Seq::<StrangeBlockchainTransaction>::empty(),
            r.nonces() == Seq::<NonceRecord>::empty(),
    {
        Repos {
            users: Vec::new(),
            accounts: Vec::new(),
            transactions: Vec::new(),
            seen_hashes: Vec::new(),
            pending: Vec::new(),
            blockchain_transactions: Vec::new(),
            strange: Vec::new(),
            nonces: Vec::new(),
        }
    }

    /// The account with this id.
    pub fn get_account(&self, id: AccountId) -> (r: Option<Account>)
        ensures
            r == first_match(self.accounts(), has_account_id(id)),
    {
        let ghost p = has_account_id(id);
        proof {
            lemma_first_match_bounds(self.accounts@, p);
        }
        let mut i: usize = 0;
        while i < self.accounts.len()
            invariant
                0 <= i <= self.accounts@.len(),
                p == has_account_id(id),
                first_match(self.accounts@, p) == first_match(
                    self.accounts@.subrange(i as int, self.accounts@.len() as int),
                    p,
                ),
            decreases self.accounts.len() - i,
        {
            if self.accounts[i].id == id {
                proof {
                    lemma_first_match_hit(self.accounts@, p, i as int);
                }
                return Some(self.accounts[i].clone());
            }
            proof {
                lemma_first_match_skip(self.accounts@, p, i as int);
            }
            i = i + 1;
        }
        None
    }

    /// The account of this kind for this currency at this address.
    pub fn get_account_by_address(&self, address: &String, currency: Currency, kind: AccountKind) -> (r:
        Option<Account>)
        ensures
            r == first_match(self.accounts(), has_address(address@, currency, kind)),
    {
        let ghost p = has_address(address@, currency, kind);
        proof {
            lemma_first_match_bounds(self.accounts@, p);
        }
        let mut i: usize = 0;
        while i < self.accounts.len()
            invariant
                0 <= i <= self.accounts@.len(),
                p == has_address(address@, currency, kind),
                first_match(self.accounts@, p) == first_match(
                    self.accounts@.subrange(i as int, self.accounts@.len() as int),
                    p,
                ),
            decreases self.accounts.len() - i,
        {
            let a = &self.accounts[i];
            if a.address == *address && a.currency == currency && a.kind == kind {
                proof {
                    lemma_first_match_hit(self.accounts@, p, i as int);
                }
                return Some(a.clone());
            }
            proof {
                lemma_first_match_skip(self.accounts@, p, i as int);
            }
            i = i + 1;
        }
        None
    }

    /// The balance of an account, when it can be reported.
    pub fn account_balance(&self, id: AccountId, kind: AccountKind) -> (r: Result<Amount, Error>)
        ensures
            r is Ok <==> balance_reportable(self.transactions(), id, kind),
            r matches Ok(b) ==> b.0 == balance_of(self.transactions(), id, kind),
            r matches Err(e) ==> e == Error::of(ErrorKind::Internal, ErrorContext::BalanceOverflow),
    {
        let ghost txs = self.transactions@;
        let mut cr: u128 = 0;
        let mut dr: u128 = 0;
        let mut i: usize = 0;
        proof {
            lemma_turnover_nonneg(txs, id);
        }
        while i < self.transactions.len()
            invariant
                0 <= i <= txs.len(),
                txs == self.transactions@,
                cr == cr_turnover(txs.take(i as int), id),
                dr == dr_turnover(txs.take(i as int), id),
            decreases self.transactions.len() - i,
        {
            let t = &self.transactions[i];
            proof {
                assert(txs.take(i + 1).drop_last() =~= txs.take(i as int));
                lemma_turnover_take_monotone(txs, id, i + 1, txs.len() as int);
                assert(txs.take(txs.len() as int) =~= txs);
            }
            if t.cr_account_id == id {
                if cr > u128::MAX - t.value.0 {
                    return Err(Error { kind: ErrorKind::Internal, context: Some(ErrorContext::BalanceOverflow) });
                }
                cr = cr + t.value.0;
            }
            if t.dr_account_id == id {
                if dr > u128::MAX - t.value.0 {
                    return Err(Error { kind: ErrorKind::Internal, context: Some(ErrorContext::BalanceOverflow) });
                }
                dr = dr + t.value.0;
            }
            i = i + 1;
        }
        proof {
            assert(txs.take(txs.len() as int) =~= txs);
        }
        match kind {
            AccountKind::Cr => {
                if cr >= dr {
                    Ok(Amount(cr - dr))
                } else {
                    Err(Error { kind: ErrorKind::Internal, context: Some(ErrorContext::BalanceOverflow) })
                }
            },
            AccountKind::Dr => {
                if dr >= cr {
                    Ok(Amount(dr - cr))
                } else {
                    Err(Error { kind: ErrorKind::Internal, context: Some(ErrorContext::BalanceOverflow) })
                }
            },
        }
    }

    /// What the account paid out since `since`, when it fits in an amount.
    pub fn account_spending(&self, id: AccountId, kind: AccountKind, since: u64) -> (r: Result<Amount, Error>)
        ensures
            r is Ok <==> spending(self.transactions(), id, kind, since) <= u128::MAX,
            r matches Ok(a) ==> a.0 == spending(self.transactions(), id, kind, since),
            r matches Err(e) ==> e == Error::of(ErrorKind::Internal, ErrorContext::BalanceOverflow),
    {
        let ghost txs = self.transactions@;
        let mut sum: u128 = 0;
        let mut i: usize = 0;
        while i < self.transactions.len()
            invariant
                0 <= i <= txs.len(),
                txs == self.transactions@,
                sum == spending(txs.take(i as int), id, kind, since),
            decreases self.transactions.len() - i,
        {
            let t = &self.transactions[i];
            proof {
                assert(txs.take(i + 1).drop_last() =~= txs.take(i as int));
                lemma_spending_take_monotone(txs, id, kind, since, i + 1, txs.len() as int);
                assert(txs.take(txs.len() as int) =~= txs);
            }
            let pays = match kind {
                AccountKind::Cr => t.dr_account_id == id,
                AccountKind::Dr => t.cr_account_id == id,
            };
            if pays && t.created_at >= since {
                if sum > u128::MAX - t.value.0 {
                    return Err(Error { kind: ErrorKind::Internal, context: Some(ErrorContext::BalanceOverflow) });
                }
                sum = sum + t.value.0;
            }
            i = i + 1;
        }
        proof {
            assert(txs.take(txs.len() as int) =~= txs);
        }
        Ok(Amount(sum))
    }

    /// The accounts, of any kind and currency, at this address.
    pub fn filter_accounts_by_address(&self, address: &String) -> (r: Vec<Account>)
        ensures
            r@ == self.accounts().filter(at_address(address@)),
    {
        let ghost p = at_address(address@);
        proof {
            lemma_filter_ends(self.accounts@, p);
        }
        let mut r: Vec<Account> = Vec::new();
        let mut i: usize = 0;
        while i < self.accounts.len()
            invariant
                0 <= i <= self.accounts@.len(),
                p == at_address(address@),
                r@ == self.accounts@.take(i as int).filter(p),
            decreases self.accounts.len() - i,
        {
            if self.accounts[i].address == *address {
                r.push(self.accounts[i].clone());
            }
            proof {
                lemma_filter_step(self.accounts@, p, i as int);
            }
            i = i + 1;
        }
        proof {
            assert(self.accounts@.take(self.accounts@.len() as int) =~= self.accounts@);
        }
        r
    }

    /// The debit accounts that a withdrawal of `value` in `currency` draws
    /// from, with the part each gives (see `withdrawal_pick`).
    pub fn get_accounts_for_withdrawal(&self, value: Amount, currency: Currency, fee: Amount) -> (r: Result<
        Vec<AccountWithBalance>,
        Error,
    >)
        ensures
            (match r {
                Ok(v) => Ok(v@),
                Err(e) => Err(e@),
            }) == withdrawal_selection(self.accounts(), self.transactions(), value, currency, fee),
    {
        let ghost accs = self.accounts@;
        let ghost txs = self.transactions@;
        let mut parts: Vec<AccountWithBalance> = Vec::new();
        let mut remaining: u128 = value.0;
        let mut i: usize = 0;
        proof {
            assert(accs.subrange(0, accs.len() as int) =~= accs);
        }
        while i < self.accounts.len() && remaining > 0
            invariant
                0 <= i <= accs.len(),
                accs == self.accounts@,
                txs == self.transactions@,
                withdrawal_pick(accs, txs, currency, value.0 as int, fee.0 as int) == (
                    parts@ + withdrawal_pick(accs.subrange(i as int, accs.len() as int), txs, currency, remaining as int, fee.0 as int).0,
                    withdrawal_pick(accs.subrange(i as int, accs.len() as int), txs, currency, remaining as int, fee.0 as int).1,
                ),
            decreases self.accounts.len() - i,
        {
            let a = &self.accounts[i];
            let ghost tail = accs.subrange(i as int, accs.len() as int);
            proof {
                assert(tail.drop_first() =~= accs.subrange(i + 1, accs.len() as int));
                assert(tail[0] == accs[i as int]);
            }
            if a.currency == currency && a.kind == AccountKind::Dr {
                match self.account_balance(a.id, AccountKind::Dr) {
                    Ok(b) => {
                        if b.0 > fee.0 {
                            let avail = b.0 - fee.0;
                            let take = if avail < remaining {
                                avail
                            } else {
                                remaining
                            };
                            let ghost old_parts = parts@;
                            parts.push(AccountWithBalance { account: a.clone(), balance: Amount(take) });
                            proof {
                                assert(parts@ == old_parts.push(AccountWithBalance { account: accs[i as int], balance: Amount(take) }));
                                let rest = withdrawal_pick(accs.subrange(i + 1, accs.len() as int), txs, currency, remaining - take, fee.0 as int);
                                assert(old_parts + (seq![AccountWithBalance { account: accs[i as int], balance: Amount(take) }] + rest.0) =~= parts@ + rest.0);
                            }
                            remaining = remaining - take;
                        }
                    },
                    Err(_) => {},
                }
            }
            i = i + 1;
        }
        proof {
            if i == accs.len() {
                assert(accs.subrange(i as int, accs.len() as int).len() == 0);
            }
            assert(parts@ + Seq::<AccountWithBalance>::empty() =~= parts@);
        }
        if remaining == 0 {
            Ok(parts)
        } else {
            Err(Error { kind: invalid_input("not_enough_balance"), context: Some(ErrorContext::NotEnoughFunds) })
        }
    }

    /// The transaction with this id.
    pub fn get_transaction(&self, id: TransactionId) -> (r: Option<Transaction>)
        ensures
            r == first_match(self.transactions(), has_tx_id(id)),
    {
        let ghost p = has_tx_id(id);
        proof {
            lemma_first_match_bounds(self.transactions@, p);
        }
        let mut i: usize = 0;
        while i < self.transactions.len()
            invariant
                0 <= i <= self.transactions@.len(),
                p == has_tx_id(id),
                first_match(self.transactions@, p) == first_match(
                    self.transactions@.subrange(i as int, self.transactions@.len() as int),
                    p,
                ),
            decreases self.transactions.len() - i,
        {
            if self.transactions[i].id == id {
                proof {
                    lemma_first_match_hit(self.transactions@, p, i as int);
                }
                return Some(self.transactions[i].clone());
            }
            proof {
                lemma_first_match_skip(self.transactions@, p, i as int);
            }
            i = i + 1;
        }
        None
    }

    /// The transaction that carries this blockchain hash.
    pub fn get_by_blockchain_tx(&self, hash: &String) -> (r: Option<Transaction>)
        ensures
            r == first_match(self.transactions(), has_blockchain_tx(hash@)),
    {
        let ghost p = has_blockchain_tx(hash@);
        proof {
            lemma_first_match_bounds(self.transactions@, p);
        }
        let mut i: usize = 0;
        while i < self.transactions.len()
            invariant
                0 <= i <= self.transactions@.len(),
                p == has_blockchain_tx(hash@),
                first_match(self.transactions@, p) == first_match(
                    self.transactions@.subrange(i as int, self.transactions@.len() as int),
                    p,
                ),
            decreases self.transactions.len() - i,
        {
            let hit = match &self.transactions[i].blockchain_tx_id {
                Some(h) => *h == *hash,
                None => false,
            };
            if hit {
                proof {
                    lemma_first_match_hit(self.transactions@, p, i as int);
                }
                return Some(self.transactions[i].clone());
            }
            proof {
                lemma_first_match_skip(self.transactions@, p, i as int);
            }
            i = i + 1;
        }
        None
    }

    /// The transactions of a group, oldest first.
    pub fn get_by_gid(&self, gid: TransactionId) -> (r: Vec<Transaction>)
        ensures
            r@ == self.transactions().filter(has_gid(gid)),
    {
        let ghost p = has_gid(gid);
        proof {
            lemma_filter_ends(self.transactions@, p);
        }
        let mut r: Vec<Transaction> = Vec::new();
        let mut i: usize = 0;
        while i < self.transactions.len()
            invariant
                0 <= i <= self.transactions@.len(),
                p == has_gid(gid),
                r@ == self.transactions@.take(i as int).filter(p),
            decreases self.transactions.len() - i,
        {
            if self.transactions[i].gid == gid {
                r.push(self.transactions[i].clone());
            }
            proof {
                lemma_filter_step(self.transactions@, p, i as int);
            }
            i = i + 1;
        }
        proof {
            assert(self.transactions@.take(self.transactions@.len() as int) =~= self.transactions@);
        }
        r
    }

    /// Records, at time `now`, the blockchain hash of the transaction with
    /// this id; `false` when there is no such transaction.
    pub fn update_blockchain_tx(&mut self, id: TransactionId, hash: &String, now: u64) -> (r: bool)
        ensures
            r == (exists|k: int| 0 <= k < old(self).transactions().len() && #[trigger] old(self).transactions()[k].id == id),
            final(self).transactions() == old(self).transactions().map_values(
                |t: Transaction| with_blockchain_tx(t, id, *hash, now),
            ),
            final(self).same_except_transactions(old(self)),
    {
        let ghost old_txs = self.transactions@;
        let mut found = false;
        let mut i: usize = 0;
        while i < self.transactions.len()
            invariant
                0 <= i <= old_txs.len(),
                self.transactions@.len() == old_txs.len(),
                forall|k: int| 0 <= k < i ==> #[trigger] self.transactions@[k] == with_blockchain_tx(old_txs[k], id, *hash, now),
                forall|k: int| i <= k < old_txs.len() ==> #[trigger] self.transactions@[k] == old_txs[k],
                found == (exists|k: int| 0 <= k < i && #[trigger] old_txs[k].id == id),
                self.users@ == old(self).users@,
                self.accounts@ == old(self).accounts@,
                self.seen_hashes@ == old(self).seen_hashes@,
                self.pending@ == old(self).pending@,
                self.blockchain_transactions@ == old(self).blockchain_transactions@,
                self.strange@ == old(self).strange@,
                old_txs == old(self).transactions@,
            decreases self.transactions.len() - i,
        {
            if self.transactions[i].id == id {
                let mut t = self.transactions[i].clone();
                t.blockchain_tx_id = Some(hash.clone());
                t.updated_at = now;
                self.transactions.set(i, t);
                found = true;
            }
            i = i + 1;
        }
        proof {
            assert(self.transactions@ =~= old_txs.map_values(|t: Transaction| with_blockchain_tx(t, id, *hash, now)));
        }
        found
    }

    /// Sets, at time `now`, the status of the transactions that carry this
    /// blockchain hash.
    pub fn update_status(&mut self, hash: &String, status: TransactionStatus, now: u64)
        ensures
            final(self).transactions() == old(self).transactions().map_values(
                |t: Transaction| with_status(t, hash@, status, now),
            ),
            final(self).same_except_transactions(old(self)),
    {
        let ghost old_txs = self.transactions@;
        let mut i: usize = 0;
        while i < self.transactions.len()
            invariant
                0 <= i <= old_txs.len(),
                self.transactions@.len() == old_txs.len(),
                forall|k: int| 0 <= k < i ==> #[trigger] self.transactions@[k] == with_status(old_txs[k], hash@, status, now),
                forall|k: int| i <= k < old_txs.len() ==> #[trigger] self.transactions@[k] == old_txs[k],
                self.users@ == old(self).users@,
                self.accounts@ == old(self).accounts@,
                self.seen_hashes@ == old(self).seen_hashes@,
                self.pending@ == old(self).pending@,
                self.blockchain_transactions@ == old(self).blockchain_transactions@,
                self.strange@ == old(self).strange@,
                old_txs == old(self).transactions@,
            decreases self.transactions.len() - i,
        {
            let hit = match &self.transactions[i].blockchain_tx_id {
                Some(h) => *h == *hash,
                None => false,
            };
            if hit {
                let mut t = self.transactions[i].clone();
                t.status = status;
                t.updated_at = now;
                self.transactions.set(i, t);
            }
            i = i + 1;
        }
        proof {
            assert(self.transactions@ =~= old_txs.map_values(|t: Transaction| with_status(t, hash@, status, now)));
        }
    }

    /// Whether this blockchain transaction of this currency was handled already.
    pub fn get_seen_hash(&self, hash: &String, currency: Currency) -> (r: Option<SeenHash>)
        ensures
            r == first_match(self.seen_hashes(), is_seen(hash@, currency)),
    {
        let ghost p = is_seen(hash@, currency);
        proof {
            lemma_first_match_bounds(self.seen_hashes@, p);
        }
        let mut i: usize = 0;
        while i < self.seen_hashes.len()
            invariant
                0 <= i <= self.seen_hashes@.len(),
                p == is_seen(hash@, currency),
                first_match(self.seen_hashes@, p) == first_match(
                    self.seen_hashes@.subrange(i as int, self.seen_hashes@.len() as int),
                    p,
                ),
            decreases self.seen_hashes.len() - i,
        {
            if self.seen_hashes[i].hash == *hash && self.seen_hashes[i].currency == currency {
                proof {
                    lemma_first_match_hit(self.seen_hashes@, p, i as int);
                }
                return Some(self.seen_hashes[i].clone());
            }
            proof {
                lemma_first_match_skip(self.seen_hashes@, p, i as int);
            }
            i = i + 1;
        }
        None
    }

    /// Marks a blockchain transaction as handled.
    pub fn create_seen_hash(&mut self, seen: SeenHash)
        ensures
            final(self).seen_hashes() == old(self).seen_hashes().push(seen),
            final(self).transactions() == old(self).transactions(),
            final(self).users() == old(self).users(),
            final(self).accounts() == old(self).accounts(),
            final(self).pending() == old(self).pending(),
            final(self).blockchain_transactions() == old(self).blockchain_transactions(),
            final(self).strange() == old(self).strange(),
    {
        self.seen_hashes.push(seen);
    }

    /// The sent blockchain transaction with this hash that waits for confirmation.
    pub fn get_pending(&self, hash: &String) -> (r: Option<PendingBlockchainTransaction>)
        ensures
            r == first_match(self.pending(), is_pending(hash@)),
    {
        let ghost p = is_pending(hash@);
        proof {
            lemma_first_match_bounds(self.pending@, p);
        }
        let mut i: usize = 0;
        while i < self.pending.len()
            invariant
                0 <= i <= self.pending@.len(),
                p == is_pending(hash@),
                first_match(self.pending@, p) == first_match(
                    self.pending@.subrange(i as int, self.pending@.len() as int),
                    p,
                ),
            decreases self.pending.len() - i,
        {
            if self.pending[i].hash == *hash {
                proof {
                    lemma_first_match_hit(self.pending@, p, i as int);
                }
                return Some(self.pending[i].clone());
            }
            proof {
                lemma_first_match_skip(self.pending@, p, i as int);
            }
            i = i + 1;
        }
        None
    }

    /// Records a sent blockchain transaction that waits for confirmation.
    pub fn create_pending(&mut self, pending: PendingBlockchainTransaction)
        ensures
            final(self).pending() == old(self).pending().push(pending),
            final(self).transactions() == old(self).transactions(),
            final(self).users() == old(self).users(),
            final(self).accounts() == old(self).accounts(),
            final(self).seen_hashes() == old(self).seen_hashes(),
            final(self).blockchain_transactions() == old(self).blockchain_transactions(),
            final(self).strange() == old(self).strange(),
    {
        self.pending.push(pending);
    }

    /// Removes the first waiting blockchain transaction with this hash; a
    /// storage failure when there is none.
    pub fn delete_pending(&mut self, hash: &String) -> (r: Result<PendingBlockchainTransaction, Error>)
        ensures
            (match first_match(old(self).pending(), is_pending(hash@)) {
                Some(p) => r == Ok::<PendingBlockchainTransaction, Error>(p) && exists|k: int|
                    0 <= k < old(self).pending().len() && old(self).pending()[k] == p && #[trigger] final(self).pending()
                        == old(self).pending().remove(k),
                None => r == Err::<PendingBlockchainTransaction, Error>(Error { kind: ErrorKind::Internal, context: None })
                    && final(self).pending() == old(self).pending(),
            }),
            final(self).transactions() == old(self).transactions(),
            final(self).users() == old(self).users(),
            final(self).accounts() == old(self).accounts(),
            final(self).seen_hashes() == old(self).seen_hashes(),
            final(self).blockchain_transactions() == old(self).blockchain_transactions(),
            final(self).strange() == old(self).strange(),
    {
        let ghost p = is_pending(hash@);
        proof {
            lemma_first_match_bounds(self.pending@, p);
        }
        let mut i: usize = 0;
        while i < self.pending.len()
            invariant
                0 <= i <= self.pending@.len(),
                p == is_pending(hash@),
                self.pending@ == old(self).pending@,
                self.users@ == old(self).users@,
                self.accounts@ == old(self).accounts@,
                self.transactions@ == old(self).transactions@,
                self.seen_hashes@ == old(self).seen_hashes@,
                self.blockchain_transactions@ == old(self).blockchain_transactions@,
                self.strange@ == old(self).strange@,
                first_match(self.pending@, p) == first_match(
                    self.pending@.subrange(i as int, self.pending@.len() as int),
                    p,
                ),
            decreases self.pending.len() - i,
        {
            if self.pending[i].hash == *hash {
                proof {
                    lemma_first_match_hit(self.pending@, p, i as int);
                }
                let removed = self.pending.remove(i);
                return Ok(removed);
            }
            proof {
                lemma_first_match_skip(self.pending@, p, i as int);
            }
            i = i + 1;
        }
        Err(Error { kind: ErrorKind::Internal, context: None })
    }

    /// Records a blockchain transaction that the wallet accepted.
    pub fn create_blockchain_tx(&mut self, tx: BlockchainTransaction)
        ensures
            final(self).blockchain_transactions() == old(self).blockchain_transactions().push(tx),
            final(self).transactions() == old(self).transactions(),
            final(self).users() == old(self).users(),
            final(self).accounts() == old(self).accounts(),
            final(self).seen_hashes() == old(self).seen_hashes(),
            final(self).pending() == old(self).pending(),
            final(self).strange() == old(self).strange(),
    {
        self.blockchain_transactions.push(tx);
    }

    /// The accepted blockchain transaction with this hash.
    pub fn get_blockchain_tx(&self, hash: &String) -> (r: Option<BlockchainTransaction>)
        ensures
            r is Some <==> first_match(self.blockchain_transactions(), is_blockchain_tx(hash@)) is Some,
            r matches Some(b) ==> b.same_as(&first_match(self.blockchain_transactions(), is_blockchain_tx(hash@))->0),
    {
        let ghost p = is_blockchain_tx(hash@);
        proof {
            lemma_first_match_bounds(self.blockchain_transactions@, p);
        }
        let mut i: usize = 0;
        while i < self.blockchain_transactions.len()
            invariant
                0 <= i <= self.blockchain_transactions@.len(),
                p == is_blockchain_tx(hash@),
                first_match(self.blockchain_transactions@, p) == first_match(
                    self.blockchain_transactions@.subrange(i as int, self.blockchain_transactions@.len() as int),
                    p,
                ),
            decreases self.blockchain_transactions.len() - i,
        {
            if self.blockchain_transactions[i].hash == *hash {
                proof {
                    lemma_first_match_hit(self.blockchain_transactions@, p, i as int);
                }
                return Some(self.blockchain_transactions[i].clone());
            }
            proof {
                lemma_first_match_skip(self.blockchain_transactions@, p, i as int);
            }
            i = i + 1;
        }
        None
    }

    /// Records a blockchain transaction that broke an invariant of the wallet.
    pub fn create_strange(&mut self, strange: StrangeBlockchainTransaction)
        ensures
            final(self).strange() == old(self).strange().push(strange),
            final(self).transactions() == old(self).transactions(),
            final(self).users() == old(self).users(),
            final(self).accounts() == old(self).accounts(),
            final(self).seen_hashes() == old(self).seen_hashes(),
            final(self).pending() == old(self).pending(),
            final(self).blockchain_transactions() == old(self).blockchain_transactions(),
    {
        self.strange.push(strange);
    }

    /// The accounts of this currency and kind at any of the addresses.
    pub fn get_by_addresses(&self, addresses: &Vec<String>, currency: Currency, kind: AccountKind) -> (r: Vec<Account>)
        ensures
            r@ == self.accounts().filter(at_one_of(addresses@, currency, kind)),
    {
        let ghost p = at_one_of(addresses@, currency, kind);
        proof {
            lemma_filter_ends(self.accounts@, p);
        }
        let mut r: Vec<Account> = Vec::new();
        let mut i: usize = 0;
        while i < self.accounts.len()
            invariant
                0 <= i <= self.accounts@.len(),
                p == at_one_of(addresses@, currency, kind),
                r@ == self.accounts@.take(i as int).filter(p),
            decreases self.accounts.len() - i,
        {
            let a = &self.accounts[i];
            if a.currency == currency && a.kind == kind {
                let mut found = false;
                let mut j: usize = 0;
                while j < addresses.len()
                    invariant
                        0 <= j <= addresses@.len(),
                        i < self.accounts@.len(),
                        a == self.accounts@[i as int],
                        found == (exists|k: int| 0 <= k < j && (#[trigger] addresses@[k])@ == a.address@),
                    decreases addresses.len() - j,
                {
                    if addresses[j] == a.address {
                        found = true;
                    }
                    j = j + 1;
                }
                if found {
                    r.push(a.clone());
                }
            }
            proof {
                lemma_filter_step(self.accounts@, p, i as int);
            }
            i = i + 1;
        }
        proof {
            assert(self.accounts@.take(self.accounts@.len() as int) =~= self.accounts@);
        }
        r
    }

    /// Marks the account with this id as approved for token transfers.
    pub fn set_erc20_approved(&mut self, id: AccountId)
        ensures
            final(self).accounts() == old(self).accounts().map_values(|a: Account| with_approval(a, id)),
            final(self).transactions() == old(self).transactions(),
            final(self).users() == old(self).users(),
            final(self).seen_hashes() == old(self).seen_hashes(),
            final(self).pending() == old(self).pending(),
            final(self).blockchain_transactions() == old(self).blockchain_transactions(),
            final(self).strange() == old(self).strange(),
    {
        let ghost old_accs = self.accounts@;
        let mut i: usize = 0;
        while i < self.accounts.len()
            invariant
                0 <= i <= old_accs.len(),
                self.accounts@.len() == old_accs.len(),
                forall|k: int| 0 <= k < i ==> #[trigger] self.accounts@[k] == with_approval(old_accs[k], id),
                forall|k: int| i <= k < old_accs.len() ==> #[trigger] self.accounts@[k] == old_accs[k],
                self.users@ == old(self).users@,
                self.transactions@ == old(self).transactions@,
                self.seen_hashes@ == old(self).seen_hashes@,
                self.pending@ == old(self).pending@,
                self.blockchain_transactions@ == old(self).blockchain_transactions@,
                self.strange@ == old(self).strange@,
                old_accs == old(self).accounts@,
            decreases self.accounts.len() - i,
        {
            if self.accounts[i].id == id {
                let mut a = self.accounts[i].clone();
                a.erc20_approved = true;
                self.accounts.set(i, a);
            }
            i = i + 1;
        }
        proof {
            assert(self.accounts@ =~= old_accs.map_values(|a: Account| with_approval(a, id)));
        }
    }

    /// Drops what was appended to the ledger, to the handled hashes and to the
    /// accepted blockchain transactions after the given lengths.
    pub fn truncate_records(&mut self, transactions: usize, seen_hashes: usize, blockchain_transactions: usize)
        requires
            transactions <= old(self).transactions().len(),
            seen_hashes <= old(self).seen_hashes().len(),
            blockchain_transactions <= old(self).blockchain_transactions().len(),
        ensures
            final(self).transactions() == old(self).transactions().take(transactions as int),
            final(self).seen_hashes() == old(self).seen_hashes().take(seen_hashes as int),
            final(self).blockchain_transactions() == old(self).blockchain_transactions().take(
                blockchain_transactions as int,
            ),
            final(self).users() == old(self).users(),
            final(self).accounts() == old(self).accounts(),
            final(self).pending() == old(self).pending(),
            final(self).strange() == old(self).strange(),
    {
        self.transactions.truncate(transactions);
        self.seen_hashes.truncate(seen_hashes);
        self.blockchain_transactions.truncate(blockchain_transactions);
    }

    /// Number of handled hashes.
    pub fn seen_hashes_len(&self) -> (r: usize)
        ensures
            r == self.seen_hashes().len(),
    {
        self.seen_hashes.len()
    }

    /// Number of accepted blockchain transactions.
    pub fn blockchain_transactions_len(&self) -> (r: usize)
        ensures
            r == self.blockchain_transactions().len(),
    {
        self.blockchain_transactions.len()
    }

    /// The user with this authentication token.
    pub fn find_user_by_authentication_token(&self, token: &String) -> (r: Option<User>)
        ensures
            r == first_match(self.users(), has_token(token@)),
    {
        let ghost p = has_token(token@);
        proof {
            lemma_first_match_bounds(self.users@, p);
        }
        let mut i: usize = 0;
        while i < self.users.len()
            invariant
                0 <= i <= self.users@.len(),
                p == has_token(token@),
                first_match(self.users@, p) == first_match(self.users@.subrange(i as int, self.users@.len() as int), p),
            decreases self.users.len() - i,
        {
            if self.users[i].authentication_token == *token {
                proof {
                    lemma_first_match_hit(self.users@, p, i as int);
                }
                return Some(self.users[i].clone());
            }
            proof {
                lemma_first_match_skip(self.users@, p, i as int);
            }
            i = i + 1;
        }
        None
    }

    /// Stores a user.
    pub fn create_user(&mut self, user: User) -> (r: User)
        ensures
            r == user,
            final(self).users() == old(self).users().push(user),
            final(self).accounts() == old(self).accounts(),
            final(self).transactions() == old(self).transactions(),
            final(self).seen_hashes() == old(self).seen_hashes(),
            final(self).pending() == old(self).pending(),
            final(self).blockchain_transactions() == old(self).blockchain_transactions(),
            final(self).strange() == old(self).strange(),
    {
        let r = user.clone();
        self.users.push(user);
        r
    }

    /// Stores an account.
    pub fn create_account(&mut self, account: Account)
        ensures
            final(self).accounts() == old(self).accounts().push(account),
            final(self).users() == old(self).users(),
            final(self).transactions() == old(self).transactions(),
            final(self).seen_hashes() == old(self).seen_hashes(),
            final(self).pending() == old(self).pending(),
            final(self).blockchain_transactions() == old(self).blockchain_transactions(),
            final(self).strange() == old(self).strange(),
    {
        self.accounts.push(account);
    }

    /// Applies changes to the account with this id (see `with_update`).
    pub fn update_account(&mut self, id: AccountId, name: &Option<String>, erc20_approved: Option<bool>)
        ensures
            final(self).accounts() == old(self).accounts().map_values(
                |a: Account| with_update(a, id, *name, erc20_approved),
            ),
            final(self).users() == old(self).users(),
            final(self).transactions() == old(self).transactions(),
            final(self).seen_hashes() == old(self).seen_hashes(),
            final(self).pending() == old(self).pending(),
            final(self).blockchain_transactions() == old(self).blockchain_transactions(),
            final(self).strange() == old(self).strange(),
    {
        let ghost old_accs = self.accounts@;
        let mut i: usize = 0;
        while i < self.accounts.len()
            invariant
                0 <= i <= old_accs.len(),
                self.accounts@.len() == old_accs.len(),
                forall|k: int| 0 <= k < i ==> #[trigger] self.accounts@[k] == with_update(old_accs[k], id, *name, erc20_approved),
                forall|k: int| i <= k < old_accs.len() ==> #[trigger] self.accounts@[k] == old_accs[k],
                self.users@ == old(self).users@,
                self.transactions@ == old(self).transactions@,
                self.seen_hashes@ == old(self).seen_hashes@,
                self.pending@ == old(self).pending@,
                self.blockchain_transactions@ == old(self).blockchain_transactions@,
                self.strange@ == old(self).strange@,
                old_accs == old(self).accounts@,
            decreases self.accounts.len() - i,
        {
            if self.accounts[i].id == id {
                let mut a = self.accounts[i].clone();
                match name {
                    Some(n) => {
                        a.name = Some(n.clone());
                    },
                    None => {},
                }
                match erc20_approved {
                    Some(b) => {
                        a.erc20_approved = b;
                    },
                    None => {},
                }
                self.accounts.set(i, a);
            }
            i = i + 1;
        }
        proof {
            assert(self.accounts@ =~= old_accs.map_values(|a: Account| with_update(a, id, *name, erc20_approved)));
        }
    }

    /// Removes the first account with this id.
    pub fn delete_account(&mut self, id: AccountId) -> (r: Option<Account>)
        ensures
            r == first_match(old(self).accounts(), has_account_id(id)),
            r is None ==> final(self).accounts() == old(self).accounts(),
            r is Some ==> exists|k: int|
                0 <= k < old(self).accounts().len() && old(self).accounts()[k] == r->0 && #[trigger] final(self).accounts() == old(self).accounts().remove(k),
            final(self).users() == old(self).users(),
            final(self).transactions() == old(self).transactions(),
            final(self).seen_hashes() == old(self).seen_hashes(),
            final(self).pending() == old(self).pending(),
            final(self).blockchain_transactions() == old(self).blockchain_transactions(),
            final(self).strange() == old(self).strange(),
    {
        let ghost p = has_account_id(id);
        proof {
            lemma_first_match_bounds(self.accounts@, p);
        }
        let mut i: usize = 0;
        while i < self.accounts.len()
            invariant
                0 <= i <= self.accounts@.len(),
                p == has_account_id(id),
                self.accounts@ == old(self).accounts@,
                self.users@ == old(self).users@,
                self.transactions@ == old(self).transactions@,
                self.seen_hashes@ == old(self).seen_hashes@,
                self.pending@ == old(self).pending@,
                self.blockchain_transactions@ == old(self).blockchain_transactions@,
                self.strange@ == old(self).strange@,
                first_match(self.accounts@, p) == first_match(
                    self.accounts@.subrange(i as int, self.accounts@.len() as int),
                    p,
                ),
            decreases self.accounts.len() - i,
        {
            if self.accounts[i].id == id {
                proof {
                    lemma_first_match_hit(self.accounts@, p, i as int);
                }
                let removed = self.accounts.remove(i);
                return Some(removed);
            }
            proof {
                lemma_first_match_skip(self.accounts@, p, i as int);
            }
            i = i + 1;
        }
        None
    }

    /// The accounts of a user, in stored order.
    pub fn accounts_of_user(&self, user_id: UserId) -> (r: Vec<Account>)
        ensures
            r@ == self.accounts().filter(of_user(user_id)),
    {
        let ghost p = of_user(user_id);
        proof {
            lemma_filter_ends(self.accounts@, p);
        }
        let mut r: Vec<Account> = Vec::new();
        let mut i: usize = 0;
        while i < self.accounts.len()
            invariant
                0 <= i <= self.accounts@.len(),
                p == of_user(user_id),
                r@ == self.accounts@.take(i as int).filter(p),
            decreases self.accounts.len() - i,
        {
            if self.accounts[i].user_id == user_id {
                r.push(self.accounts[i].clone());
            }
            proof {
                lemma_filter_step(self.accounts@, p, i as int);
            }
            i = i + 1;
        }
        proof {
            assert(self.accounts@.take(self.accounts@.len() as int) =~= self.accounts@);
        }
        r
    }

    /// The credit accounts of a user, in stored order.
    pub fn cr_accounts_of_user(&self, user_id: UserId) -> (r: Vec<Account>)
        ensures
            r@ == self.accounts().filter(cr_of_user(user_id)),
    {
        let ghost p = cr_of_user(user_id);
        proof {
            lemma_filter_ends(self.accounts@, p);
        }
        let mut r: Vec<Account> = Vec::new();
        let mut i: usize = 0;
        while i < self.accounts.len()
            invariant
                0 <= i <= self.accounts@.len(),
                p == cr_of_user(user_id),
                r@ == self.accounts@.take(i as int).filter(p),
            decreases self.accounts.len() - i,
        {
            if self.accounts[i].user_id == user_id && self.accounts[i].kind == AccountKind::Cr {
                r.push(self.accounts[i].clone());
            }
            proof {
                lemma_filter_step(self.accounts@, p, i as int);
            }
            i = i + 1;
        }
        proof {
            assert(self.accounts@.take(self.accounts@.len() as int) =~= self.accounts@);
        }
        r
    }

    /// Whether every debit account has its credit side (see `accounts_paired`).
    pub fn accounts_are_paired(&self) -> (r: bool)
        ensures
            r == accounts_paired(self.accounts()),
    {
        let mut i: usize = 0;
        while i < self.accounts.len()
            invariant
                0 <= i <= self.accounts@.len(),
                forall|k: int|
                    0 <= k < i && (#[trigger] self.accounts@[k]).kind == AccountKind::Dr ==> exists|j: int|
                        0 <= j < self.accounts@.len() && #[trigger] has_address(
                            self.accounts@[k].address@,
                            self.accounts@[k].currency,
                            AccountKind::Cr,
                        )(self.accounts@[j]),
            decreases self.accounts.len() - i,
        {
            let a = &self.accounts[i];
            if a.kind == AccountKind::Dr {
                let pair = self.get_account_by_address(&a.address, a.currency, AccountKind::Cr);
                proof {
                    lemma_first_match_some(self.accounts@, has_address(a.address@, a.currency, AccountKind::Cr));
                }
                if pair.is_none() {
                    proof {
                        assert(!accounts_paired(self.accounts@)) by {
                            if accounts_paired(self.accounts@) {
                                assert(self.accounts@[i as int].kind == AccountKind::Dr);
                            }
                        }
                    }
                    return false;
                }
            }
            i = i + 1;
        }
        true
    }

    /// Whether the debit accounts that receive from the outputs `to` in
    /// `currency` have their credit sides (see `receivers_paired`).
    pub fn receivers_are_paired(&self, to: &Vec<BlockchainTransactionEntryTo>, currency: Currency) -> (r: bool)
        ensures
            r == receivers_paired(self.accounts(), to@, currency),
    {
        let mut i: usize = 0;
        while i < self.accounts.len()
            invariant
                0 <= i <= self.accounts@.len(),
                forall|k: int|
                    0 <= k < i && (#[trigger] self.accounts@[k]).kind == AccountKind::Dr && self.accounts@[k].currency
                        == currency && has_output_to(to@, self.accounts@[k].address@) ==> exists|j: int|
                        0 <= j < self.accounts@.len() && #[trigger] has_address(
                            self.accounts@[k].address@,
                            self.accounts@[k].currency,
                            AccountKind::Cr,
                        )(self.accounts@[j]),
            decreases self.accounts.len() - i,
        {
            let a = &self.accounts[i];
            if a.kind == AccountKind::Dr && a.currency == currency {
                let mut receives = false;
                let mut o: usize = 0;
                while o < to.len()
                    invariant
                        0 <= o <= to@.len(),
                        receives <==> exists|j: int| 0 <= j < o && (#[trigger] to@[j]).address@ == a.address@,
                    decreases to.len() - o,
                {
                    if to[o].address == a.address {
                        receives = true;
                    }
                    o = o + 1;
                }
                if receives {
                    let pair = self.get_account_by_address(&a.address, a.currency, AccountKind::Cr);
                    proof {
                        lemma_first_match_some(self.accounts@, has_address(a.address@, a.currency, AccountKind::Cr));
                    }
                    if pair.is_none() {
                        proof {
                            assert(has_output_to(to@, a.address@));
                            assert(!receivers_paired(self.accounts@, to@, currency)) by {
                                if receivers_paired(self.accounts@, to@, currency) {
                                    assert(self.accounts@[i as int].kind == AccountKind::Dr);
                                }
                            }
                        }
                        return false;
                    }
                }
            }
            i = i + 1;
        }
        true
    }

    /// The transactions that satisfy `visible_to_user`, in ledger order.
    pub fn transactions_of_user(&self, user_id: UserId) -> (r: Vec<Transaction>)
        ensures
            r@ == self.transactions().filter(visible_to_user(user_id)),
    {
        let ghost p = visible_to_user(user_id);
        proof {
            lemma_filter_ends(self.transactions@, p);
        }
        let mut r: Vec<Transaction> = Vec::new();
        let mut i: usize = 0;
        while i < self.transactions.len()
            invariant
                0 <= i <= self.transactions@.len(),
                p == visible_to_user(user_id),
                r@ == self.transactions@.take(i as int).filter(p),
            decreases self.transactions.len() - i,
        {
            let t = &self.transactions[i];
            if t.user_id == user_id && t.group_kind != TransactionGroupKind::Approval {
                r.push(t.clone());
            }
            proof {
                lemma_filter_step(self.transactions@, p, i as int);
            }
            i = i + 1;
        }
        proof {
            assert(self.transactions@.take(self.transactions@.len() as int) =~= self.transactions@);
        }
        r
    }

    /// The transactions that satisfy `visible_for_account`, in ledger order.
    pub fn transactions_of_account(&self, account_id: AccountId) -> (r: Vec<Transaction>)
        ensures
            r@ == self.transactions().filter(visible_for_account(account_id)),
    {
        let ghost p = visible_for_account(account_id);
        proof {
            lemma_filter_ends(self.transactions@, p);
        }
        let mut r: Vec<Transaction> = Vec::new();
        let mut i: usize = 0;
        while i < self.transactions.len()
            invariant
                0 <= i <= self.transactions@.len(),
                p == visible_for_account(account_id),
                r@ == self.transactions@.take(i as int).filter(p),
            decreases self.transactions.len() - i,
        {
            let t = &self.transactions[i];
            if (t.dr_account_id == account_id || t.cr_account_id == account_id) && t.group_kind
                != TransactionGroupKind::Approval {
                r.push(t.clone());
            }
            proof {
                lemma_filter_step(self.transactions@, p, i as int);
            }
            i = i + 1;
        }
        proof {
            assert(self.transactions@.take(self.transactions@.len() as int) =~= self.transactions@);
        }
        r
    }

    /// Whether the ledger's constraint admits a transfer of `value` from `dr`
    /// to `cr` (see `booking_allowed`).
    pub fn allows_booking(&self, dr: AccountId, cr: AccountId, value: Amount) -> (r: bool)
        ensures
            r == booking_allowed(self.accounts(), self.transactions(), dr, cr, value),
    {
        let mut i: usize = 0;
        while i < self.accounts.len()
            invariant
                0 <= i <= self.accounts@.len(),
                forall|j: int|
                    0 <= j < i && lowers(dr, cr, #[trigger] self.accounts@[j]) ==> balance_reportable(
                        self.transactions@,
                        self.accounts@[j].id,
                        self.accounts@[j].kind,
                    ) && balance_of(self.transactions@, self.accounts@[j].id, self.accounts@[j].kind) >= value.0,
            decreases self.accounts.len() - i,
        {
            let a = &self.accounts[i];
            let lowered = dr != cr && match a.kind {
                AccountKind::Cr => dr == a.id,
                AccountKind::Dr => cr == a.id,
            };
            if lowered {
                match self.account_balance(a.id, a.kind) {
                    Ok(b) => {
                        if b.0 < value.0 {
                            return false;
                        }
                    },
                    Err(_) => {
                        return false;
                    },
                }
            }
            i = i + 1;
        }
        true
    }

    /// Stores a transaction, created at time `now`, at the end of the
    /// ledger, unless the ledger's constraint refuses it (see
    /// `booking_allowed`): then nothing changes. So no booking ever takes a
    /// balance below zero.
    pub fn create_transaction(&mut self, tx: NewTransaction, now: u64) -> (r: Result<Transaction, Error>)
        ensures
            r is Ok <==> booking_allowed(
                old(self).accounts(),
                old(self).transactions(),
                tx.dr_account_id,
                tx.cr_account_id,
                tx.value,
            ),
            r matches Ok(t) ==> t == stored(tx, now) && final(self).transactions() == old(self).transactions().push(t),
            r matches Err(e) ==> e == Error::of(ErrorKind::Internal, ErrorContext::BalanceOverflow)
                && final(self).transactions() == old(self).transactions(),
            final(self).same_except_transactions(old(self)),
            balances_nonneg(old(self).accounts(), old(self).transactions()) ==> balances_nonneg(
                final(self).accounts(),
                final(self).transactions(),
            ),
    {
        if !self.allows_booking(tx.dr_account_id, tx.cr_account_id, tx.value) {
            return Err(Error { kind: ErrorKind::Internal, context: Some(ErrorContext::BalanceOverflow) });
        }
        let created_at = now;
        let t = Transaction {
            id: tx.id,
            gid: tx.gid,
            user_id: tx.user_id,
            dr_account_id: tx.dr_account_id,
            cr_account_id: tx.cr_account_id,
            currency: tx.currency,
            value: tx.value,
            status: tx.status,
            blockchain_tx_id: tx.blockchain_tx_id,
            kind: tx.kind,
            group_kind: tx.group_kind,
            related_tx: tx.related_tx,
            created_at,
            updated_at: created_at,
        };
        proof {
            if balances_nonneg(self.accounts@, self.transactions@) {
                law_booking_keeps_balances_nonneg(self.accounts@, self.transactions@, t);
            }
        }
        self.transactions.push(t.clone());
        Ok(t)
    }

    /// Drops the transactions stored after the first `n` (undoing a
    /// group of writes that failed part way).
    pub fn rollback_transactions(&mut self, n: usize)
        requires
            n <= old(self).transactions().len(),
        ensures
            final(self).transactions() == old(self).transactions().take(n as int),
            final(self).same_except_transactions(old(self)),
    {
        self.transactions.truncate(n);
    }

    /// The nonce stored for the sending address `address`.
    pub fn get_nonce(&self, address: &String) -> (r: Option<StoredNonce>)
        ensures
            r == nonce_of(self.nonces(), address@),
    {
        let mut i: usize = 0;
        proof {
            assert(self.nonces@.subrange(0, self.nonces@.len() as int) =~= self.nonces@);
        }
        while i < self.nonces.len()
            invariant
                0 <= i <= self.nonces@.len(),
                nonce_of(self.nonces@, address@) == nonce_of(self.nonces@.subrange(i as int, self.nonces@.len() as int), address@),
            decreases self.nonces.len() - i,
        {
            proof {
                lemma_nonce_of_step(self.nonces@, address@, i as int);
            }
            if self.nonces[i].address == *address {
                return Some(self.nonces[i].nonce);
            }
            i = i + 1;
        }
        proof {
            assert(self.nonces@.subrange(i as int, self.nonces@.len() as int) =~= Seq::<NonceRecord>::empty());
        }
        None
    }

    /// Stores `nonce` as the nonce of the sending address `address`, in place
    /// of any stored before.
    pub fn set_nonce(&mut self, address: String, nonce: StoredNonce)
        ensures
            nonce_of(final(self).nonces(), address@) == Some(nonce),
            forall|a: Seq<char>| a != address@ ==> nonce_of(final(self).nonces(), a) == nonce_of(old(self).nonces(), a),
            final(self).same_except_transactions(old(self)),
            final(self).transactions() == old(self).transactions(),
    {
        let ghost old_nonces = self.nonces@;
        let ghost addr = address@;
        let mut i: usize = 0;
        while i < self.nonces.len()
            invariant
                0 <= i <= self.nonces@.len(),
                self.nonces@.len() == old_nonces.len(),
                addr == address@,
                old_nonces == old(self).nonces@,
                forall|j: int| 0 <= j < old_nonces.len() && j != i ==> #[trigger] self.nonces@[j] == old_nonces[j],
                forall|j: int| 0 <= j < i ==> (#[trigger] old_nonces[j]).address@ != address@,
                i < old_nonces.len() ==> self.nonces@[i as int] == old_nonces[i as int],
                self.users@ == old(self).users@,
                self.accounts@ == old(self).accounts@,
                self.transactions@ == old(self).transactions@,
                self.seen_hashes@ == old(self).seen_hashes@,
                self.pending@ == old(self).pending@,
                self.blockchain_transactions@ == old(self).blockchain_transactions@,
                self.strange@ == old(self).strange@,
            decreases self.nonces.len() - i,
        {
            if self.nonces[i].address == address {
                let rec = NonceRecord { address, nonce };
                let ghost grec = rec;
                self.nonces.set(i, rec);
                proof {
                    assert(grec.address@ == addr);
                    assert(self.nonces@ =~= old_nonces.update(i as int, grec));
                    lemma_nonce_of_update(old_nonces, i as int, grec);
                }
                return;
            }
            i = i + 1;
        }
        let rec = NonceRecord { address, nonce };
        proof {
            assert(self.nonces@ =~= old_nonces);
            lemma_nonce_of_push(old_nonces, rec);
        }
        self.nonces.push(rec);
    }

    /// Number of stored accounts.
    pub fn accounts_len(&self) -> (r: usize)
        ensures
            r == self.accounts().len(),
    {
        self.accounts.len()
    }

    /// Number of stored transactions.
    pub fn transactions_len(&self) -> (r: usize)
        ensures
            r == self.transactions().len(),
    {
        self.transactions.len()
    }

    /// Everything but the ledger is as in `other`.
    pub open spec fn same_except_transactions(&self, other: &Repos) -> bool {
        &&& self.users() == other.users()
        &&& self.accounts() == other.accounts()
        &&& self.seen_hashes() == other.seen_hashes()
        &&& self.pending() == other.pending()
        &&& self.blockchain_transactions() == other.blockchain_transactions()
        &&& self.strange() == other.strange()
    }
}

/// The nonce stored for a sending address.
#[derive(Debug)]
pub struct NonceRecord {
    pub address: String,
    pub nonce: StoredNonce,
}

/// The nonce stored for the address `address`: that of its first record.
pub open spec fn nonce_of(records: Seq<NonceRecord>, address: Seq<char>) -> Option<StoredNonce>
    decreases records.len(),
{
    if records.len() == 0 {
        None
    } else if records[0].address@ == address {
        Some(records[0].nonce)
    } else {
        nonce_of(records.drop_first(), address)
    }
}

proof fn lemma_nonce_of_step(records: Seq<NonceRecord>, address: Seq<char>, i: int)
    requires
        0 <= i < records.len(),
    ensures
        nonce_of(records.subrange(i, records.len() as int), address) == if records[i].address@ == address {
            Some(records[i].nonce)
        } else {
            nonce_of(records.subrange(i + 1, records.len() as int), address)
        },
{
    assert(records.subrange(i, records.len() as int).drop_first() =~= records.subrange(i + 1, records.len() as int));
}

proof fn lemma_nonce_of_update(records: Seq<NonceRecord>, i: int, rec: NonceRecord)
    requires
        0 <= i < records.len(),
        records[i].address@ == rec.address@,
        forall|j: int| 0 <= j < i ==> (#[trigger] records[j]).address@ != rec.address@,
    ensures
        nonce_of(records.update(i, rec), rec.address@) == Some(rec.nonce),
        forall|a: Seq<char>| a != rec.address@ ==> nonce_of(records.update(i, rec), a) == nonce_of(records, a),
    decreases records.len(),
{
    let u = records.update(i, rec);
    if i > 0 {
        assert(u.drop_first() =~= records.drop_first().update(i - 1, rec));
        assert forall|j: int| 0 <= j < i - 1 implies (#[trigger] records.drop_first()[j]).address@ != rec.address@ by {
            assert(records.drop_first()[j] == records[j + 1]);
        }
        lemma_nonce_of_update(records.drop_first(), i - 1, rec);
        assert(u[0] == records[0]);
        assert(records[0].address@ != rec.address@);
        assert forall|a: Seq<char>| a != rec.address@ implies nonce_of(u, a) == nonce_of(records, a) by {
            assert(u[0] == records[0]);
            if records[0].address@ != a {
                assert(nonce_of(u, a) == nonce_of(u.drop_first(), a));
                assert(nonce_of(records, a) == nonce_of(records.drop_first(), a));
                assert(nonce_of(records.drop_first().update(i - 1, rec), a) == nonce_of(records.drop_first(), a));
            }
        }
    } else {
        assert(u.drop_first() =~= records.drop_first());
        assert(u[0] == rec);
        assert forall|a: Seq<char>| a != rec.address@ implies nonce_of(u, a) == nonce_of(records, a) by {
            assert(u[0] == rec);
            assert(nonce_of(u, a) == nonce_of(u.drop_first(), a));
            assert(nonce_of(records, a) == nonce_of(records.drop_first(), a));
        }
    }
}

proof fn lemma_nonce_of_push(records: Seq<NonceRecord>, rec: NonceRecord)
    requires
        forall|j: int| 0 <= j < records.len() ==> (#[trigger] records[j]).address@ != rec.address@,
    ensures
        nonce_of(records.push(rec), rec.address@) == Some(rec.nonce),
        forall|a: Seq<char>| a != rec.address@ ==> nonce_of(records.push(rec), a) == nonce_of(records, a),
    decreases records.len(),
{
    let p = records.push(rec);
    if records.len() > 0 {
        assert(p.drop_first() =~= records.drop_first().push(rec));
        assert forall|j: int| 0 <= j < records.drop_first().len() implies (
        #[trigger] records.drop_first()[j]).address@ != rec.address@ by {
            assert(records.drop_first()[j] == records[j + 1]);
        }
        lemma_nonce_of_push(records.drop_first(), rec);
        assert(p[0] == records[0]);
        assert(records[0].address@ != rec.address@);
        assert forall|a: Seq<char>| a != rec.address@ implies nonce_of(p, a) == nonce_of(records, a) by {
            assert(p[0] == records[0]);
            if records[0].address@ != a {
                assert(nonce_of(p, a) == nonce_of(p.drop_first(), a));
                assert(nonce_of(records, a) == nonce_of(records.drop_first(), a));
                assert(nonce_of(records.drop_first().push(rec), a) == nonce_of(records.drop_first(), a));
            }
        }
    } else {
        assert(p.drop_first() =~= Seq::<NonceRecord>::empty());
        assert(p[0] == rec);
        assert forall|a: Seq<char>| a != rec.address@ implies nonce_of(p, a) == nonce_of(records, a) by {
            assert(p[0] == rec);
            assert(nonce_of(p, a) == nonce_of(p.drop_first(), a));
            assert(nonce_of(p.drop_first(), a) == None::<StoredNonce>);
        }
    }
}

/// The transaction that storing `tx` at time `created_at` gives.
pub open spec fn stored(tx: NewTransaction, created_at: u64) -> Transaction {
    Transaction {
        id: tx.id,
        gid: tx.gid,
        user_id: tx.user_id,
        dr_account_id: tx.dr_account_id,
        cr_account_id: tx.cr_account_id,
        currency: tx.currency,
        value: tx.value,
        status: tx.status,
        blockchain_tx_id: tx.blockchain_tx_id,
        kind: tx.kind,
        group_kind: tx.group_kind,
        related_tx: tx.related_tx,
        created_at,
        updated_at: created_at,
    }
}

} // verus!
