//! Handling the transactions that the blockchain gateway reports: deposits to
//! the wallet's addresses, confirmations of the wallet's own withdrawals and
//! token approvals. Each reported transaction is handled at most once.
use vstd::prelude::*;
use crate::blockchain_tx::{outputs_sum, has_output_to, lemma_merged_address_occurs, merge_outputs, output_at, output_value_at, unique_addresses};
use crate::error::{failure, Error, ErrorContext, ErrorKind, ErrorKindView, ErrorView};
use crate::confirmations::{confirmations_needed, required_confirmations};
use crate::lookup::{first_match, lemma_first_match_some};
use crate::models::{
    Amount, Erc20OperationKind, Account, AccountId, AccountKind, BlockchainTransaction, BlockchainTransactionEntryTo, Currency,
    NewTransaction, Transaction, TransactionGroupKind, TransactionId, TransactionKind, TransactionStatus,
};
use crate::repos::{
    booking_allowed, receivers_paired, has_blockchain_tx, is_seen, at_one_of, balance_of, balance_reportable, has_account_id, has_address, is_pending, lemma_booking_allowed_same_flows, lemma_turnover_same_flows, stored,
    with_approval, with_status, PendingBlockchainTransaction, Repos, SeenHash, StrangeBlockchainTransaction,
};
use crate::blockchain::CreateBlockchainTx;
use crate::system::{system_account, SystemServiceImpl};

verus! {

/// A reported blockchain transaction that is valid on the blockchain but
/// breaks an invariant of the wallet.
#[derive(Copy, Clone, Eq, PartialEq, Debug, Structural)]
pub enum InvariantViolation {
    WithdrawalAdressesCount,
    WithdrawalAdressesNotFound,
    NotExistingAccount,
    WithdrawalAdressesInternal,
    WithdrawalNotPendingAddress,
    WithdrawalNoPendingTx,
    WithdrawalValue,
    DepositAddressInternal,
}

/// The text that describes a violation.
pub open spec fn violation_message(v: InvariantViolation) -> Seq<char> {
    match v {
        InvariantViolation::WithdrawalAdressesCount => "blockchain transaction invariant violation - unexpected number of addresses"@,
        InvariantViolation::WithdrawalAdressesNotFound => "blockchain transaction invariant violation - address of transaction not found in our database"@,
        InvariantViolation::NotExistingAccount => "blockchain transaction invariant violation - transaction referred to non-existing account"@,
        InvariantViolation::WithdrawalAdressesInternal => "blockchain transaction invariant violation - withdrawal happened to internal account, which shouldn't be the case"@,
        InvariantViolation::WithdrawalNotPendingAddress => "blockchain transaction invariant violation - withdrawal transaction should be in pending state when blockchain tx arrives"@,
        InvariantViolation::WithdrawalNoPendingTx => "blockchain transaction invariant violation - withdrawal blockchain tx doesn't have corresponding pending part"@,
        InvariantViolation::WithdrawalValue => "blockchain transaction invariant violation - withdrawal blockchain tx value is not equal to pending tx value"@,
        InvariantViolation::DepositAddressInternal => "blockchain transaction invariant violation - deposit arrived from internal address"@,
    }
}

impl InvariantViolation {
    /// The text that describes the violation.
    pub fn message(&self) -> (r: String)
        ensures
            r@ == violation_message(*self),
    {
        broadcast use vstd::string::to_string_from_display_ensures_for_str;

        match self {
            InvariantViolation::WithdrawalAdressesCount => "blockchain transaction invariant violation - unexpected number of addresses".to_string(),
            InvariantViolation::WithdrawalAdressesNotFound => "blockchain transaction invariant violation - address of transaction not found in our database".to_string(),
            InvariantViolation::NotExistingAccount => "blockchain transaction invariant violation - transaction referred to non-existing account".to_string(),
            InvariantViolation::WithdrawalAdressesInternal => "blockchain transaction invariant violation - withdrawal happened to internal account, which shouldn't be the case".to_string(),
            InvariantViolation::WithdrawalNotPendingAddress => "blockchain transaction invariant violation - withdrawal transaction should be in pending state when blockchain tx arrives".to_string(),
            InvariantViolation::WithdrawalNoPendingTx => "blockchain transaction invariant violation - withdrawal blockchain tx doesn't have corresponding pending part".to_string(),
            InvariantViolation::WithdrawalValue => "blockchain transaction invariant violation - withdrawal blockchain tx value is not equal to pending tx value".to_string(),
            InvariantViolation::DepositAddressInternal => "blockchain transaction invariant violation - deposit arrived from internal address".to_string(),
        }
    }
}

/// The check of a deposit: it must not come from an address of the wallet.
pub open spec fn deposit_violation(accounts: Seq<Account>, from: Seq<String>, currency: Currency) -> Option<
    InvariantViolation,
> {
    if accounts.filter(at_one_of(from, currency, AccountKind::Dr)).len() > 0 {
        Some(InvariantViolation::DepositAddressInternal)
    } else {
        None
    }
}

/// The checks of a confirmed withdrawal `tx` against the (normalized)
/// blockchain transaction with senders `from` and outputs `to`: one sender
/// and one output, the ledger transaction still pending and its blockchain
/// transaction waiting, the sender being the address of the account that the
/// withdrawal drew from, and the receiver outside the wallet.
pub open spec fn withdrawal_violation(
    accounts: Seq<Account>,
    pending: Seq<crate::repos::PendingBlockchainTransaction>,
    tx: Transaction,
    hash: Seq<char>,
    from: Seq<String>,
    to: Seq<BlockchainTransactionEntryTo>,
    currency: Currency,
) -> Option<InvariantViolation> {
    if from.len() != 1 || to.len() != 1 {
        Some(InvariantViolation::WithdrawalAdressesCount)
    } else if tx.status != TransactionStatus::Pending {
        Some(InvariantViolation::WithdrawalNotPendingAddress)
    } else if first_match(pending, is_pending(hash)) is None {
        Some(InvariantViolation::WithdrawalNoPendingTx)
    } else {
        match first_match(accounts, has_account_id(tx.cr_account_id)) {
            None => Some(InvariantViolation::NotExistingAccount),
            Some(managed) => if managed.address@ != from[0]@ {
                Some(InvariantViolation::WithdrawalAdressesNotFound)
            } else if first_match(accounts, has_address(to[0].address@, currency, AccountKind::Dr)) is Some {
                Some(InvariantViolation::WithdrawalAdressesInternal)
            } else if first_match(accounts, has_address(to[0].address@, currency, AccountKind::Cr)) is Some {
                Some(InvariantViolation::WithdrawalAdressesInternal)
            } else {
                None
            },
        }
    }
}

/// The record kept of a handled blockchain transaction.
pub open spec fn seen_record(bt: BlockchainTransaction) -> SeenHash {
    SeenHash { hash: bt.hash, block_number: bt.block_number, currency: bt.currency }
}

/// The balance (in token units) above which a deposit account of the token
/// gets approved for transfers by the wallet: 500 tokens.
pub const STQ_BALANCE_THRESHOLD: u128 = 500_000_000_000_000_000_000u128;

/// The allowance that an approval grants: 100 billion tokens.
pub const STQ_ALLOWANCE: u128 = 100_000_000_000_000_000_000_000_000_000u128;

/// Nothing in the store changed.
pub open spec fn nothing_changed(old: Repos, new: Repos) -> bool {
    &&& new.users() == old.users()
    &&& new.accounts() == old.accounts()
    &&& new.transactions() == old.transactions()
    &&& new.seen_hashes() == old.seen_hashes()
    &&& new.pending() == old.pending()
    &&& new.blockchain_transactions() == old.blockchain_transactions()
    &&& new.strange() == old.strange()
}

/// Only the record that `bt` was handled was added.
pub open spec fn only_seen(old: Repos, new: Repos, bt: BlockchainTransaction) -> bool {
    &&& new.seen_hashes() == old.seen_hashes().push(seen_record(bt))
    &&& new.users() == old.users()
    &&& new.accounts() == old.accounts()
    &&& new.transactions() == old.transactions()
    &&& new.pending() == old.pending()
    &&& new.blockchain_transactions() == old.blockchain_transactions()
    &&& new.strange() == old.strange()
}

/// `bt` was recorded as breaking the invariant `v`, and as handled.
pub open spec fn violation_recorded(old: Repos, new: Repos, bt: BlockchainTransaction, v: InvariantViolation) -> bool {
    &&& new.strange().len() == old.strange().len() + 1
    &&& new.strange().drop_last() == old.strange()
    &&& new.strange().last().transaction.same_as(&bt)
    &&& new.strange().last().message@ == violation_message(v)
    &&& new.seen_hashes() == old.seen_hashes().push(seen_record(bt))
    &&& new.users() == old.users()
    &&& new.accounts() == old.accounts()
    &&& new.transactions() == old.transactions()
    &&& new.pending() == old.pending()
    &&& new.blockchain_transactions() == old.blockchain_transactions()
}

/// `bt` was appended to the accepted blockchain transactions.
pub open spec fn blockchain_tx_added(old: Repos, new: Repos, bt: BlockchainTransaction) -> bool {
    &&& new.blockchain_transactions().len() == old.blockchain_transactions().len() + 1
    &&& new.blockchain_transactions().drop_last() == old.blockchain_transactions()
    &&& new.blockchain_transactions().last().same_as(&bt)
}

/// The waiting blockchain transaction with this hash was removed.
pub open spec fn pending_removed(old: Repos, new: Repos, hash: Seq<char>) -> bool {
    exists|k: int|
        0 <= k < old.pending().len() && old.pending()[k] == first_match(old.pending(), is_pending(hash))->0
            && #[trigger] new.pending() == old.pending().remove(k)
}

/// A token approval of `id` was confirmed: the account is approved, `bt` is
/// accepted, no longer waiting, and handled.
pub open spec fn approval_recorded(old: Repos, new: Repos, bt: BlockchainTransaction, id: AccountId) -> bool {
    &&& new.accounts() == old.accounts().map_values(|a: Account| with_approval(a, id))
    &&& blockchain_tx_added(old, new, bt)
    &&& pending_removed(old, new, bt.hash@)
    &&& new.seen_hashes() == old.seen_hashes().push(seen_record(bt))
    &&& new.users() == old.users()
    &&& new.transactions() == old.transactions()
    &&& new.strange() == old.strange()
}

/// `t` is `u` but for its id.
pub open spec fn same_but_id(t: Transaction, u: Transaction) -> bool {
    t == Transaction { id: t.id, ..u }
}

/// `t` is `u` but for its id, which is also its group id.
pub open spec fn same_but_ids(t: Transaction, u: Transaction) -> bool {
    t == Transaction { id: t.id, gid: t.id, ..u }
}

/// The transaction that books the blockchain fee of a confirmed withdrawal
/// `tx` from the fees account back to the account the withdrawal drew from
/// (its id is the one the caller supplies).
pub open spec fn blockchain_fee_tx(bt: BlockchainTransaction, tx: Transaction, fees: Account, now: u64) -> Transaction {
    stored(
        NewTransaction {
            id: TransactionId(0),
            gid: tx.gid,
            user_id: tx.user_id,
            dr_account_id: fees.id,
            cr_account_id: tx.cr_account_id,
            currency: tx.currency,
            value: bt.fee,
            status: TransactionStatus::Done,
            blockchain_tx_id: None,
            kind: TransactionKind::BlockchainFee,
            group_kind: tx.group_kind,
            related_tx: None,
        },
        now,
    )
}

/// A withdrawal was confirmed: `bt` is accepted and no longer waiting, the
/// ledger transactions that carry its hash are done, its fee is booked, and
/// it is handled.
pub open spec fn withdrawal_confirmed(
    old: Repos,
    new: Repos,
    bt: BlockchainTransaction,
    tx: Transaction,
    fees: Account,
    now: u64,
) -> bool {
    &&& blockchain_tx_added(old, new, bt)
    &&& pending_removed(old, new, bt.hash@)
    &&& new.transactions().len() == old.transactions().len() + 1
    &&& new.transactions().drop_last() == old.transactions().map_values(
        |t: Transaction| with_status(t, bt.hash@, TransactionStatus::Done, now),
    )
    &&& same_but_id(new.transactions().last(), blockchain_fee_tx(bt, tx, fees, now))
    &&& new.seen_hashes() == old.seen_hashes().push(seen_record(bt))
    &&& new.users() == old.users()
    &&& new.accounts() == old.accounts()
    &&& new.strange() == old.strange()
}

/// Whether a deposit account is a token account still to be approved.
pub open spec fn needs_approval(a: Account) -> bool {
    a.currency == Currency::Stq && !a.erc20_approved
}

/// The deposit that `bt` makes to the debit account `dr`: from `dr` to the
/// credit account at the same address, the value of the first output to its
/// address, done (its id, also its group id, is the one the caller supplies).
pub open spec fn deposit_tx(accounts: Seq<Account>, bt: BlockchainTransaction, dr: Account, now: u64) -> Transaction {
    stored(
        NewTransaction {
            id: TransactionId(0),
            gid: TransactionId(0),
            user_id: dr.user_id,
            dr_account_id: dr.id,
            cr_account_id: first_match(accounts, has_address(dr.address@, dr.currency, AccountKind::Cr))->0.id,
            currency: dr.currency,
            value: first_match(bt.to@, output_at(dr.address@))->0.value,
            status: TransactionStatus::Done,
            blockchain_tx_id: Some(bt.hash),
            kind: TransactionKind::Deposit,
            group_kind: TransactionGroupKind::Deposit,
            related_tx: None,
        },
        now,
    )
}

/// The deposits of `bt` to the accounts `matched`, in order.
pub open spec fn deposit_txs(accounts: Seq<Account>, bt: BlockchainTransaction, matched: Seq<Account>, now: u64) -> Seq<
    Transaction,
> {
    Seq::new(matched.len(), |j: int| deposit_tx(accounts, bt, matched[j], now))
}

/// The accounts among the first `k` of `matched` that reach the approval
/// threshold with their deposit: token accounts still to be approved whose
/// balance, once the deposits up to theirs are booked, is at least the threshold.
pub open spec fn approvals_upto(txs: Seq<Transaction>, deposits: Seq<Transaction>, matched: Seq<Account>, k: int) -> Seq<
    Account,
>
    decreases k,
{
    if k <= 0 {
        Seq::empty()
    } else {
        let prev = approvals_upto(txs, deposits, matched, k - 1);
        let a = matched[k - 1];
        if needs_approval(a) && balance_of(txs + deposits.take(k), a.id, AccountKind::Dr)
            >= STQ_BALANCE_THRESHOLD as int {
            prev.push(a)
        } else {
            prev
        }
    }
}

/// Whether the `j`-th deposit fails once the deposits before it are booked:
/// the ledger's constraint refuses it, or its account is still to be approved
/// and its balance cannot be computed after it.
pub open spec fn deposit_fails_at(
    accounts: Seq<Account>,
    txs: Seq<Transaction>,
    deposits: Seq<Transaction>,
    matched: Seq<Account>,
    j: int,
) -> bool {
    ||| !booking_allowed(
        accounts,
        txs + deposits.take(j),
        deposits[j].dr_account_id,
        deposits[j].cr_account_id,
        deposits[j].value,
    )
    ||| needs_approval(matched[j]) && !balance_reportable(txs + deposits.take(j + 1), matched[j].id, AccountKind::Dr)
}

/// Whether one of the first `k` deposits fails (see `deposit_fails_at`).
pub open spec fn deposit_fails_upto(
    accounts: Seq<Account>,
    txs: Seq<Transaction>,
    deposits: Seq<Transaction>,
    matched: Seq<Account>,
    k: int,
) -> bool {
    exists|j: int| 0 <= j < k && #[trigger] deposit_fails_at(accounts, txs, deposits, matched, j)
}

/// The first `k` deposits to `matched` are booked, each with `bt` accepted
/// and recorded as handled.
pub open spec fn deposits_recorded(old: Repos, new: Repos, bt: BlockchainTransaction, deposits: Seq<Transaction>, k: int) -> bool {
    let n = old.transactions().len();
    let b = old.blockchain_transactions().len();
    let s = old.seen_hashes().len();
    &&& new.transactions().len() == n + k
    &&& new.transactions().take(n as int) == old.transactions()
    &&& forall|j: int| 0 <= j < k ==> same_but_ids(#[trigger] new.transactions()[n + j], deposits[j])
    &&& new.blockchain_transactions().len() == b + k
    &&& new.blockchain_transactions().take(b as int) == old.blockchain_transactions()
    &&& forall|j: int| 0 <= j < k ==> (#[trigger] new.blockchain_transactions()[b + j]).same_as(&bt)
    &&& new.seen_hashes().len() == s + k
    &&& new.seen_hashes().take(s as int) == old.seen_hashes()
    &&& forall|j: int| 0 <= j < k ==> #[trigger] new.seen_hashes()[s + j] == seen_record(bt)
    &&& new.users() == old.users()
    &&& new.accounts() == old.accounts()
    &&& new.pending() == old.pending()
    &&& new.strange() == old.strange()
}

/// The outcome of booking the deposits of `bt` to `matched`: refused, with
/// nothing changed, when a balance that the approval check needs cannot be
/// computed; otherwise all deposits are booked and the accounts that reach
/// the approval threshold are returned.
pub open spec fn deposits_outcome(
    old: Repos,
    new: Repos,
    bt: BlockchainTransaction,
    matched: Seq<Account>,
    now: u64,
    r: Result<Seq<Account>, ErrorView>,
) -> bool {
    let deposits = deposit_txs(old.accounts(), bt, matched, now);
    if deposit_fails_upto(old.accounts(), old.transactions(), deposits, matched, matched.len() as int) {
        r == Err::<Seq<Account>, ErrorView>(failure(ErrorKindView::Internal, ErrorContext::BalanceOverflow))
            && nothing_changed(old, new)
    } else {
        r == Ok::<Seq<Account>, ErrorView>(approvals_upto(old.transactions(), deposits, matched, matched.len() as int))
            && deposits_recorded(old, new, bt, deposits, matched.len() as int)
    }
}

/// A result whose value is a vector, seen as contracts speak of it.
pub open spec fn vec_view<T>(r: Result<Vec<T>, Error>) -> Result<Seq<T>, ErrorView> {
    match r {
        Ok(v) => Ok(v@),
        Err(e) => Err(e@),
    }
}

/// The outcome of handling `bt` when it is neither handled already nor an
/// approval of a known account, and no ledger transaction carries its hash:
/// a deposit to the debit accounts at its receiving addresses. With no such
/// account it is only marked as handled; sent from an address of the wallet
/// it is recorded as a violation.
pub open spec fn deposit_path_outcome(
    old: Repos,
    new: Repos,
    bt: BlockchainTransaction,
    senders: Seq<String>,
    outputs: Seq<BlockchainTransactionEntryTo>,
    now: u64,
    r: Result<Seq<Account>, ErrorView>,
) -> bool {
    let addresses = outputs.map_values(|e: BlockchainTransactionEntryTo| e.address);
    let matched = old.accounts().filter(at_one_of(addresses, bt.currency, AccountKind::Dr));
    if matched.len() == 0 {
        r == Ok::<Seq<Account>, ErrorView>(Seq::empty()) && only_seen(old, new, bt)
    } else {
        match deposit_violation(old.accounts(), senders, bt.currency) {
            Some(v) => r == Ok::<Seq<Account>, ErrorView>(Seq::empty()) && violation_recorded(old, new, bt, v),
            None => deposits_outcome(old, new, bt, matched, now, r),
        }
    }
}

/// Whether handling `bt` on the store `s` comes to booking deposits: its
/// outputs can be merged, it was not handled yet, it is no token approval
/// that is refused or confirms a known account, no ledger transaction carries
/// its hash, some debit account receives from it and no sender is an address
/// of the wallet. Only then are the credit sides of the receivers looked up.
pub open spec fn reaches_deposits(s: Repos, bt: BlockchainTransaction) -> bool {
    match merge_outputs(bt.to@) {
        None => false,
        Some(outputs) => {
            let approve = bt.erc20_operation_kind == Some(Erc20OperationKind::Approve);
            let addresses = outputs.map_values(|e: BlockchainTransactionEntryTo| e.address);
            &&& first_match(s.seen_hashes(), is_seen(bt.hash@, bt.currency)) is None
            &&& !(approve && (bt.currency != Currency::Stq || bt.from.len() == 0 || first_match(
                s.accounts(),
                has_address(bt.from@[0]@, Currency::Stq, AccountKind::Dr),
            ) is Some))
            &&& first_match(s.transactions(), has_blockchain_tx(bt.hash@)) is None
            &&& s.accounts().filter(at_one_of(addresses, bt.currency, AccountKind::Dr)).len() > 0
            &&& deposit_violation(s.accounts(), unique_addresses(bt.from@), bt.currency) is None
        },
    }
}

/// The debit accounts at the receiving addresses of a deposit have an output
/// of the deposit and a credit account at the same address.
proof fn lemma_matched_deposit_accounts(
    accounts: Seq<Account>,
    bt: BlockchainTransaction,
    outputs: Seq<BlockchainTransactionEntryTo>,
)
    requires
        receivers_paired(accounts, bt.to@, bt.currency),
        merge_outputs(bt.to@) == Some(outputs),
    ensures
        ({
            let matched = accounts.filter(
                at_one_of(outputs.map_values(|e: BlockchainTransactionEntryTo| e.address), bt.currency, AccountKind::Dr),
            );
            forall|k: int|
                0 <= k < matched.len() ==> (#[trigger] matched[k]).kind == AccountKind::Dr && has_output_to(
                    bt.to@,
                    matched[k].address@,
                ) && exists|j: int|
                    0 <= j < accounts.len() && #[trigger] has_address(
                        matched[k].address@,
                        matched[k].currency,
                        AccountKind::Cr,
                    )(accounts[j])
        }),
{
    let addresses = outputs.map_values(|e: BlockchainTransactionEntryTo| e.address);
    let p = at_one_of(addresses, bt.currency, AccountKind::Dr);
    let matched = accounts.filter(p);
    assert forall|k: int| 0 <= k < matched.len() implies (#[trigger] matched[k]).kind == AccountKind::Dr
        && has_output_to(bt.to@, matched[k].address@) && exists|j: int|
        0 <= j < accounts.len() && #[trigger] has_address(
            matched[k].address@,
            matched[k].currency,
            AccountKind::Cr,
        )(accounts[j]) by {
        accounts.lemma_filter_pred(p, k);
        let a = matched[k];
        let w = choose|w: int| 0 <= w < addresses.len() && (#[trigger] addresses[w])@ == a.address@;
        assert(outputs[w].address@ == a.address@);
        assert(has_output_to(outputs, a.address@));
        lemma_merged_address_occurs(bt.to@, a.address@);
        assert(matched.contains(a));
        accounts.lemma_filter_contains_rev(p, a);
        let i = choose|i: int| 0 <= i < accounts.len() && accounts[i] == a;
        assert(accounts[i].kind == AccountKind::Dr && accounts[i].currency == bt.currency);
    }
}

/// An approval of token transfers to sign and send: `address` lets
/// `approve_address` transfer up to `value` of its tokens.
#[derive(Debug)]
pub struct ApproveInput {
    pub id: TransactionId,
    pub address: String,
    pub approve_address: String,
    pub currency: Currency,
    pub value: Amount,
    pub fee_price: Amount,
    pub nonce: u64,
}

/// An approval of token transfers being prepared for `account`: the ether
/// fees account (credit and debit sides) pays the gas of the approval.
#[derive(Debug)]
pub struct Erc20Approval {
    pub account: Account,
    pub fees_cr: Account,
    pub fees_dr: Account,
}

/// The ledger transaction that books the ether sent to an account to pay for
/// its approval: from the ether fees account to its debit side, pending.
pub open spec fn approval_transfer_tx(approval: Erc20Approval, order: CreateBlockchainTx, hash: String, now: u64) -> Transaction {
    stored(
        NewTransaction {
            id: order.id,
            gid: order.id,
            user_id: approval.account.user_id,
            dr_account_id: approval.fees_cr.id,
            cr_account_id: approval.fees_dr.id,
            currency: Currency::Eth,
            value: order.value,
            status: TransactionStatus::Pending,
            blockchain_tx_id: Some(hash),
            kind: TransactionKind::ApprovalTransfer,
            group_kind: TransactionGroupKind::Approval,
            related_tx: None,
        },
        now,
    )
}

/// Handles the transactions that the blockchain gateway reports.
#[derive(Clone, Copy, Debug)]
pub struct BlockchainFetcher {
    pub system: SystemServiceImpl,
    /// Gas price of the ether transfers that pay for token approvals.
    pub approve_gas_price: u64,
    /// Gas limit of a token approval.
    pub approve_gas_limit: u64,
}

impl BlockchainFetcher {
    /// The outcome of handling `bt` when a ledger transaction `tx` carries its
    /// hash, which makes it a withdrawal of the wallet: left for later while it
    /// has fewer confirmations than its value needs; recorded as a violation
    /// when it breaks an invariant; otherwise confirmed.
    pub open spec fn withdrawal_outcome(
        self,
        old: Repos,
        new: Repos,
        bt: BlockchainTransaction,
        senders: Seq<String>,
        outputs: Seq<BlockchainTransactionEntryTo>,
        tx: Transaction,
        now: u64,
        r: Result<Seq<Account>, ErrorView>,
    ) -> bool {
        if outputs_sum(outputs) > u128::MAX {
            r == Err::<Seq<Account>, ErrorView>(failure(ErrorKindView::Internal, ErrorContext::BalanceOverflow))
                && nothing_changed(old, new)
        } else if confirmations_needed(bt.currency, outputs_sum(outputs)) > bt.confirmations {
            r == Ok::<Seq<Account>, ErrorView>(Seq::empty()) && nothing_changed(old, new)
        } else {
            match withdrawal_violation(old.accounts(), old.pending(), tx, bt.hash@, senders, outputs, bt.currency) {
                Some(v) => r == Ok::<Seq<Account>, ErrorView>(Seq::empty()) && violation_recorded(old, new, bt, v),
                None => match system_account(old, self.system.ids.fees_id(bt.currency)) {
                    Err(e) => r == Err::<Seq<Account>, ErrorView>(e@) && nothing_changed(old, new),
                    Ok(fees) => if !booking_allowed(old.accounts(), old.transactions(), fees.id, tx.cr_account_id, bt.fee) {
                        r == Err::<Seq<Account>, ErrorView>(failure(ErrorKindView::Internal, ErrorContext::BalanceOverflow))
                            && nothing_changed(old, new)
                    } else {
                        r == Ok::<Seq<Account>, ErrorView>(Seq::empty()) && withdrawal_confirmed(
                            old,
                            new,
                            bt,
                            tx,
                            fees,
                            now,
                        )
                    },
                },
            }
        }
    }

    /// The outcome of handling the reported transaction `bt` on the store
    /// `old`, giving `new` and the result `r`. A transaction whose outputs
    /// overflow is refused; one already handled (same hash and currency) is
    /// skipped. A token approval from a known debit account confirms that
    /// approval. Otherwise a transaction whose hash a ledger transaction
    /// carries is a withdrawal, and any other a deposit. A refused transaction
    /// changes nothing.
    pub open spec fn handle_outcome(
        self,
        old: Repos,
        new: Repos,
        bt: BlockchainTransaction,
        now: u64,
        r: Result<Seq<Account>, ErrorView>,
    ) -> bool {
        match merge_outputs(bt.to@) {
            None => r == Err::<Seq<Account>, ErrorView>(failure(ErrorKindView::Internal, ErrorContext::BalanceOverflow))
                && nothing_changed(old, new),
            Some(outputs) => {
                let senders = unique_addresses(bt.from@);
                let approve = bt.erc20_operation_kind == Some(Erc20OperationKind::Approve);
                if first_match(old.seen_hashes(), is_seen(bt.hash@, bt.currency)) is Some {
                    r == Ok::<Seq<Account>, ErrorView>(Seq::empty()) && nothing_changed(old, new)
                } else if approve && bt.currency != Currency::Stq {
                    r == Err::<Seq<Account>, ErrorView>(failure(ErrorKindView::Internal, ErrorContext::InvalidCurrency))
                        && nothing_changed(old, new)
                } else if approve && bt.from.len() == 0 {
                    r == Err::<Seq<Account>, ErrorView>(
                        failure(ErrorKindView::Internal, ErrorContext::InvalidBlockchainTransactionStructure),
                    ) && nothing_changed(old, new)
                } else if approve && first_match(
                    old.accounts(),
                    has_address(bt.from@[0]@, Currency::Stq, AccountKind::Dr),
                ) is Some {
                    let account = first_match(old.accounts(), has_address(bt.from@[0]@, Currency::Stq, AccountKind::Dr))->0;
                    if account.erc20_approved {
                        r == Ok::<Seq<Account>, ErrorView>(Seq::empty()) && nothing_changed(old, new)
                    } else if first_match(old.pending(), is_pending(bt.hash@)) is None {
                        r == Err::<Seq<Account>, ErrorView>(ErrorView { kind: ErrorKindView::Internal, context: None })
                            && nothing_changed(old, new)
                    } else {
                        r == Ok::<Seq<Account>, ErrorView>(Seq::empty()) && approval_recorded(old, new, bt, account.id)
                    }
                } else {
                    match first_match(old.transactions(), has_blockchain_tx(bt.hash@)) {
                        Some(tx) => self.withdrawal_outcome(old, new, bt, senders, outputs, tx, now, r),
                        None => deposit_path_outcome(old, new, bt, senders, outputs, now, r),
                    }
                }
            },
        }
    }

    /// A reported transaction whose handling changed the store is never
    /// handled again: a later report with the same hash and currency (whose
    /// outputs can be merged) is skipped and changes nothing.
    pub proof fn law_handled_once(
        self,
        s0: Repos,
        s1: Repos,
        s2: Repos,
        bt: BlockchainTransaction,
        again: BlockchainTransaction,
        now1: u64,
        now2: u64,
        r1: Result<Seq<Account>, ErrorView>,
        r2: Result<Seq<Account>, ErrorView>,
    )
        requires
            self.handle_outcome(s0, s1, bt, now1, r1),
            r1 is Ok,
            !nothing_changed(s0, s1),
            again.hash@ == bt.hash@,
            again.currency == bt.currency,
            merge_outputs(again.to@) is Some,
            self.handle_outcome(s1, s2, again, now2, r2),
        ensures
            r2 == Ok::<Seq<Account>, ErrorView>(Seq::empty()),
            nothing_changed(s1, s2),
    {
        let k = s0.seen_hashes().len() as int;
        let outputs = merge_outputs(bt.to@)->0;
        let addresses = outputs.map_values(|e: BlockchainTransactionEntryTo| e.address);
        let matched = s0.accounts().filter(at_one_of(addresses, bt.currency, AccountKind::Dr));
        if first_match(s0.transactions(), has_blockchain_tx(bt.hash@)) is None && matched.len() > 0
            && deposit_violation(s0.accounts(), unique_addresses(bt.from@), bt.currency) is None {
            assert(s1.seen_hashes()[k + 0] == seen_record(bt));
        }
        assert(s1.seen_hashes()[k] == seen_record(bt));
        assert(is_seen(again.hash@, again.currency)(s1.seen_hashes()[k]));
        lemma_first_match_some(s1.seen_hashes(), is_seen(again.hash@, again.currency));
    }

    /// A refused report changes nothing in the store.
    pub proof fn law_refused_report_changes_nothing(
        self,
        s0: Repos,
        s1: Repos,
        bt: BlockchainTransaction,
        now: u64,
        r: Result<Seq<Account>, ErrorView>,
    )
        requires
            self.handle_outcome(s0, s1, bt, now, r),
            r is Err,
        ensures
            nothing_changed(s0, s1),
    {
    }

    pub fn new(system: SystemServiceImpl, approve_gas_price: u64, approve_gas_limit: u64) -> (r: Self)
        ensures
            r.system == system,
            r.approve_gas_price == approve_gas_price,
            r.approve_gas_limit == approve_gas_limit,
    {
        BlockchainFetcher { system, approve_gas_price, approve_gas_limit }
    }

    /// Checks a deposit: `Some` when it comes from an address of the wallet.
    fn verify_deposit_tx(&self, repos: &Repos, normalized: &BlockchainTransaction) -> (r: Option<InvariantViolation>)
        ensures
            r == deposit_violation(repos.accounts(), normalized.from@, normalized.currency),
    {
        let from_accounts = repos.get_by_addresses(&normalized.from, normalized.currency, AccountKind::Dr);
        if from_accounts.len() > 0 {
            return Some(InvariantViolation::DepositAddressInternal);
        }
        None
    }

    /// Checks a confirmed withdrawal (see `withdrawal_violation`).
    fn verify_withdrawal_tx(&self, repos: &Repos, tx: &Transaction, normalized: &BlockchainTransaction) -> (r: Option<
        InvariantViolation,
    >)
        ensures
            r == withdrawal_violation(
                repos.accounts(),
                repos.pending(),
                *tx,
                normalized.hash@,
                normalized.from@,
                normalized.to@,
                normalized.currency,
            ),
    {
        if normalized.from.len() != 1 || normalized.to.len() != 1 {
            return Some(InvariantViolation::WithdrawalAdressesCount);
        }
        if tx.status != TransactionStatus::Pending {
            return Some(InvariantViolation::WithdrawalNotPendingAddress);
        }
        if repos.get_pending(&normalized.hash).is_none() {
            return Some(InvariantViolation::WithdrawalNoPendingTx);
        }
        let from_address = &normalized.from[0];
        let to_address = &normalized.to[0].address;
        match repos.get_account(tx.cr_account_id) {
            Some(managed) => {
                if managed.address != *from_address {
                    return Some(InvariantViolation::WithdrawalAdressesNotFound);
                }
            },
            None => {
                return Some(InvariantViolation::NotExistingAccount);
            },
        }
        if repos.get_account_by_address(to_address, normalized.currency, AccountKind::Dr).is_some() {
            return Some(InvariantViolation::WithdrawalAdressesInternal);
        }
        if repos.get_account_by_address(to_address, normalized.currency, AccountKind::Cr).is_some() {
            return Some(InvariantViolation::WithdrawalAdressesInternal);
        }
        None
    }

    /// Records a transaction that breaks an invariant, with the reason, and
    /// marks it as handled.
    fn handle_violation(&self, repos: &mut Repos, violation: InvariantViolation, blockchain_tx: &BlockchainTransaction)
        ensures
            final(repos).strange().len() == old(repos).strange().len() + 1,
            final(repos).strange().drop_last() == old(repos).strange(),
            final(repos).strange().last().transaction.same_as(blockchain_tx),
            final(repos).strange().last().message@ == violation_message(violation),
            final(repos).seen_hashes() == old(repos).seen_hashes().push(seen_record(*blockchain_tx)),
            final(repos).transactions() == old(repos).transactions(),
            final(repos).users() == old(repos).users(),
            final(repos).accounts() == old(repos).accounts(),
            final(repos).pending() == old(repos).pending(),
            final(repos).blockchain_transactions() == old(repos).blockchain_transactions(),
    {
        let message = violation.message();
        repos.create_strange(StrangeBlockchainTransaction { transaction: blockchain_tx.clone(), message });
        repos.create_seen_hash(
            SeenHash {
                hash: blockchain_tx.hash.clone(),
                block_number: blockchain_tx.block_number,
                currency: blockchain_tx.currency,
            },
        );
    }

    /// Confirms a token approval sent for `account`: unless the account is
    /// approved already, marks it approved, accepts `bt`, removes it from the
    /// waiting transactions (a storage failure when it is not there) and
    /// marks it as handled.
    fn handle_approval(&self, repos: &mut Repos, blockchain_tx: &BlockchainTransaction, account: &Account) -> (r: Result<
        (),
        Error,
    >)
        ensures
            account.erc20_approved ==> r is Ok && nothing_changed(*old(repos), *final(repos)),
            !account.erc20_approved ==> match first_match(old(repos).pending(), is_pending(blockchain_tx.hash@)) {
                None => r == Err::<(), Error>(Error { kind: ErrorKind::Internal, context: None }) && nothing_changed(
                    *old(repos),
                    *final(repos),
                ),
                Some(_) => r is Ok && approval_recorded(*old(repos), *final(repos), *blockchain_tx, account.id),
            },
    {
        if account.erc20_approved {
            return Ok(());
        }
        match repos.delete_pending(&blockchain_tx.hash) {
            Ok(_) => {},
            Err(e) => {
                return Err(e);
            },
        }
        repos.set_erc20_approved(account.id);
        repos.create_blockchain_tx(blockchain_tx.clone());
        repos.create_seen_hash(
            SeenHash {
                hash: blockchain_tx.hash.clone(),
                block_number: blockchain_tx.block_number,
                currency: blockchain_tx.currency,
            },
        );
        proof {
            assert(repos.blockchain_transactions().drop_last() =~= old(repos).blockchain_transactions());
        }
        Ok(())
    }

    /// Confirms the withdrawal `tx` that `bt` carried out: accepts `bt`,
    /// removes it from the waiting transactions, marks the ledger transactions
    /// with its hash as done, books its blockchain fee and marks it as handled.
    fn confirm_withdrawal(
        &self,
        repos: &mut Repos,
        blockchain_tx: &BlockchainTransaction,
        tx: &Transaction,
        fee_id: u128,
        now: u64,
    ) -> (r:
        Result<(), Error>)
        requires
            first_match(old(repos).pending(), is_pending(blockchain_tx.hash@)) is Some,
        ensures
            match crate::system::system_account(*old(repos), self.system.ids.fees_id(blockchain_tx.currency)) {
                Err(e) => r == Err::<(), Error>(e) && nothing_changed(*old(repos), *final(repos)),
                Ok(fees) => if !booking_allowed(
                    old(repos).accounts(),
                    old(repos).transactions(),
                    fees.id,
                    tx.cr_account_id,
                    blockchain_tx.fee,
                ) {
                    r == Err::<(), Error>(Error::of(ErrorKind::Internal, ErrorContext::BalanceOverflow))
                        && nothing_changed(*old(repos), *final(repos))
                } else {
                    r is Ok && withdrawal_confirmed(*old(repos), *final(repos), *blockchain_tx, *tx, fees, now)
                        && final(repos).transactions().last().id == TransactionId(fee_id)
                },
            },
    {
        let fees_account = match self.system.get_system_fees_account(repos, blockchain_tx.currency) {
            Ok(a) => a,
            Err(e) => {
                return Err(e);
            },
        };
        if !repos.allows_booking(fees_account.id, tx.cr_account_id, blockchain_tx.fee) {
            return Err(Error { kind: ErrorKind::Internal, context: Some(ErrorContext::BalanceOverflow) });
        }
        let ghost r0 = *repos;
        match repos.delete_pending(&blockchain_tx.hash) {
            Ok(_) => {},
            Err(e) => {
                return Err(e);
            },
        }
        repos.create_blockchain_tx(blockchain_tx.clone());
        repos.update_status(&blockchain_tx.hash, TransactionStatus::Done, now);
        let fee_tx = NewTransaction {
            id: TransactionId(fee_id),
            gid: tx.gid,
            user_id: tx.user_id,
            dr_account_id: fees_account.id,
            cr_account_id: tx.cr_account_id,
            currency: tx.currency,
            value: blockchain_tx.fee,
            status: TransactionStatus::Done,
            blockchain_tx_id: None,
            kind: TransactionKind::BlockchainFee,
            group_kind: tx.group_kind,
            related_tx: None,
        };
        let ghost before_fee = repos.transactions();
        proof {
            assert forall|k: int| 0 <= k < r0.transactions().len() implies (#[trigger] r0.transactions()[k]).dr_account_id
                == before_fee[k].dr_account_id && r0.transactions()[k].cr_account_id == before_fee[k].cr_account_id
                && r0.transactions()[k].value == before_fee[k].value by {}
            lemma_booking_allowed_same_flows(
                r0.accounts(),
                r0.transactions(),
                before_fee,
                fees_account.id,
                tx.cr_account_id,
                blockchain_tx.fee,
            );
        }
        match repos.create_transaction(fee_tx, now) {
            Ok(_) => {},
            Err(e) => {
                return Err(e);
            },
        }
        proof {
            assert(repos.transactions().drop_last() =~= before_fee);
        }
        repos.create_seen_hash(
            SeenHash {
                hash: blockchain_tx.hash.clone(),
                block_number: blockchain_tx.block_number,
                currency: blockchain_tx.currency,
            },
        );
        proof {
            assert(repos.blockchain_transactions().drop_last() =~= r0.blockchain_transactions());
        }
        Ok(())
    }

    /// Books the deposits that `bt` makes to the debit accounts `matched`, in
    /// order (see `deposits_outcome`); returns the token accounts that reach
    /// the approval threshold.
    fn record_deposits(
        &self,
        repos: &mut Repos,
        blockchain_tx: &BlockchainTransaction,
        matched: &Vec<Account>,
        fresh_ids: &Vec<u128>,
        now: u64,
    ) -> (r: Result<Vec<Account>, Error>)
        requires
            matched@.len() <= fresh_ids@.len(),
            forall|k: int|
                0 <= k < matched@.len() ==> (#[trigger] matched@[k]).kind == AccountKind::Dr && has_output_to(
                    blockchain_tx.to@,
                    matched@[k].address@,
                ) && exists|j: int|
                    0 <= j < old(repos).accounts().len() && #[trigger] has_address(
                        matched@[k].address@,
                        matched@[k].currency,
                        AccountKind::Cr,
                    )(old(repos).accounts()[j]),
        ensures
            deposits_outcome(*old(repos), *final(repos), *blockchain_tx, matched@, now, vec_view(r)),
            forall|k: int|
                0 <= k < final(repos).transactions().len() - old(repos).transactions().len() ==> (
                #[trigger] final(repos).transactions()[old(repos).transactions().len() + k]).id == TransactionId(
                    fresh_ids@[k],
                ),
    {
        let ghost o = *repos;
        let ghost deposits = deposit_txs(o.accounts(), *blockchain_tx, matched@, now);
        let t0 = repos.transactions_len();
        let s0 = repos.seen_hashes_len();
        let b0 = repos.blockchain_transactions_len();
        let mut approvals: Vec<Account> = Vec::new();
        let mut k: usize = 0;
        proof {
            assert(o.transactions().take(t0 as int) =~= o.transactions());
            assert(o.seen_hashes().take(s0 as int) =~= o.seen_hashes());
            assert(o.blockchain_transactions().take(b0 as int) =~= o.blockchain_transactions());
        }
        while k < matched.len()
            invariant
                0 <= k <= matched@.len(),
                matched@.len() <= fresh_ids@.len(),
                o == *old(repos),
                forall|j: int| 0 <= j < k ==> (#[trigger] repos.transactions()[t0 + j]).id == TransactionId(fresh_ids@[j]),
                deposits == deposit_txs(o.accounts(), *blockchain_tx, matched@, now),
                t0 == o.transactions().len(),
                s0 == o.seen_hashes().len(),
                b0 == o.blockchain_transactions().len(),
                forall|k: int|
                    0 <= k < matched@.len() ==> (#[trigger] matched@[k]).kind == AccountKind::Dr && has_output_to(
                        blockchain_tx.to@,
                        matched@[k].address@,
                    ) && exists|j: int|
                        0 <= j < o.accounts().len() && #[trigger] has_address(
                            matched@[k].address@,
                            matched@[k].currency,
                            AccountKind::Cr,
                        )(o.accounts()[j]),
                deposits_recorded(o, *repos, *blockchain_tx, deposits, k as int),
                !deposit_fails_upto(o.accounts(), o.transactions(), deposits, matched@, k as int),
                approvals@ == approvals_upto(o.transactions(), deposits, matched@, k as int),
            decreases matched.len() - k,
        {
            let dr = &matched[k];
            let value = output_value_at(&blockchain_tx.to, &dr.address);
            let cr = match repos.get_account_by_address(&dr.address, dr.currency, AccountKind::Cr) {
                Some(c) => c,
                None => {
                    proof {
                        let p = has_address(dr.address@, dr.currency, AccountKind::Cr);
                        lemma_first_match_some(o.accounts(), p);
                        let j = choose|j: int| 0 <= j < o.accounts().len() && #[trigger] p(o.accounts()[j]);
                        assert(p(o.accounts()[j]));
                    }
                    return Err(Error { kind: ErrorKind::Internal, context: None });
                },
            };
            let id = TransactionId(fresh_ids[k]);
            let new_tx = NewTransaction {
                id,
                gid: id,
                user_id: dr.user_id,
                dr_account_id: dr.id,
                cr_account_id: cr.id,
                currency: dr.currency,
                value,
                status: TransactionStatus::Done,
                blockchain_tx_id: Some(blockchain_tx.hash.clone()),
                kind: TransactionKind::Deposit,
                group_kind: TransactionGroupKind::Deposit,
                related_tx: None,
            };
            let ghost before = *repos;
            proof {
                assert(deposits[k as int] == deposit_tx(o.accounts(), *blockchain_tx, matched@[k as int], now));
                let actual = before.transactions();
                let expected = o.transactions() + deposits.take(k as int);
                assert(actual.len() == expected.len());
                assert forall|x: int| 0 <= x < actual.len() implies (#[trigger] actual[x]).dr_account_id
                    == expected[x].dr_account_id && actual[x].cr_account_id == expected[x].cr_account_id
                    && actual[x].value == expected[x].value by {
                    if x < t0 {
                        assert(actual[x] == actual.take(t0 as int)[x]);
                    } else {
                        assert(same_but_ids(actual[t0 + (x - t0)], deposits[x - t0]));
                    }
                }
                lemma_booking_allowed_same_flows(o.accounts(), actual, expected, dr.id, cr.id, value);
            }
            let t = match repos.create_transaction(new_tx, now) {
                Ok(t) => t,
                Err(e) => {
                    let ghost current = *repos;
                    repos.truncate_records(t0, s0, b0);
                    proof {
                        assert(deposit_fails_at(o.accounts(), o.transactions(), deposits, matched@, k as int));
                        assert(repos.transactions() =~= o.transactions());
                        assert(repos.seen_hashes() =~= o.seen_hashes());
                        assert(repos.blockchain_transactions() =~= o.blockchain_transactions());
                    }
                    return Err(e);
                },
            };
            repos.create_blockchain_tx(blockchain_tx.clone());
            proof {
                assert(same_but_ids(t, deposits[k as int]));
                assert(repos.transactions()[t0 + k] == t);
                assert forall|j: int| 0 <= j < k + 1 implies same_but_ids(
                    #[trigger] repos.transactions()[t0 + j],
                    deposits[j],
                ) by {
                    if j < k {
                        assert(repos.transactions()[t0 + j] == before.transactions()[t0 + j]);
                    }
                }
                assert(repos.transactions().take(t0 as int) =~= o.transactions());
                assert(repos.blockchain_transactions().take(b0 as int) =~= o.blockchain_transactions());
                assert forall|j: int| 0 <= j < k + 1 implies (#[trigger] repos.blockchain_transactions()[b0 + j]).same_as(
                    blockchain_tx,
                ) by {
                    if j < k {
                        assert(repos.blockchain_transactions()[b0 + j] == before.blockchain_transactions()[b0 + j]);
                    }
                }
            }
            if dr.currency == Currency::Stq && !dr.erc20_approved {
                proof {
                    let actual = repos.transactions();
                    let expected = o.transactions() + deposits.take(k + 1);
                    assert(actual.len() == expected.len());
                    assert forall|x: int| 0 <= x < actual.len() implies (#[trigger] actual[x]).dr_account_id
                        == expected[x].dr_account_id && actual[x].cr_account_id == expected[x].cr_account_id
                        && actual[x].value == expected[x].value by {
                        if x < t0 {
                            assert(actual[x] == actual.take(t0 as int)[x]);
                        } else {
                            assert(same_but_ids(actual[t0 + (x - t0)], deposits[x - t0]));
                        }
                    }
                    lemma_turnover_same_flows(actual, expected, dr.id);
                }
                match repos.account_balance(dr.id, dr.kind) {
                    Ok(b) => {
                        if b.0 >= STQ_BALANCE_THRESHOLD {
                            approvals.push(dr.clone());
                        }
                    },
                    Err(e) => {
                        let ghost current = *repos;
                        repos.truncate_records(t0, s0, b0);
                        proof {
                            assert(!balance_reportable(
                                o.transactions() + deposits.take(k + 1),
                                matched@[k as int].id,
                                AccountKind::Dr,
                            ));
                            assert(deposit_fails_at(o.accounts(), o.transactions(), deposits, matched@, k as int));
                            assert(repos.transactions() =~= o.transactions());
                            assert(repos.seen_hashes() =~= o.seen_hashes());
                            assert(repos.blockchain_transactions() =~= o.blockchain_transactions());
                        }
                        return Err(e);
                    },
                }
            }
            let ghost before_seen = *repos;
            repos.create_seen_hash(
                SeenHash {
                    hash: blockchain_tx.hash.clone(),
                    block_number: blockchain_tx.block_number,
                    currency: blockchain_tx.currency,
                },
            );
            proof {
                assert(repos.seen_hashes().take(s0 as int) =~= o.seen_hashes());
                assert forall|j: int| 0 <= j < k + 1 implies #[trigger] repos.seen_hashes()[s0 + j] == seen_record(
                    *blockchain_tx,
                ) by {
                    if j < k {
                        assert(repos.seen_hashes()[s0 + j] == before_seen.seen_hashes()[s0 + j]);
                    }
                }
                assert forall|j: int| 0 <= j < k + 1 implies !#[trigger] deposit_fails_at(
                    o.accounts(),
                    o.transactions(),
                    deposits,
                    matched@,
                    j,
                ) by {
                    if j == k && needs_approval(matched@[j]) {
                        assert(balance_reportable(
                            o.transactions() + deposits.take(j + 1),
                            matched@[j].id,
                            AccountKind::Dr,
                        ));
                    }
                }
            }
            k = k + 1;
        }
        Ok(approvals)
    }

    /// Whether handling `blockchain_tx` comes to booking deposits (see
    /// `reaches_deposits`); it changes nothing.
    pub fn reaches_deposits(&self, repos: &Repos, blockchain_tx: &BlockchainTransaction) -> (r: bool)
        ensures
            r == reaches_deposits(*repos, *blockchain_tx),
    {
        let normalized = match blockchain_tx.normalized() {
            Some(n) => n,
            None => {
                return false;
            },
        };
        if repos.get_seen_hash(&normalized.hash, normalized.currency).is_some() {
            return false;
        }
        let is_approve = match blockchain_tx.erc20_operation_kind {
            Some(Erc20OperationKind::Approve) => true,
            _ => false,
        };
        if is_approve {
            if blockchain_tx.currency != Currency::Stq || blockchain_tx.from.len() == 0 {
                return false;
            }
            if repos.get_account_by_address(&blockchain_tx.from[0], Currency::Stq, AccountKind::Dr).is_some() {
                return false;
            }
        }
        if repos.get_by_blockchain_tx(&normalized.hash).is_some() {
            return false;
        }
        let mut to_addresses: Vec<String> = Vec::new();
        let mut i: usize = 0;
        while i < normalized.to.len()
            invariant
                0 <= i <= normalized.to@.len(),
                to_addresses@ == normalized.to@.take(i as int).map_values(|e: BlockchainTransactionEntryTo| e.address),
            decreases normalized.to.len() - i,
        {
            to_addresses.push(normalized.to[i].address.clone());
            proof {
                assert(to_addresses@ =~= normalized.to@.take(i + 1).map_values(
                    |e: BlockchainTransactionEntryTo| e.address,
                ));
            }
            i = i + 1;
        }
        proof {
            assert(normalized.to@.take(normalized.to@.len() as int) =~= normalized.to@);
        }
        let matched = repos.get_by_addresses(&to_addresses, blockchain_tx.currency, AccountKind::Dr);
        if matched.len() == 0 {
            return false;
        }
        self.verify_deposit_tx(repos, &normalized).is_none()
    }

    /// Handles a transaction that the blockchain gateway reports, at time
    /// `now` (see `handle_outcome`). Returns the token accounts that a deposit
    /// brought to the approval threshold, for which an approval is to be sent.
    /// `fresh_ids` are identifiers drawn fresh by the caller, more than there
    /// are accounts: the transactions booked take their ids from them (a
    /// deposit the one at its position among the receivers, the blockchain
    /// fee of a withdrawal the first).
    pub fn handle_transaction(
        &self,
        repos: &mut Repos,
        blockchain_tx: &BlockchainTransaction,
        fresh_ids: &Vec<u128>,
        now: u64,
    ) -> (r: Result<Vec<Account>, Error>)
        requires
            reaches_deposits(*old(repos), *blockchain_tx) ==> receivers_paired(
                old(repos).accounts(),
                blockchain_tx.to@,
                blockchain_tx.currency,
            ),
            fresh_ids@.len() > old(repos).accounts().len(),
        ensures
            self.handle_outcome(*old(repos), *final(repos), *blockchain_tx, now, vec_view(r)),
            forall|k: int|
                0 <= k < final(repos).transactions().len() - old(repos).transactions().len() ==> (
                #[trigger] final(repos).transactions()[old(repos).transactions().len() + k]).id == TransactionId(
                    fresh_ids@[k],
                ),
    {
        let normalized = match blockchain_tx.normalized() {
            Some(n) => n,
            None => {
                return Err(Error { kind: ErrorKind::Internal, context: Some(ErrorContext::BalanceOverflow) });
            },
        };
        if repos.get_seen_hash(&normalized.hash, normalized.currency).is_some() {
            return Ok(Vec::new());
        }
        let is_approve = match blockchain_tx.erc20_operation_kind {
            Some(Erc20OperationKind::Approve) => true,
            _ => false,
        };
        if is_approve {
            if blockchain_tx.currency != Currency::Stq {
                return Err(Error { kind: ErrorKind::Internal, context: Some(ErrorContext::InvalidCurrency) });
            }
            if blockchain_tx.from.len() == 0 {
                return Err(
                    Error {
                        kind: ErrorKind::Internal,
                        context: Some(ErrorContext::InvalidBlockchainTransactionStructure),
                    },
                );
            }
            match repos.get_account_by_address(&blockchain_tx.from[0], Currency::Stq, AccountKind::Dr) {
                Some(account) => {
                    return match self.handle_approval(repos, blockchain_tx, &account) {
                        Ok(()) => Ok(Vec::new()),
                        Err(e) => Err(e),
                    };
                },
                None => {},
            }
        }
        match repos.get_by_blockchain_tx(&normalized.hash) {
            Some(tx) => {
                let total = match normalized.value() {
                    Some(v) => v,
                    None => {
                        return Err(Error { kind: ErrorKind::Internal, context: Some(ErrorContext::BalanceOverflow) });
                    },
                };
                if required_confirmations(normalized.currency, total) > normalized.confirmations {
                    return Ok(Vec::new());
                }
                match self.verify_withdrawal_tx(repos, &tx, &normalized) {
                    Some(v) => {
                        self.handle_violation(repos, v, blockchain_tx);
                        return Ok(Vec::new());
                    },
                    None => {},
                }
                return match self.confirm_withdrawal(repos, blockchain_tx, &tx, fresh_ids[0], now) {
                    Ok(()) => Ok(Vec::new()),
                    Err(e) => Err(e),
                };
            },
            None => {},
        }
        let mut to_addresses: Vec<String> = Vec::new();
        let mut i: usize = 0;
        while i < normalized.to.len()
            invariant
                0 <= i <= normalized.to@.len(),
                to_addresses@ == normalized.to@.take(i as int).map_values(|e: BlockchainTransactionEntryTo| e.address),
            decreases normalized.to.len() - i,
        {
            to_addresses.push(normalized.to[i].address.clone());
            proof {
                assert(to_addresses@ =~= normalized.to@.take(i + 1).map_values(
                    |e: BlockchainTransactionEntryTo| e.address,
                ));
            }
            i = i + 1;
        }
        proof {
            assert(normalized.to@.take(normalized.to@.len() as int) =~= normalized.to@);
        }
        let matched = repos.get_by_addresses(&to_addresses, blockchain_tx.currency, AccountKind::Dr);
        if matched.len() == 0 {
            repos.create_seen_hash(
                SeenHash {
                    hash: blockchain_tx.hash.clone(),
                    block_number: blockchain_tx.block_number,
                    currency: blockchain_tx.currency,
                },
            );
            return Ok(Vec::new());
        }
        match self.verify_deposit_tx(repos, &normalized) {
            Some(v) => {
                self.handle_violation(repos, v, blockchain_tx);
                return Ok(Vec::new());
            },
            None => {},
        }
        proof {
            lemma_matched_deposit_accounts(repos.accounts(), *blockchain_tx, normalized.to@);
        }
        proof {
            repos.accounts().lemma_filter_len(at_one_of(to_addresses@, blockchain_tx.currency, AccountKind::Dr));
        }
        self.record_deposits(repos, blockchain_tx, &matched, fresh_ids, now)
    }

    /// Starts an approval of token transfers for `account`: the ether fees
    /// account and its debit side must exist.
    pub fn begin_erc20_approval(&self, repos: &Repos, account: &Account) -> (r: Result<Erc20Approval, Error>)
        ensures
            match system_account(*repos, self.system.ids.fees_id(Currency::Eth)) {
                Err(e) => r == Err::<Erc20Approval, Error>(e),
                Ok(cr) => match system_account(*repos, self.system.ids.fees_dr_id(Currency::Eth)) {
                    Err(e) => r == Err::<Erc20Approval, Error>(e),
                    Ok(dr) => r == Ok::<Erc20Approval, Error>(Erc20Approval { account: *account, fees_cr: cr, fees_dr: dr }),
                },
            },
    {
        let fees_cr = self.system.get_system_fees_account(repos, Currency::Eth)?;
        let fees_dr = self.system.get_system_fees_account_dr(repos, Currency::Eth)?;
        Ok(Erc20Approval { account: account.clone(), fees_cr, fees_dr })
    }

    /// The ether transfer, from the debit side of the ether fees account to
    /// the account, that pays for the approval: gas price times gas limit, at
    /// the gas price, with the nonce of the fees account and the id `id`
    /// (drawn fresh by the caller). Refused when the value overflows.
    pub fn erc20_approval_transfer(&self, approval: &Erc20Approval, id: TransactionId, nonce: u64) -> (r: Result<
        CreateBlockchainTx,
        Error,
    >)
        ensures
            self.approve_gas_price * self.approve_gas_limit > u128::MAX ==> r == Err::<CreateBlockchainTx, Error>(
                Error { kind: ErrorKind::Internal, context: Some(ErrorContext::BalanceOverflow) },
            ),
            self.approve_gas_price * self.approve_gas_limit <= u128::MAX ==> r is Ok && {
                let t = r->Ok_0;
                &&& t.from == approval.fees_dr.address
                &&& t.to == approval.account.address
                &&& t.currency == Currency::Eth
                &&& t.value == Amount((self.approve_gas_price * self.approve_gas_limit) as u128)
                &&& t.fee_price == Amount(self.approve_gas_price as u128)
                &&& t.nonce == Some(nonce)
                &&& t.id == id
            },
    {
        let value = match Amount(self.approve_gas_price as u128).checked_mul(Amount(self.approve_gas_limit as u128)) {
            Some(v) => v,
            None => {
                return Err(Error { kind: ErrorKind::Internal, context: Some(ErrorContext::BalanceOverflow) });
            },
        };
        Ok(
            CreateBlockchainTx {
                id,
                from: approval.fees_dr.address.clone(),
                to: approval.account.address.clone(),
                currency: Currency::Eth,
                value,
                fee_price: Amount(self.approve_gas_price as u128),
                nonce: Some(nonce),
            },
        )
    }

    /// Books the sent ether transfer of an approval: keeps its record while it
    /// waits and stores the pending ledger transaction for it. When the
    /// ledger's constraint refuses the transaction (the fees accounts cannot
    /// cover it), nothing is recorded.
    pub fn record_erc20_approval_transfer(
        &self,
        repos: &mut Repos,
        approval: &Erc20Approval,
        order: &CreateBlockchainTx,
        hash: String,
        now: u64,
    ) -> (r: Result<(), Error>)
        ensures
            ({
                let t = approval_transfer_tx(*approval, *order, hash, now);
                if booking_allowed(
                    old(repos).accounts(),
                    old(repos).transactions(),
                    t.dr_account_id,
                    t.cr_account_id,
                    t.value,
                ) {
                    &&& r is Ok
                    &&& final(repos).pending() == old(repos).pending().push(
                        crate::blockchain::pending_record(*order, hash),
                    )
                    &&& final(repos).transactions() == old(repos).transactions().push(t)
                } else {
                    &&& r == Err::<(), Error>(Error::of(ErrorKind::Internal, ErrorContext::BalanceOverflow))
                    &&& final(repos).pending() == old(repos).pending()
                    &&& final(repos).transactions() == old(repos).transactions()
                }
            }),
            final(repos).users() == old(repos).users(),
            final(repos).accounts() == old(repos).accounts(),
            final(repos).seen_hashes() == old(repos).seen_hashes(),
            final(repos).blockchain_transactions() == old(repos).blockchain_transactions(),
            final(repos).strange() == old(repos).strange(),
    {
        if !repos.allows_booking(approval.fees_cr.id, approval.fees_dr.id, order.value) {
            return Err(Error { kind: ErrorKind::Internal, context: Some(ErrorContext::BalanceOverflow) });
        }
        crate::blockchain::BlockchainServiceImpl::new(self.system).record_pending(repos, order, hash.clone());
        let tx = NewTransaction {
            id: order.id,
            gid: order.id,
            user_id: approval.account.user_id,
            dr_account_id: approval.fees_cr.id,
            cr_account_id: approval.fees_dr.id,
            currency: Currency::Eth,
            value: order.value,
            status: TransactionStatus::Pending,
            blockchain_tx_id: Some(hash),
            kind: TransactionKind::ApprovalTransfer,
            group_kind: TransactionGroupKind::Approval,
            related_tx: None,
        };
        repos.create_transaction(tx, now)?;
        Ok(())
    }

    /// The approval itself, sent from the account once its ether arrived: it
    /// lets the debit side of the ether fees account transfer up to the
    /// allowance of the account's tokens; its id follows the transfer's.
    pub fn erc20_approve_input(&self, approval: &Erc20Approval, order: &CreateBlockchainTx, nonce: u64) -> (r: ApproveInput)
        ensures
            r == (ApproveInput {
                id: crate::transactions::next_id(order.id),
                address: approval.account.address,
                approve_address: approval.fees_dr.address,
                currency: Currency::Stq,
                value: Amount(STQ_ALLOWANCE),
                fee_price: Amount(self.approve_gas_price as u128),
                nonce,
            }),
    {
        ApproveInput {
            id: order.id.next(),
            address: approval.account.address.clone(),
            approve_address: approval.fees_dr.address.clone(),
            currency: Currency::Stq,
            value: Amount(STQ_ALLOWANCE),
            fee_price: Amount(self.approve_gas_price as u128),
            nonce,
        }
    }

    /// Keeps the record of a sent approval while it waits for confirmation,
    /// under its hash with the number of its event log (`:0`).
    pub fn record_erc20_approve(&self, repos: &mut Repos, approve: &ApproveInput, hash: String)
        ensures
            final(repos).pending() == old(repos).pending().push(
                PendingBlockchainTransaction {
                    hash: final(repos).pending().last().hash,
                    from: approve.address,
                    to: approve.approve_address,
                    currency: approve.currency,
                    value: approve.value,
                },
            ),
            final(repos).pending().last().hash@ == hash@ + ":0"@,
            final(repos).transactions() == old(repos).transactions(),
            final(repos).users() == old(repos).users(),
            final(repos).accounts() == old(repos).accounts(),
            final(repos).seen_hashes() == old(repos).seen_hashes(),
            final(repos).blockchain_transactions() == old(repos).blockchain_transactions(),
            final(repos).strange() == old(repos).strange(),
    {
        let tracked_hash = hash.concat(":0");
        repos.create_pending(
            PendingBlockchainTransaction {
                hash: tracked_hash,
                from: approve.address.clone(),
                to: approve.approve_address.clone(),
                currency: approve.currency,
                value: approve.value,
            },
        );
    }
}

} // verus!
