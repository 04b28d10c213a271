//! Withdrawals to blockchain addresses. A withdrawal is booked as a fee
//! transaction and one pending transaction per debit account that it draws
//! from; each of those is then sent to the blockchain by the caller, one at a
//! time, and the outcome of each send decides how the withdrawal goes on.
use vstd::prelude::*;
use crate::error::{failure, invalid_input, Error, ErrorContext, ErrorKind, ErrorKindView, ErrorView};
use crate::models::{
    Account, AccountId, AccountKind, AccountWithBalance, Amount, CreateTransactionInput, Currency, NewTransaction,
    Transaction, TransactionGroupKind, TransactionId, TransactionKind, TransactionStatus,
};
use crate::repos::{balance_of, balance_reportable, withdrawal_selection, Repos};
use crate::transactions::{as_internal, base_tx, next_id, stored_account, TransactionsServiceImpl};

verus! {

/// Choices that a withdrawal made on behalf of another operation overrides:
/// its group, the kinds of its transactions, the currency of its fee and the
/// account that pays the fee.
#[derive(Clone, Copy, Debug)]
pub struct WithdrawalOptions {
    pub gid: Option<TransactionId>,
    pub tx_kind: Option<TransactionKind>,
    pub tx_group_kind: Option<TransactionGroupKind>,
    pub fee_currency: Option<Currency>,
    pub fee_payer_account_id: Option<AccountId>,
}

/// The check of the accounts that a withdrawal draws from: each must still
/// have a balance that covers its part, and the parts are summed.
pub open spec fn parts_check(txs: Seq<Transaction>, parts: Seq<AccountWithBalance>) -> Result<int, ErrorView>
    decreases parts.len(),
{
    if parts.len() == 0 {
        Ok(0)
    } else {
        match parts_check(txs, parts.drop_last()) {
            Err(e) => Err(e),
            Ok(total) => {
                let p = parts.last();
                if !balance_reportable(txs, p.account.id, AccountKind::Dr) {
                    Err(failure(ErrorKindView::Internal, ErrorContext::BalanceOverflow))
                } else if balance_of(txs, p.account.id, AccountKind::Dr) < p.balance.0 {
                    Err(failure(ErrorKindView::InvalidInput("not_enough_balance"@), ErrorContext::NotEnoughFunds))
                } else if total + p.balance.0 > u128::MAX {
                    Err(failure(ErrorKindView::Internal, ErrorContext::BalanceOverflow))
                } else {
                    Ok(total + p.balance.0)
                }
            },
        }
    }
}

/// The fee transaction of a withdrawal: the request's fee from the fee payer
/// to the fees account of the withdrawn currency.
pub open spec fn withdrawal_fee_tx(
    input: CreateTransactionInput,
    from: Account,
    fees: Account,
    options: WithdrawalOptions,
) -> NewTransaction {
    NewTransaction {
        id: input.id,
        gid: match options.gid {
            Some(g) => g,
            None => input.id,
        },
        user_id: input.user_id,
        dr_account_id: match options.fee_payer_account_id {
            Some(a) => a,
            None => from.id,
        },
        cr_account_id: fees.id,
        currency: match options.fee_currency {
            Some(c) => c,
            None => from.currency,
        },
        value: input.fee,
        status: TransactionStatus::Done,
        blockchain_tx_id: None,
        kind: TransactionKind::Fee,
        group_kind: match options.tx_group_kind {
            Some(k) => k,
            None => TransactionGroupKind::Withdrawal,
        },
        related_tx: None,
    }
}

/// The account that pays the fee of a withdrawal from `from`: `from` itself,
/// or the stored account that the options name instead.
pub open spec fn fee_payer(accounts: Seq<Account>, from: Account, options: WithdrawalOptions) -> Result<Account, ErrorView> {
    match options.fee_payer_account_id {
        None => Ok(from),
        Some(id) => stored_account(accounts, id),
    }
}

/// A withdrawal in progress: the accounts it draws from, how many of them
/// were sent, and the transactions booked so far.
#[derive(Debug)]
pub struct Withdrawal {
    pub gid: TransactionId,
    pub user_id: crate::models::UserId,
    pub from_account: Account,
    pub to_address: String,
    pub currency: Currency,
    pub kind: TransactionKind,
    pub group_kind: TransactionGroupKind,
    pub parts: Vec<AccountWithBalance>,
    /// Index of the next part to book.
    pub next: usize,
    /// Id of the last transaction booked; parts take the ids that follow.
    pub current_id: TransactionId,
    /// The fee transaction and the parts sent so far, with their hashes.
    pub done: Vec<Transaction>,
    /// The part booked and waiting for the outcome of its send.
    pub sending: Option<Transaction>,
    /// Length of the ledger before the withdrawal.
    pub ledger_start: usize,
}

/// An order to send `value` in `currency` from the address `from` to `to`.
#[derive(Debug)]
pub struct SendOrder {
    pub from: String,
    pub to: String,
    pub value: Amount,
    pub currency: Currency,
}

/// The pending transaction that books one part of a withdrawal.
pub open spec fn part_tx(w: Withdrawal, p: AccountWithBalance, id: TransactionId) -> NewTransaction {
    NewTransaction {
        id,
        gid: w.gid,
        user_id: w.user_id,
        dr_account_id: w.from_account.id,
        cr_account_id: p.account.id,
        currency: w.currency,
        value: p.balance,
        status: TransactionStatus::Pending,
        blockchain_tx_id: None,
        kind: w.kind,
        group_kind: w.group_kind,
        related_tx: None,
    }
}

impl TransactionsServiceImpl {
    /// The outcome of starting a withdrawal of the request's value from
    /// `from` to `to_address`: the currencies must agree, the debit accounts
    /// to draw from are selected (`total_fee` being the estimated blockchain
    /// fee) and checked again, their parts must sum to the value, and the fee
    /// transaction is stored as `base_tx` says, paid by the fee payer.
    pub open spec fn withdrawal_begin(
        self,
        accounts: Seq<Account>,
        txs: Seq<Transaction>,
        input: CreateTransactionInput,
        from: Account,
        to_currency: Currency,
        options: WithdrawalOptions,
        total_fee: Amount,
        now: u64,
    ) -> Result<(Seq<AccountWithBalance>, Transaction), ErrorView> {
        if from.currency != to_currency {
            Err(failure(ErrorKindView::Internal, ErrorContext::InvalidCurrency))
        } else {
            match withdrawal_selection(accounts, txs, input.value, to_currency, total_fee) {
                Err(e) => Err(e),
                Ok(parts) => match parts_check(txs, parts) {
                    Err(e) => Err(e),
                    Ok(total) => if total != input.value.0 {
                        Err(failure(ErrorKindView::Internal, ErrorContext::InvalidValue))
                    } else {
                        match stored_account(accounts, self.system.ids.fees_id(to_currency)) {
                            Err(e) => Err(as_internal(e)),
                            Ok(fees) => match fee_payer(accounts, from, options) {
                                Err(e) => Err(as_internal(e)),
                                Ok(payer) => match base_tx(
                                    accounts,
                                    txs,
                                    withdrawal_fee_tx(input, from, fees, options),
                                    payer,
                                    fees,
                                    now,
                                ) {
                                    Err(e) => Err(e),
                                    Ok(t) => Ok((parts, t)),
                                },
                            },
                        }
                    },
                },
            }
        }
    }

    fn check_withdrawal_parts(&self, repos: &Repos, parts: &Vec<AccountWithBalance>) -> (r: Result<Amount, Error>)
        ensures
            match parts_check(repos.transactions(), parts@) {
                Ok(total) => r == Ok::<Amount, Error>(Amount(total as u128)) && 0 <= total <= u128::MAX,
                Err(e) => r is Err && r->Err_0@ == e,
            },
    {
        let mut total: u128 = 0;
        let mut i: usize = 0;
        while i < parts.len()
            invariant
                0 <= i <= parts@.len(),
                parts_check(repos.transactions(), parts@.take(i as int)) == Ok::<int, ErrorView>(total as int),
            decreases parts.len() - i,
        {
            proof {
                assert(parts@.take(i + 1).drop_last() =~= parts@.take(i as int));
                lemma_parts_check_err_extends(repos.transactions(), parts@, i + 1);
            }
            let p = &parts[i];
            let balance = match repos.account_balance(p.account.id, AccountKind::Dr) {
                Ok(b) => b,
                Err(e) => {
                    return Err(e);
                },
            };
            if balance.0 < p.balance.0 {
                return Err(
                    Error { kind: invalid_input("not_enough_balance"), context: Some(ErrorContext::NotEnoughFunds) },
                );
            }
            if total > u128::MAX - p.balance.0 {
                return Err(Error { kind: ErrorKind::Internal, context: Some(ErrorContext::BalanceOverflow) });
            }
            total = total + p.balance.0;
            i = i + 1;
        }
        proof {
            assert(parts@.take(parts@.len() as int) =~= parts@);
        }
        Ok(Amount(total))
    }

    /// Starts a withdrawal of the request's value from `from_account` to
    /// `to_address` (see `withdrawal_begin`); `total_fee` is the estimated
    /// blockchain fee. A refused withdrawal changes nothing.
    pub fn begin_external_mono_currency_tx(
        &self,
        repos: &mut Repos,
        input: &CreateTransactionInput,
        from_account: Account,
        to_address: String,
        to_currency: Currency,
        options: WithdrawalOptions,
        total_fee: Amount,
        now: u64,
    ) -> (r: Result<Withdrawal, Error>)
        ensures
            match self.withdrawal_begin(
                old(repos).accounts(),
                old(repos).transactions(),
                *input,
                from_account,
                to_currency,
                options,
                total_fee,
                now,
            ) {
                Err(e) => r is Err && r->Err_0@ == e && final(repos).transactions() == old(repos).transactions(),
                Ok((parts, fee_tx)) => r is Ok && {
                    let w = r->Ok_0;
                    &&& w.parts@ == parts
                    &&& w.done@ == seq![fee_tx]
                    &&& w.next == 0
                    &&& w.sending is None
                    &&& w.current_id == input.id
                    &&& w.ledger_start == old(repos).transactions().len()
                    &&& w.gid == fee_tx.gid
                    &&& w.user_id == input.user_id
                    &&& w.from_account == from_account
                    &&& w.to_address == to_address
                    &&& w.currency == to_currency
                    &&& w.kind == (match options.tx_kind {
                        Some(k) => k,
                        None => TransactionKind::Withdrawal,
                    })
                    &&& w.group_kind == fee_tx.group_kind
                    &&& final(repos).transactions() == old(repos).transactions().push(fee_tx)
                },
            },
            final(repos).same_except_transactions(old(repos)),
    {
        if from_account.currency != to_currency {
            return Err(Error { kind: ErrorKind::Internal, context: Some(ErrorContext::InvalidCurrency) });
        }
        let gid = match options.gid {
            Some(g) => g,
            None => input.id,
        };
        let fee_currency = match options.fee_currency {
            Some(c) => c,
            None => from_account.currency,
        };
        let parts = repos.get_accounts_for_withdrawal(input.value, to_currency, total_fee)?;
        let total = self.check_withdrawal_parts(repos, &parts)?;
        if total.0 != input.value.0 {
            return Err(Error { kind: ErrorKind::Internal, context: Some(ErrorContext::InvalidValue) });
        }
        let fees_account = match self.system.get_system_fees_account(repos, to_currency) {
            Ok(a) => a,
            Err(e) => {
                return Err(Error { kind: ErrorKind::Internal, context: e.context });
            },
        };
        let group_kind = match options.tx_group_kind {
            Some(k) => k,
            None => TransactionGroupKind::Withdrawal,
        };
        let fee_tx = NewTransaction {
            id: input.id,
            gid,
            user_id: input.user_id,
            dr_account_id: match options.fee_payer_account_id {
                Some(a) => a,
                None => from_account.id,
            },
            cr_account_id: fees_account.id,
            currency: fee_currency,
            value: input.fee,
            status: TransactionStatus::Done,
            blockchain_tx_id: None,
            kind: TransactionKind::Fee,
            group_kind,
            related_tx: None,
        };
        let payer = match options.fee_payer_account_id {
            None => from_account.clone(),
            Some(id) => match repos.get_account(id) {
                Some(a) => a,
                None => {
                    return Err(Error { kind: ErrorKind::Internal, context: Some(ErrorContext::NoAccount) });
                },
            },
        };
        let ledger_start = repos.transactions_len();
        let stored_fee = self.create_base_tx(repos, fee_tx, payer, fees_account, now)?;
        let mut done: Vec<Transaction> = Vec::new();
        done.push(stored_fee);
        proof {
            assert(done@ =~= seq![stored_fee]);
        }
        Ok(
            Withdrawal {
                gid,
                user_id: input.user_id,
                from_account,
                to_address,
                currency: to_currency,
                kind: match options.tx_kind {
                    Some(k) => k,
                    None => TransactionKind::Withdrawal,
                },
                group_kind,
                parts,
                next: 0,
                current_id: input.id,
                done,
                sending: None,
                ledger_start,
            },
        )
    }
}

impl TransactionsServiceImpl {
    /// Books the next part of a withdrawal as a pending transaction and says
    /// what to send to the blockchain for it; `None` when every part was
    /// booked. A part that cannot be booked fails the withdrawal, and every
    /// transaction that it stored is dropped.
    pub fn withdrawal_step(&self, repos: &mut Repos, w: &mut Withdrawal, now: u64) -> (r: Result<Option<SendOrder>, Error>)
        requires
            old(w).sending is None,
            old(w).ledger_start <= old(repos).transactions().len(),
        ensures
            final(repos).same_except_transactions(old(repos)),
            old(w).next >= old(w).parts@.len() ==> (r matches Ok(None) && *final(w) == *old(w) && final(repos).transactions() == old(repos).transactions()),
            old(w).next < old(w).parts@.len() ==> {
                let p = old(w).parts@[old(w).next as int];
                let id = next_id(old(w).current_id);
                match base_tx(
                    old(repos).accounts(),
                    old(repos).transactions(),
                    part_tx(*old(w), p, id),
                    old(w).from_account,
                    p.account,
                    now,
                ) {
                    Err(e) => r is Err && r->Err_0@ == e && final(repos).transactions() == old(repos).transactions().take(old(w).ledger_start as int),
                    Ok(t) => r == Ok::<Option<SendOrder>, Error>(
                        Some(
                            SendOrder {
                                from: p.account.address,
                                to: old(w).to_address,
                                value: p.balance,
                                currency: old(w).currency,
                            },
                        ),
                    ) && final(repos).transactions() == old(repos).transactions().push(t) && *final(w) == Withdrawal {
                        current_id: id,
                        sending: Some(t),
                        ..*old(w)
                    },
                }
            },
    {
        if w.next >= w.parts.len() {
            return Ok(None);
        }
        let p = w.parts[w.next].clone();
        let id = w.current_id.next();
        let tx = NewTransaction {
            id,
            gid: w.gid,
            user_id: w.user_id,
            dr_account_id: w.from_account.id,
            cr_account_id: p.account.id,
            currency: w.currency,
            value: p.balance,
            status: TransactionStatus::Pending,
            blockchain_tx_id: None,
            kind: w.kind,
            group_kind: w.group_kind,
            related_tx: None,
        };
        let order = SendOrder {
            from: p.account.address.clone(),
            to: w.to_address.clone(),
            value: p.balance,
            currency: w.currency,
        };
        match self.create_base_tx(repos, tx, w.from_account.clone(), p.account, now) {
            Ok(t) => {
                w.current_id = id;
                w.sending = Some(t);
                Ok(Some(order))
            },
            Err(e) => {
                repos.rollback_transactions(w.ledger_start);
                Err(e)
            },
        }
    }

    /// Takes the outcome, at time `now`, of sending the part booked last:
    /// with its hash the part is recorded as sent and the withdrawal goes on
    /// (`true`). When the send failed before any part of the withdrawal reached
    /// the blockchain, the withdrawal fails and everything it stored is
    /// dropped; once a part was sent it stops there (`false`), keeping what
    /// was sent.
    pub fn withdrawal_sent(&self, repos: &mut Repos, w: &mut Withdrawal, sent: Result<String, Error>, now: u64) -> (r: Result<bool, Error>)
        requires
            old(w).sending is Some,
            old(w).next < old(w).parts@.len(),
            old(w).ledger_start <= old(repos).transactions().len(),
        ensures
            final(repos).same_except_transactions(old(repos)),
            final(w).sending is None,
            match sent {
                Ok(hash) => {
                    let t = old(w).sending->0;
                    if exists|k: int|
                        0 <= k < old(repos).transactions().len() && #[trigger] old(repos).transactions()[k].id == t.id {
                        &&& r == Ok::<bool, Error>(true)
                        &&& final(repos).transactions() == old(repos).transactions().map_values(
                            |x: Transaction| crate::repos::with_blockchain_tx(x, t.id, hash, now),
                        )
                        &&& final(w).done@ == old(w).done@.push(Transaction { blockchain_tx_id: Some(hash), updated_at: now, ..t })
                        &&& final(w).next == old(w).next + 1
                    } else {
                        &&& r == Ok::<bool, Error>(false)
                        &&& final(repos).transactions() == old(repos).transactions()
                        &&& final(w).done@ == old(w).done@
                    }
                },
                Err(e) => if old(w).next == 0 {
                    &&& r == Err::<bool, Error>(Error { kind: ErrorKind::Internal, context: e.context })
                    &&& final(repos).transactions() == old(repos).transactions().take(old(w).ledger_start as int)
                } else {
                    &&& r == Ok::<bool, Error>(false)
                    &&& final(repos).transactions() == old(repos).transactions()
                    &&& final(w).done@ == old(w).done@
                },
            },
            final(w).parts == old(w).parts,
            final(w).ledger_start == old(w).ledger_start,
            final(w).current_id == old(w).current_id,
    {
        let t = match w.sending.take() {
            Some(t) => t,
            None => {
                return Ok(false);
            },
        };
        match sent {
            Ok(hash) => {
                let n_parts = w.parts.len();
                assert(w.next < n_parts);
                if repos.update_blockchain_tx(t.id, &hash, now) {
                    let mut sent_tx = t;
                    sent_tx.blockchain_tx_id = Some(hash);
                    sent_tx.updated_at = now;
                    w.done.push(sent_tx);
                    w.next = w.next + 1;
                    Ok(true)
                } else {
                    Ok(false)
                }
            },
            Err(e) => {
                if w.next == 0 {
                    repos.rollback_transactions(w.ledger_start);
                    Err(Error { kind: ErrorKind::Internal, context: e.context })
                } else {
                    Ok(false)
                }
            },
        }
    }
}

proof fn lemma_parts_check_err_extends(txs: Seq<Transaction>, parts: Seq<AccountWithBalance>, k: int)
    requires
        0 <= k <= parts.len(),
    ensures
        parts_check(txs, parts.take(k)) is Err ==> parts_check(txs, parts) == parts_check(txs, parts.take(k)),
    decreases parts.len() - k,
{
    if k < parts.len() && parts_check(txs, parts.take(k)) is Err {
        assert(parts.take(k + 1).drop_last() =~= parts.take(k));
        lemma_parts_check_err_extends(txs, parts, k + 1);
    } else if k == parts.len() {
        assert(parts.take(k) =~= parts);
    }
}

} // verus!
