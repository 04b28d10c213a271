//! Creating the transactions of a transfer: the balance check that every
//! transfer passes, internal transfers, and transfers with an exchange.
use vstd::prelude::*;
use crate::auth::{authenticated, AuthServiceImpl};
use crate::classifier::{ClassifierServiceImpl, TransactionType};
use crate::error::{failure, invalid_input, res_view, Error, ErrorContext, ErrorKind, ErrorKindView, ErrorView};
use crate::lookup::first_match;
use crate::models::{
    Account, AccountId, Amount, CreateTransactionInput, Currency, ExchangeId, ExchangeRate, NewTransaction, Transaction,
    TransactionGroupKind, TransactionId, TransactionKind, TransactionStatus, User,
};
use crate::repos::{balance_of, balance_reportable, booking_allowed, has_account_id, stored, Repos};
use crate::system::SystemServiceImpl;

verus! {

/// The outcome of storing the transfer `tx` from `dr` to `cr` at time `now`:
/// refused unless both accounts have one currency, the transfer names exactly
/// these accounts, the balance of `dr` covers the value, and the ledger's
/// constraint admits it (no stored account's balance falls below zero).
pub open spec fn base_tx(
    accounts: Seq<Account>,
    txs: Seq<Transaction>,
    tx: NewTransaction,
    dr: Account,
    cr: Account,
    now: u64,
) -> Result<Transaction, ErrorView> {
    if dr.currency != cr.currency {
        Err(failure(ErrorKindView::Internal, ErrorContext::InvalidCurrency))
    } else if tx.dr_account_id != dr.id || tx.cr_account_id != cr.id {
        Err(failure(ErrorKindView::Internal, ErrorContext::InvalidTransaction))
    } else if !balance_reportable(txs, dr.id, dr.kind) {
        Err(failure(ErrorKindView::Internal, ErrorContext::BalanceOverflow))
    } else if balance_of(txs, dr.id, dr.kind) >= tx.value.0 {
        if booking_allowed(accounts, txs, tx.dr_account_id, tx.cr_account_id, tx.value) {
            Ok(stored(tx, now))
        } else {
            Err(failure(ErrorKindView::Internal, ErrorContext::BalanceOverflow))
        }
    } else {
        Err(failure(ErrorKindView::InvalidInput("not_enough_balance"@), ErrorContext::NotEnoughFunds))
    }
}

/// The transfer that an internal transfer request stores.
pub open spec fn internal_tx(input: CreateTransactionInput, dr: Account, cr: Account) -> NewTransaction {
    NewTransaction {
        id: input.id,
        gid: input.id,
        user_id: input.user_id,
        dr_account_id: dr.id,
        cr_account_id: cr.id,
        currency: dr.currency,
        value: input.value,
        status: TransactionStatus::Done,
        blockchain_tx_id: None,
        kind: TransactionKind::Internal,
        group_kind: TransactionGroupKind::Internal,
        related_tx: None,
    }
}

/// A failure re-labelled as internal, keeping what went wrong.
pub open spec fn as_internal(e: ErrorView) -> ErrorView {
    ErrorView { kind: ErrorKindView::Internal, context: e.context }
}

/// The values of an exchange transfer on its paying and on its receiving
/// side: the request's value on the side whose currency it is given in, and
/// its conversion at the agreed rate (`converted`) on the other side.
pub open spec fn multi_values(input: CreateTransactionInput, from: Account, to: Account, converted: Amount) -> Result<
    (Amount, Amount),
    ErrorView,
> {
    if from.currency == input.value_currency {
        Ok((input.value, converted))
    } else if to.currency == input.value_currency {
        Ok((converted, input.value))
    } else {
        Err(failure(ErrorKindView::Internal, ErrorContext::InvalidCurrency))
    }
}

/// The leg of an exchange transfer that moves money from the paying account to
/// the system's liquidity account of its currency.
pub open spec fn multi_from_tx(input: CreateTransactionInput, from: Account, liquidity: Account, value: Amount) -> NewTransaction {
    NewTransaction {
        id: input.id,
        gid: input.id,
        user_id: input.user_id,
        dr_account_id: from.id,
        cr_account_id: liquidity.id,
        currency: from.currency,
        value,
        status: TransactionStatus::Done,
        blockchain_tx_id: None,
        kind: TransactionKind::MultiFrom,
        group_kind: TransactionGroupKind::InternalMulti,
        related_tx: None,
    }
}

/// The leg of an exchange transfer that moves money from the system's
/// liquidity account of the receiving currency to the receiving account.
pub open spec fn multi_to_tx(input: CreateTransactionInput, liquidity: Account, to: Account, value: Amount) -> NewTransaction {
    NewTransaction {
        id: next_id(input.id),
        gid: input.id,
        user_id: input.user_id,
        dr_account_id: liquidity.id,
        cr_account_id: to.id,
        currency: to.currency,
        value,
        status: TransactionStatus::Done,
        blockchain_tx_id: None,
        kind: TransactionKind::MultiTo,
        group_kind: TransactionGroupKind::InternalMulti,
        related_tx: None,
    }
}

/// The id that follows `id`.
pub open spec fn next_id(id: TransactionId) -> TransactionId {
    TransactionId(if id.0 == u128::MAX { 0 } else { (id.0 + 1) as u128 })
}

/// The order for the exchange that an exchange transfer passes on.
pub open spec fn exchange_order(
    input: CreateTransactionInput,
    from: Account,
    to: Account,
    exchange_id: ExchangeId,
    rate: ExchangeRate,
) -> ExchangeInput {
    ExchangeInput {
        id: exchange_id,
        from: from.currency,
        to: to.currency,
        rate,
        actual_amount: input.value,
        amount_currency: input.value_currency,
    }
}

/// The stored account with this id, or `NotFound` when there is none.
pub open spec fn stored_account(accounts: Seq<Account>, id: AccountId) -> Result<Account, ErrorView> {
    match first_match(accounts, has_account_id(id)) {
        Some(a) => Ok(a),
        None => Err(failure(ErrorKindView::NotFound, ErrorContext::NoAccount)),
    }
}

/// A result of a group of transactions seen as contracts speak of it.
pub open spec fn group_view<X>(r: Result<(Vec<Transaction>, X), Error>) -> Result<(Seq<Transaction>, X), ErrorView> {
    match r {
        Ok((v, x)) => Ok((v@, x)),
        Err(e) => Err(e@),
    }
}

/// The order to pass to the exchange after an exchange transfer is stored.
#[derive(Clone, Copy, Debug)]
pub struct ExchangeInput {
    pub id: ExchangeId,
    pub from: Currency,
    pub to: Currency,
    pub rate: ExchangeRate,
    pub actual_amount: Amount,
    pub amount_currency: Currency,
}

/// What a transfer request turned into.
#[derive(Debug)]
pub enum TransactionGroup {
    /// The transactions were stored.
    Stored(Vec<Transaction>),
    /// The transactions of an exchange were stored; the order is to be passed
    /// to the exchange, and the transactions dropped if the exchange refuses it.
    Exchanged(Vec<Transaction>, ExchangeInput),
    /// A withdrawal from the account to the address in the currency, to be
    /// started with `begin_external_mono_currency_tx` once its blockchain fee
    /// is estimated.
    Withdrawal(Account, String, Currency),
}

/// A transfer request as the contracts see it after authentication: made by
/// the authenticated user.
pub open spec fn by_user(input: CreateTransactionInput, user: User) -> CreateTransactionInput {
    CreateTransactionInput { user_id: user.id, ..input }
}

/// Creates transactions; the system accounts and the classifier it uses are configured.
#[derive(Clone, Copy, Debug)]
pub struct TransactionsServiceImpl {
    pub auth: AuthServiceImpl,
    pub system: SystemServiceImpl,
    pub classifier: ClassifierServiceImpl,
}

impl TransactionsServiceImpl {
    pub fn new(auth: AuthServiceImpl, system: SystemServiceImpl, classifier: ClassifierServiceImpl) -> (r: Self)
        ensures
            r.auth == auth,
            r.system == system,
            r.classifier == classifier,
    {
        TransactionsServiceImpl { auth, system, classifier }
    }

    /// The outcome of an exchange transfer from `from` to `to` on the stored
    /// accounts and ledger: the paying leg into the liquidity account of the
    /// paying currency, then the receiving leg out of the liquidity account of
    /// the receiving currency, each stored as `base_tx` says; a missing
    /// liquidity account is an internal failure.
    pub open spec fn internal_multi(
        self,
        accounts: Seq<Account>,
        txs: Seq<Transaction>,
        input: CreateTransactionInput,
        from: Account,
        to: Account,
        exchange_id: ExchangeId,
        rate: ExchangeRate,
        converted: Amount,
        now: u64,
    ) -> Result<(Seq<Transaction>, ExchangeInput), ErrorView> {
        match multi_values(input, from, to, converted) {
            Err(e) => Err(e),
            Ok((from_value, to_value)) => match stored_account(accounts, self.system.ids.liquidity_id(from.currency)) {
                Err(e) => Err(as_internal(e)),
                Ok(from_liquidity) => match base_tx(
                    accounts,
                    txs,
                    multi_from_tx(input, from, from_liquidity, from_value),
                    from,
                    from_liquidity,
                    now,
                ) {
                    Err(e) => Err(e),
                    Ok(t1) => match stored_account(accounts, self.system.ids.liquidity_id(to.currency)) {
                        Err(e) => Err(as_internal(e)),
                        Ok(to_liquidity) => match base_tx(
                            accounts,
                            txs.push(t1),
                            multi_to_tx(input, to_liquidity, to, to_value),
                            to_liquidity,
                            to,
                            now,
                        ) {
                            Err(e) => Err(e),
                            Ok(t2) => Ok((seq![t1, t2], exchange_order(input, from, to, exchange_id, rate))),
                        },
                    },
                },
            },
        }
    }

    /// In an exchange, the leg whose account is in the request's value
    /// currency carries exactly the request's value and the other leg its
    /// conversion: the paying leg (from the paying account) when the value is
    /// given in the paying currency, the receiving leg (to the receiving
    /// account) when it is given in the receiving currency.
    pub proof fn law_exchange_value_on_its_own_side(
        self,
        accounts: Seq<Account>,
        txs: Seq<Transaction>,
        input: CreateTransactionInput,
        from: Account,
        to: Account,
        exchange_id: ExchangeId,
        rate: ExchangeRate,
        converted: Amount,
        now: u64,
    )
        requires
            self.internal_multi(accounts, txs, input, from, to, exchange_id, rate, converted, now) is Ok,
        ensures
            ({
                let legs = self.internal_multi(accounts, txs, input, from, to, exchange_id, rate, converted, now)->Ok_0.0;
                &&& legs.len() == 2
                &&& legs[0].dr_account_id == from.id
                &&& legs[1].cr_account_id == to.id
                &&& from.currency == input.value_currency ==> legs[0].value == input.value && legs[1].value
                    == converted
                &&& from.currency != input.value_currency ==> to.currency == input.value_currency
                    && legs[1].value == input.value && legs[0].value == converted
            }),
    {
    }

    /// Stores a transfer after checking that it moves money between the two
    /// given accounts, of one currency, and that the paying account's balance
    /// covers it. A refused transfer changes nothing.
    pub fn create_base_tx(
        &self,
        repos: &mut Repos,
        tx: NewTransaction,
        dr_account: Account,
        cr_account: Account,
        now: u64,
    ) -> (r: Result<Transaction, Error>)
        ensures
            res_view(r) == base_tx(old(repos).accounts(), old(repos).transactions(), tx, dr_account, cr_account, now),
            r matches Ok(t) ==> final(repos).transactions() == old(repos).transactions().push(t),
            r is Err ==> final(repos).transactions() == old(repos).transactions(),
            final(repos).same_except_transactions(old(repos)),
    {
        if dr_account.currency != cr_account.currency {
            return Err(Error { kind: ErrorKind::Internal, context: Some(ErrorContext::InvalidCurrency) });
        }
        if tx.dr_account_id != dr_account.id || tx.cr_account_id != cr_account.id {
            return Err(Error { kind: ErrorKind::Internal, context: Some(ErrorContext::InvalidTransaction) });
        }
        let balance = repos.account_balance(dr_account.id, dr_account.kind)?;
        if balance.0 >= tx.value.0 {
            repos.create_transaction(tx, now)
        } else {
            Err(Error { kind: invalid_input("not_enough_balance"), context: Some(ErrorContext::NotEnoughFunds) })
        }
    }

    /// An internal transfer between two accounts of one currency: a single
    /// done transaction with the request's id as id and group id.
    pub fn create_internal_mono_currency_tx(
        &self,
        repos: &mut Repos,
        input: &CreateTransactionInput,
        dr_account: Account,
        cr_account: Account,
        now: u64,
    ) -> (r: Result<Transaction, Error>)
        ensures
            res_view(r) == base_tx(
                old(repos).accounts(),
                old(repos).transactions(),
                internal_tx(*input, dr_account, cr_account),
                dr_account,
                cr_account,
                now,
            ),
            r matches Ok(t) ==> final(repos).transactions() == old(repos).transactions().push(t),
            r is Err ==> final(repos).transactions() == old(repos).transactions(),
            final(repos).same_except_transactions(old(repos)),
    {
        let tx = NewTransaction {
            id: input.id,
            gid: input.id,
            user_id: input.user_id,
            dr_account_id: dr_account.id,
            cr_account_id: cr_account.id,
            currency: dr_account.currency,
            value: input.value,
            status: TransactionStatus::Done,
            blockchain_tx_id: None,
            kind: TransactionKind::Internal,
            group_kind: TransactionGroupKind::Internal,
            related_tx: None,
        };
        self.create_base_tx(repos, tx, dr_account, cr_account, now)
    }

    /// An exchange transfer between accounts of two currencies at an agreed
    /// rate: two done transactions through the system's liquidity accounts,
    /// with consecutive ids from the request's id, and the order to pass to
    /// the exchange. `converted` is the request's value converted at the rate
    /// into the currency of the other side. A refused transfer changes nothing.
    pub fn create_internal_multi_currency_tx(
        &self,
        repos: &mut Repos,
        input: &CreateTransactionInput,
        from_account: Account,
        to_account: Account,
        exchange_id: ExchangeId,
        exchange_rate: ExchangeRate,
        converted: Amount,
        now: u64,
    ) -> (r: Result<(Vec<Transaction>, ExchangeInput), Error>)
        ensures
            group_view(r) == self.internal_multi(
                old(repos).accounts(),
                old(repos).transactions(),
                *input,
                from_account,
                to_account,
                exchange_id,
                exchange_rate,
                converted,
                now,
            ),
            r matches Ok((v, _)) ==> final(repos).transactions() == old(repos).transactions() + v@,
            r is Err ==> final(repos).transactions() == old(repos).transactions(),
            final(repos).same_except_transactions(old(repos)),
    {
        let (from_value, to_value) = if from_account.currency == input.value_currency {
            (input.value, converted)
        } else if to_account.currency == input.value_currency {
            (converted, input.value)
        } else {
            return Err(Error { kind: ErrorKind::Internal, context: Some(ErrorContext::InvalidCurrency) });
        };
        let start = repos.transactions_len();
        let from_liquidity = match self.system.get_system_liquidity_account(repos, from_account.currency) {
            Ok(a) => a,
            Err(e) => {
                return Err(Error { kind: ErrorKind::Internal, context: e.context });
            },
        };
        let from_tx = NewTransaction {
            id: input.id,
            gid: input.id,
            user_id: input.user_id,
            dr_account_id: from_account.id,
            cr_account_id: from_liquidity.id,
            currency: from_account.currency,
            value: from_value,
            status: TransactionStatus::Done,
            blockchain_tx_id: None,
            kind: TransactionKind::MultiFrom,
            group_kind: TransactionGroupKind::InternalMulti,
            related_tx: None,
        };
        let from_currency = from_account.currency;
        let to_currency = to_account.currency;
        let to_id = to_account.id;
        let t1 = self.create_base_tx(repos, from_tx, from_account, from_liquidity, now)?;
        let ghost after_first = repos.transactions();
        let to_liquidity = match self.system.get_system_liquidity_account(repos, to_currency) {
            Ok(a) => a,
            Err(e) => {
                repos.rollback_transactions(start);
                proof {
                    assert(old(repos).transactions().push(t1).take(start as int) =~= old(repos).transactions());
                }
                return Err(Error { kind: ErrorKind::Internal, context: e.context });
            },
        };
        let to_tx = NewTransaction {
            id: input.id.next(),
            gid: input.id,
            user_id: input.user_id,
            dr_account_id: to_liquidity.id,
            cr_account_id: to_id,
            currency: to_currency,
            value: to_value,
            status: TransactionStatus::Done,
            blockchain_tx_id: None,
            kind: TransactionKind::MultiTo,
            group_kind: TransactionGroupKind::InternalMulti,
            related_tx: None,
        };
        let t2 = match self.create_base_tx(repos, to_tx, to_liquidity, to_account, now) {
            Ok(t) => t,
            Err(e) => {
                repos.rollback_transactions(start);
                proof {
                    assert(after_first.take(start as int) =~= old(repos).transactions());
                }
                return Err(e);
            },
        };
        let exchange = ExchangeInput {
            id: exchange_id,
            from: from_currency,
            to: to_currency,
            rate: exchange_rate,
            actual_amount: input.value,
            amount_currency: input.value_currency,
        };
        let mut txs: Vec<Transaction> = Vec::new();
        txs.push(t1);
        txs.push(t2);
        proof {
            assert(txs@ =~= seq![t1, t2]);
            assert(old(repos).transactions().push(t1).push(t2) =~= old(repos).transactions() + txs@);
        }
        Ok((txs, exchange))
    }

    /// Carries out a transfer request made with `token` at time `now`: the
    /// request is made by the authenticated user, then validated and
    /// classified, and an internal transfer or an exchange is stored; a
    /// withdrawal is returned to be started; a withdrawal with an exchange is
    /// not supported. `converted` is the request's value converted at the
    /// agreed rate into the currency of the other side of an exchange.
    pub fn create_transaction(
        &self,
        repos: &mut Repos,
        token: Option<String>,
        input: CreateTransactionInput,
        now: u64,
        converted: Option<Amount>,
    ) -> (r: Result<TransactionGroup, Error>)
        ensures
            final(repos).same_except_transactions(old(repos)),
            match authenticated(old(repos).users(), token) {
                Err(e) => r is Err && r->Err_0@ == e && final(repos).transactions() == old(repos).transactions(),
                Ok(user) => {
                    let req = by_user(input, user);
                    match self.classifier.classify(
                        old(repos).accounts(),
                        old(repos).transactions(),
                        req,
                        now,
                        converted,
                    ) {
                        Err(e) => r is Err && r->Err_0@ == e && final(repos).transactions() == old(repos).transactions(),
                        Ok(TransactionType::Internal(from, to)) => match base_tx(
                            old(repos).accounts(),
                            old(repos).transactions(),
                            internal_tx(req, from, to),
                            from,
                            to,
                            now,
                        ) {
                            Err(e) => r is Err && r->Err_0@ == e && final(repos).transactions() == old(repos).transactions(),
                            Ok(t) => r is Ok && r->Ok_0 is Stored && r->Ok_0->Stored_0@ == seq![t] && final(repos).transactions() == old(repos).transactions().push(t),
                        },
                        Ok(TransactionType::Withdrawal(from, address, currency)) => r is Ok && r->Ok_0
                            is Withdrawal && r->Ok_0->Withdrawal_0 == from && r->Ok_0->Withdrawal_1 == address
                            && r->Ok_0->Withdrawal_2 == currency && final(repos).transactions() == old(repos).transactions(),
                        Ok(TransactionType::InternalExchange(from, to, exchange_id, rate)) => match converted {
                            None => r is Err && r->Err_0@ == failure(
                                ErrorKindView::MalformedInput,
                                ErrorContext::MissingExchangeRate,
                            ) && final(repos).transactions() == old(repos).transactions(),
                            Some(c) => match self.internal_multi(
                                old(repos).accounts(),
                                old(repos).transactions(),
                                req,
                                from,
                                to,
                                exchange_id,
                                rate,
                                c,
                                now,
                            ) {
                                Err(e) => r is Err && r->Err_0@ == e && final(repos).transactions() == old(repos).transactions(),
                                Ok((txs, order)) => r is Ok && r->Ok_0 is Exchanged && r->Ok_0->Exchanged_0@ == txs
                                    && r->Ok_0->Exchanged_1 == order && final(repos).transactions() == old(repos).transactions() + txs,
                            },
                        },
                        Ok(TransactionType::WithdrawalExchange(..)) => r is Err && r->Err_0@ == failure(
                            ErrorKindView::MalformedInput,
                            ErrorContext::NotSupported,
                        ) && final(repos).transactions() == old(repos).transactions(),
                    }
                },
            },
    {
        let user = self.auth.authenticate(repos, token)?;
        let input = CreateTransactionInput { user_id: user.id, ..input };
        let tx_type = self.classifier.validate_and_classify_transaction(repos, &input, now, converted)?;
        match tx_type {
            TransactionType::Internal(from_account, to_account) => {
                let tx = self.create_internal_mono_currency_tx(repos, &input, from_account, to_account, now)?;
                let mut txs: Vec<Transaction> = Vec::new();
                txs.push(tx);
                proof {
                    assert(txs@ =~= seq![tx]);
                }
                Ok(TransactionGroup::Stored(txs))
            },
            TransactionType::Withdrawal(from_account, address, currency) => Ok(
                TransactionGroup::Withdrawal(from_account, address, currency),
            ),
            TransactionType::InternalExchange(from, to, exchange_id, rate) => {
                let c = match converted {
                    Some(c) => c,
                    None => {
                        return Err(
                            Error { kind: ErrorKind::MalformedInput, context: Some(ErrorContext::MissingExchangeRate) },
                        );
                    },
                };
                let (txs, order) = self.create_internal_multi_currency_tx(
                    repos,
                    &input,
                    from,
                    to,
                    exchange_id,
                    rate,
                    c,
                    now,
                )?;
                Ok(TransactionGroup::Exchanged(txs, order))
            },
            TransactionType::WithdrawalExchange(..) => Err(
                Error { kind: ErrorKind::MalformedInput, context: Some(ErrorContext::NotSupported) },
            ),
        }
    }
}

} // verus!
