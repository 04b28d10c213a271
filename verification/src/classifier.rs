//! Validation and classification of transfer requests: which accounts are
//! involved, whether the daily limit allows the transfer, and whether it is an
//! internal transfer, a withdrawal to the blockchain, or either with an exchange.
use vstd::prelude::*;
use crate::error::{failure, invalid_input, res_view, Error, ErrorContext, ErrorKind, ErrorKindView, ErrorView};
use crate::lookup::first_match;
use crate::models::{
    spec_parse_uuid, Account, AccountId, AccountKind, Amount, CreateTransactionInput, Currency, ExchangeId,
    ExchangeRate, RecepientType, Transaction,
};
use crate::repos::{at_address, has_account_id, has_address, spending, Repos};

verus! {

/// What a transfer request turned out to be.
#[derive(Debug)]
pub enum TransactionType {
    /// Between two accounts of the same currency in the wallet.
    Internal(Account, Account),
    /// From an account to an outside blockchain address, same currency.
    Withdrawal(Account, String, Currency),
    /// Between two accounts of different currencies, at an agreed rate.
    InternalExchange(Account, Account, ExchangeId, ExchangeRate),
    /// To an outside address in another currency, at an agreed rate.
    WithdrawalExchange(Account, String, Currency, ExchangeId, ExchangeRate),
}

/// The start of the period that the daily limit covers.
pub open spec fn period_start(now: u64, period: u64) -> u64 {
    if now >= period {
        (now - period) as u64
    } else {
        0
    }
}

/// The value of the request in the currency of the paying account: the value
/// itself, or, when it is given in the recipient's currency, its conversion at
/// the agreed rate (`converted`, supplied by the caller).
pub open spec fn from_value(input: CreateTransactionInput, from_currency: Currency, converted: Option<Amount>) -> Result<
    Amount,
    ErrorView,
> {
    if input.value_currency == from_currency {
        Ok(input.value)
    } else if input.value_currency == input.to_currency {
        if input.exchange_rate is Some && converted is Some {
            Ok(converted->0)
        } else {
            Err(failure(ErrorKindView::MalformedInput, ErrorContext::MissingExchangeRate))
        }
    } else {
        Err(failure(ErrorKindView::MalformedInput, ErrorContext::InvalidCurrency))
    }
}

/// The recipient account named by the request: for an account id, the stored
/// account, which must have the requested currency; for an address, the
/// credit account of that currency at the address, if there is one.
pub open spec fn to_account(accounts: Seq<Account>, input: CreateTransactionInput) -> Result<Option<Account>, ErrorView> {
    match input.to_type {
        RecepientType::Account => match spec_parse_uuid(input.to.0@) {
            None => Err(failure(ErrorKindView::MalformedInput, ErrorContext::InvalidUuid)),
            Some(v) => match first_match(accounts, has_account_id(AccountId(v))) {
                None => Err(failure(ErrorKindView::NotFound, ErrorContext::NoAccount)),
                Some(a) => if a.currency != input.to_currency {
                    Err(failure(ErrorKindView::MalformedInput, ErrorContext::InvalidCurrency))
                } else {
                    Ok(Some(a))
                },
            },
        },
        RecepientType::Address => Ok(
            first_match(accounts, has_address(input.to.0@, input.to_currency, AccountKind::Cr)),
        ),
    }
}

/// The type of the transfer, given its paying and receiving accounts. A
/// request to an address that no credit account of the requested currency has,
/// but that some account of the wallet has, is refused: the user most likely
/// picked the wrong currency for one of their own addresses.
pub open spec fn transaction_type(
    accounts: Seq<Account>,
    input: CreateTransactionInput,
    from: Account,
    to: Option<Account>,
) -> Result<TransactionType, ErrorView> {
    match to {
        Some(t) => if from.currency != t.currency {
            match (input.exchange_id, input.exchange_rate) {
                (Some(id), Some(rate)) => Ok(TransactionType::InternalExchange(from, t, id, rate)),
                _ => Err(failure(ErrorKindView::MalformedInput, ErrorContext::MissingExchangeRate)),
            }
        } else {
            Ok(TransactionType::Internal(from, t))
        },
        None => if accounts.filter(at_address(input.to.0@)).len() != 0 {
            Err(failure(ErrorKindView::MalformedInput, ErrorContext::InvalidCurrency))
        } else if from.currency != input.to_currency {
            match (input.exchange_id, input.exchange_rate) {
                (Some(id), Some(rate)) => Ok(
                    TransactionType::WithdrawalExchange(from, input.to.0, input.to_currency, id, rate),
                ),
                _ => Err(failure(ErrorKindView::MalformedInput, ErrorContext::MissingExchangeRate)),
            }
        } else {
            Ok(TransactionType::Withdrawal(from, input.to.0, input.to_currency))
        },
    }
}

/// Validates and classifies transfer requests, enforcing a spending limit per
/// account and period.
#[derive(Clone, Copy, Debug)]
pub struct ClassifierServiceImpl {
    pub stq_wei_limit: Amount,
    pub eth_wei_limit: Amount,
    pub btc_satoshi_limit: Amount,
    /// Length of the period that the limits cover, in seconds.
    pub limit_period_secs: u64,
}

impl ClassifierServiceImpl {
    pub fn new(stq_wei_limit: Amount, eth_wei_limit: Amount, btc_satoshi_limit: Amount, limit_period_secs: u64) -> (r:
        Self)
        ensures
            r.stq_wei_limit == stq_wei_limit,
            r.eth_wei_limit == eth_wei_limit,
            r.btc_satoshi_limit == btc_satoshi_limit,
            r.limit_period_secs == limit_period_secs,
    {
        ClassifierServiceImpl { stq_wei_limit, eth_wei_limit, btc_satoshi_limit, limit_period_secs }
    }

    pub open spec fn limit_for(self, currency: Currency) -> Amount {
        match currency {
            Currency::Btc => self.btc_satoshi_limit,
            Currency::Eth => self.eth_wei_limit,
            Currency::Stq => self.stq_wei_limit,
        }
    }

    /// The spending-limit check: what the account paid out during the period
    /// plus the value of this request must not exceed the limit of its currency.
    pub open spec fn daily_limit(
        self,
        txs: Seq<Transaction>,
        input: CreateTransactionInput,
        account: Account,
        now: u64,
        converted: Option<Amount>,
    ) -> Result<(), ErrorView> {
        let spent = spending(txs, account.id, account.kind, period_start(now, self.limit_period_secs));
        if spent > u128::MAX {
            Err(failure(ErrorKindView::Internal, ErrorContext::BalanceOverflow))
        } else {
            match from_value(input, account.currency, converted) {
                Err(e) => Err(e),
                Ok(v) => if spent + v.0 > u128::MAX {
                    Err(failure(ErrorKindView::Internal, ErrorContext::BalanceOverflow))
                } else if spent + v.0 > self.limit_for(account.currency).0 {
                    Err(
                        failure(
                            ErrorKindView::InvalidInput("exceeded_daily_limit"@),
                            ErrorContext::LimitExceeded,
                        ),
                    )
                } else {
                    Ok(())
                },
            }
        }
    }

    /// The outcome of `validate_and_classify_transaction`.
    pub open spec fn classify(
        self,
        accounts: Seq<Account>,
        txs: Seq<Transaction>,
        input: CreateTransactionInput,
        now: u64,
        converted: Option<Amount>,
    ) -> Result<TransactionType, ErrorView> {
        if !input.spec_valid() {
            Err(ErrorView { kind: ErrorKindView::InvalidInput("exchange_rate"@), context: None })
        } else {
            match first_match(accounts, has_account_id(input.from)) {
                None => Err(failure(ErrorKindView::NotFound, ErrorContext::NoAccount)),
                Some(from) => match self.daily_limit(txs, input, from, now, converted) {
                    Err(e) => Err(e),
                    Ok(_) => match to_account(accounts, input) {
                        Err(e) => Err(e),
                        Ok(to) => transaction_type(accounts, input, from, to),
                    },
                },
            }
        }
    }

    /// Once a request is refused for the daily limit, a request for a larger
    /// value from the same account in the same situation is refused too.
    pub proof fn law_daily_limit_refuses_larger(
        self,
        txs: Seq<Transaction>,
        input: CreateTransactionInput,
        account: Account,
        now: u64,
        converted: Option<Amount>,
        larger: Amount,
    )
        requires
            self.daily_limit(txs, input, account, now, converted) is Err,
            self.daily_limit(txs, input, account, now, converted)->Err_0.context == Some(ErrorContext::LimitExceeded),
            input.value_currency == account.currency,
            larger.0 >= input.value.0,
        ensures
            self.daily_limit(txs, CreateTransactionInput { value: larger, ..input }, account, now, converted) is Err,
    {
    }

    /// The daily limit that a request meets is the configured limit of the
    /// paying account's own currency: for a request in that currency, what
    /// the account paid out during the period plus the request's value is
    /// refused for the limit exactly when it exceeds the ether limit for an
    /// ether account, the token limit for a token account and the bitcoin
    /// limit for a bitcoin account, whatever the other limits are.
    pub proof fn law_limit_of_the_paying_currency(
        self,
        txs: Seq<Transaction>,
        input: CreateTransactionInput,
        account: Account,
        now: u64,
        converted: Option<Amount>,
    )
        requires
            input.value_currency == account.currency,
            spending(txs, account.id, account.kind, period_start(now, self.limit_period_secs)) + input.value.0
                <= u128::MAX,
        ensures
            ({
                let total = spending(txs, account.id, account.kind, period_start(now, self.limit_period_secs))
                    + input.value.0;
                let r = self.daily_limit(txs, input, account, now, converted);
                let refused = r == Err::<(), ErrorView>(
                    failure(ErrorKindView::InvalidInput("exceeded_daily_limit"@), ErrorContext::LimitExceeded),
                );
                &&& r is Ok || refused
                &&& account.currency == Currency::Eth ==> (refused <==> total > self.eth_wei_limit.0)
                &&& account.currency == Currency::Stq ==> (refused <==> total > self.stq_wei_limit.0)
                &&& account.currency == Currency::Btc ==> (refused <==> total > self.btc_satoshi_limit.0)
            }),
    {
    }

    fn check_account_daily_limit(
        &self,
        repos: &Repos,
        input: &CreateTransactionInput,
        account: &Account,
        now: u64,
        converted: Option<Amount>,
    ) -> (r: Result<(), Error>)
        ensures
            res_view(r) == self.daily_limit(repos.transactions(), *input, *account, now, converted),
    {
        let since = if now >= self.limit_period_secs {
            now - self.limit_period_secs
        } else {
            0
        };
        let spent = repos.account_spending(account.id, account.kind, since)?;
        let value = if input.value_currency == account.currency {
            input.value
        } else if input.value_currency == input.to_currency {
            match (input.exchange_rate, converted) {
                (Some(_), Some(v)) => v,
                _ => {
                    return Err(
                        Error { kind: ErrorKind::MalformedInput, context: Some(ErrorContext::MissingExchangeRate) },
                    );
                },
            }
        } else {
            return Err(Error { kind: ErrorKind::MalformedInput, context: Some(ErrorContext::InvalidCurrency) });
        };
        let total = match spent.checked_add(value) {
            Some(t) => t,
            None => {
                return Err(Error { kind: ErrorKind::Internal, context: Some(ErrorContext::BalanceOverflow) });
            },
        };
        let limit = match account.currency {
            Currency::Btc => self.btc_satoshi_limit,
            Currency::Eth => self.eth_wei_limit,
            Currency::Stq => self.stq_wei_limit,
        };
        if total.0 > limit.0 {
            return Err(
                Error { kind: invalid_input("exceeded_daily_limit"), context: Some(ErrorContext::LimitExceeded) },
            );
        }
        Ok(())
    }

    fn get_from_account(&self, repos: &Repos, input: &CreateTransactionInput) -> (r: Result<Account, Error>)
        ensures
            res_view(r) == (match first_match(repos.accounts(), has_account_id(input.from)) {
                None => Err(failure(ErrorKindView::NotFound, ErrorContext::NoAccount)),
                Some(a) => Ok(a),
            }),
    {
        match repos.get_account(input.from) {
            Some(a) => Ok(a),
            None => Err(Error { kind: ErrorKind::NotFound, context: Some(ErrorContext::NoAccount) }),
        }
    }

    fn get_to_account(&self, repos: &Repos, input: &CreateTransactionInput) -> (r: Result<Option<Account>, Error>)
        ensures
            res_view(r) == to_account(repos.accounts(), *input),
    {
        match input.to_type {
            RecepientType::Account => {
                let to_account_id = match input.to.to_account_id() {
                    Some(id) => id,
                    None => {
                        return Err(
                            Error { kind: ErrorKind::MalformedInput, context: Some(ErrorContext::InvalidUuid) },
                        );
                    },
                };
                let to_account = match repos.get_account(to_account_id) {
                    Some(a) => a,
                    None => {
                        return Err(Error { kind: ErrorKind::NotFound, context: Some(ErrorContext::NoAccount) });
                    },
                };
                if to_account.currency != input.to_currency {
                    return Err(
                        Error { kind: ErrorKind::MalformedInput, context: Some(ErrorContext::InvalidCurrency) },
                    );
                }
                Ok(Some(to_account))
            },
            RecepientType::Address => {
                let to_address = input.to.to_account_address();
                Ok(repos.get_account_by_address(&to_address, input.to_currency, AccountKind::Cr))
            },
        }
    }

    fn get_transaction_type(
        &self,
        repos: &Repos,
        input: &CreateTransactionInput,
        from_account: Account,
        to_account: Option<Account>,
    ) -> (r: Result<TransactionType, Error>)
        ensures
            res_view(r) == transaction_type(repos.accounts(), *input, from_account, to_account),
    {
        match to_account {
            Some(to_account) => {
                if from_account.currency != to_account.currency {
                    match (input.exchange_id, input.exchange_rate) {
                        (Some(id), Some(rate)) => Ok(TransactionType::InternalExchange(from_account, to_account, id, rate)),
                        _ => Err(
                            Error {
                                kind: ErrorKind::MalformedInput,
                                context: Some(ErrorContext::MissingExchangeRate),
                            },
                        ),
                    }
                } else {
                    Ok(TransactionType::Internal(from_account, to_account))
                }
            },
            None => {
                let to_address = input.to.to_account_address();
                let accounts = repos.filter_accounts_by_address(&to_address);
                if accounts.len() != 0 {
                    return Err(
                        Error { kind: ErrorKind::MalformedInput, context: Some(ErrorContext::InvalidCurrency) },
                    );
                }
                if from_account.currency != input.to_currency {
                    match (input.exchange_id, input.exchange_rate) {
                        (Some(id), Some(rate)) => Ok(
                            TransactionType::WithdrawalExchange(from_account, to_address, input.to_currency, id, rate),
                        ),
                        _ => Err(
                            Error {
                                kind: ErrorKind::MalformedInput,
                                context: Some(ErrorContext::MissingExchangeRate),
                            },
                        ),
                    }
                } else {
                    Ok(TransactionType::Withdrawal(from_account, to_address, input.to_currency))
                }
            },
        }
    }

    /// Validates a transfer request at time `now` and says what kind of
    /// transfer it is. `converted` is the request's value converted at the
    /// agreed rate into the paying account's currency, needed only when the
    /// value is given in the recipient's currency.
    pub fn validate_and_classify_transaction(
        &self,
        repos: &Repos,
        input: &CreateTransactionInput,
        now: u64,
        converted: Option<Amount>,
    ) -> (r: Result<TransactionType, Error>)
        ensures
            res_view(r) == self.classify(repos.accounts(), repos.transactions(), *input, now, converted),
    {
        if !input.validate() {
            return Err(Error { kind: invalid_input("exchange_rate"), context: None });
        }
        let from_account = self.get_from_account(repos, input)?;
        self.check_account_daily_limit(repos, input, &from_account, now, converted)?;
        let to_account = self.get_to_account(repos, input)?;
        self.get_transaction_type(repos, input, from_account, to_account)
    }
}

} // verus!
