use transactions_lib::converter::ConverterServiceImpl;
use transactions_lib::error::{ErrorContext, ErrorKind};
use transactions_lib::models::{
    Account, AccountId, AccountKind, Amount, BlockchainTransaction, BlockchainTransactionEntryTo, Currency, NewTransaction,
    Transaction, TransactionGroupKind, TransactionId, TransactionKind, TransactionStatus, User, UserId,
};
use transactions_lib::auth::AuthServiceImpl;
use transactions_lib::classifier::ClassifierServiceImpl;
use transactions_lib::repos::{PendingBlockchainTransaction, Repos};
use transactions_lib::system::{SystemAccountIds, SystemServiceImpl};
use transactions_lib::transactions::TransactionsServiceImpl;

fn ids() -> SystemAccountIds {
    SystemAccountIds {
        btc_transfer_account_id: AccountId(101),
        eth_transfer_account_id: AccountId(102),
        stq_transfer_account_id: AccountId(103),
        btc_liquidity_account_id: AccountId(104),
        eth_liquidity_account_id: AccountId(105),
        stq_liquidity_account_id: AccountId(106),
        btc_fees_account_id: AccountId(107),
        eth_fees_account_id: AccountId(108),
        stq_fees_account_id: AccountId(109),
        btc_fees_dr_account_id: AccountId(110),
        eth_fees_dr_account_id: AccountId(111),
        stq_fees_dr_account_id: AccountId(112),
    }
}

fn account(repos: &mut Repos, id: u128, user: u128, currency: Currency, address: &str, kind: AccountKind) -> Account {
    let a = Account {
        id: AccountId(id),
        user_id: UserId(user),
        currency,
        address: address.to_string(),
        name: None,
        kind,
        erc20_approved: false,
    };
    repos.create_account(a.clone());
    a
}

/// Books a done transfer that an account outside the store (so unbound by
/// the ledger's constraint) makes, giving the accounts that the next booking
/// lowers the balance it needs.
fn cover(repos: &mut Repos, id: u128, dr: AccountId, cr: AccountId, currency: Currency, value: u128) {
    repos
        .create_transaction(
            NewTransaction {
                id: TransactionId(id),
                gid: TransactionId(id),
                user_id: UserId(0),
                dr_account_id: dr,
                cr_account_id: cr,
                currency,
                value: Amount::new(value),
                status: TransactionStatus::Done,
                blockchain_tx_id: None,
                kind: TransactionKind::Deposit,
                group_kind: TransactionGroupKind::Deposit,
                related_tx: None,
            },
            1,
        )
        .unwrap();
}

fn tx(repos: &mut Repos, id: u128, gid: u128, dr: &Account, cr: &Account, value: u128, hash: Option<&str>) -> Transaction {
    let outside = AccountId(999_999);
    if dr.kind == AccountKind::Cr {
        cover(repos, 900_000 + id, outside, dr.id, dr.currency, value);
    }
    if cr.kind == AccountKind::Dr {
        cover(repos, 800_000 + id, cr.id, outside, cr.currency, value);
    }
    repos.create_transaction(
        NewTransaction {
            id: TransactionId(id),
            gid: TransactionId(gid),
            user_id: UserId(1),
            dr_account_id: dr.id,
            cr_account_id: cr.id,
            currency: cr.currency,
            value: Amount::new(value),
            status: TransactionStatus::Done,
            blockchain_tx_id: hash.map(|h| h.to_string()),
            kind: TransactionKind::Internal,
            group_kind: TransactionGroupKind::Internal,
            related_tx: None,
        },
        id as u64,
    )
    .unwrap()
}

#[test]
fn transfer_between_wallets_shows_both_accounts() {
    let mut repos = Repos::new();
    let a = account(&mut repos, 1, 1, Currency::Eth, "0xa", AccountKind::Cr);
    let b = account(&mut repos, 2, 2, Currency::Eth, "0xb", AccountKind::Cr);
    let t = tx(&mut repos, 10, 10, &a, &b, 5, None);
    let converter = ConverterServiceImpl::new(SystemServiceImpl::new(ids()));
    assert!(converter.is_convertible(&vec![t.clone()]));
    let out = converter.convert_transaction(&repos, vec![t]).unwrap();
    assert_eq!(out.id, TransactionId(10));
    assert_eq!(out.from.len(), 1);
    assert_eq!(out.from[0].account_id, Some(a.id));
    assert_eq!(out.from[0].blockchain_address, "0xa");
    assert_eq!(out.to.account_id, Some(b.id));
    assert_eq!(out.from_value, Amount::new(5));
    assert_eq!(out.to_value, Amount::new(5));
    assert_eq!(out.fee, Amount::new(0));
    assert_eq!(out.created_at, 10);
}

#[test]
fn deposit_shows_the_senders_of_its_blockchain_transaction() {
    let mut repos = Repos::new();
    let dr = account(&mut repos, 1, 1, Currency::Btc, "1a", AccountKind::Dr);
    let cr = account(&mut repos, 2, 1, Currency::Btc, "1a", AccountKind::Cr);
    let t = tx(&mut repos, 10, 10, &dr, &cr, 5, Some("h"));
    repos.create_blockchain_tx(BlockchainTransaction {
        hash: "h".to_string(),
        from: vec!["1x".to_string(), "1y".to_string(), "1x".to_string()],
        to: vec![BlockchainTransactionEntryTo { address: "1a".to_string(), value: Amount::new(5) }],
        block_number: 1,
        currency: Currency::Btc,
        fee: Amount::new(0),
        confirmations: 3,
        erc20_operation_kind: None,
    });
    let converter = ConverterServiceImpl::new(SystemServiceImpl::new(ids()));
    let out = converter.convert_transaction(&repos, vec![t]).unwrap();
    assert_eq!(out.from.len(), 2);
    assert_eq!(out.from[0].blockchain_address, "1x");
    assert_eq!(out.from[1].blockchain_address, "1y");
    assert_eq!(out.from[0].account_id, None);
    assert_eq!(out.to.account_id, Some(cr.id));
    assert_eq!(out.blockchain_tx_id, Some("h".to_string()));
}

#[test]
fn waiting_withdrawal_shows_its_receiver() {
    let mut repos = Repos::new();
    let dr = account(&mut repos, 1, 1, Currency::Eth, "0xa", AccountKind::Dr);
    let cr = account(&mut repos, 2, 1, Currency::Eth, "0xa", AccountKind::Cr);
    let t = tx(&mut repos, 10, 10, &cr, &dr, 5, Some("h"));
    repos.create_pending(PendingBlockchainTransaction {
        hash: "h".to_string(),
        from: "0xa".to_string(),
        to: "0xout".to_string(),
        currency: Currency::Eth,
        value: Amount::new(5),
    });
    let converter = ConverterServiceImpl::new(SystemServiceImpl::new(ids()));
    let out = converter.convert_transaction(&repos, vec![t]).unwrap();
    assert_eq!(out.from[0].account_id, Some(cr.id));
    assert_eq!(out.to.account_id, None);
    assert_eq!(out.to.blockchain_address, "0xout");
}

#[test]
fn deposit_without_blockchain_record_is_not_found() {
    let mut repos = Repos::new();
    let dr = account(&mut repos, 1, 1, Currency::Btc, "1a", AccountKind::Dr);
    let cr = account(&mut repos, 2, 1, Currency::Btc, "1a", AccountKind::Cr);
    let t = tx(&mut repos, 10, 10, &dr, &cr, 5, Some("h"));
    let converter = ConverterServiceImpl::new(SystemServiceImpl::new(ids()));
    let err = converter.convert_transaction(&repos, vec![t]).unwrap_err();
    assert!(matches!(err.kind, ErrorKind::NotFound));
    assert_eq!(err.context, Some(ErrorContext::NoTransaction));
}

#[test]
fn exchange_shows_paying_and_receiving_legs() {
    let mut repos = Repos::new();
    let a = account(&mut repos, 1, 1, Currency::Btc, "1a", AccountKind::Cr);
    let b = account(&mut repos, 2, 1, Currency::Eth, "0xb", AccountKind::Cr);
    let btc_liq = account(&mut repos, 104, 0, Currency::Btc, "1liq", AccountKind::Cr);
    let eth_liq = account(&mut repos, 105, 0, Currency::Eth, "0xliq", AccountKind::Cr);
    let t1 = tx(&mut repos, 10, 10, &a, &btc_liq, 100, None);
    let t2 = tx(&mut repos, 11, 10, &eth_liq, &b, 3000, None);
    let converter = ConverterServiceImpl::new(SystemServiceImpl::new(ids()));
    for group in [vec![t1.clone(), t2.clone()], vec![t2.clone(), t1.clone()]] {
        assert!(converter.is_convertible(&group));
        let out = converter.convert_transaction(&repos, group).unwrap();
        assert_eq!(out.id, TransactionId(10));
        assert_eq!(out.from[0].account_id, Some(a.id));
        assert_eq!(out.to.account_id, Some(b.id));
        assert_eq!(out.from_value, Amount::new(100));
        assert_eq!(out.from_currency, Currency::Btc);
        assert_eq!(out.to_value, Amount::new(3000));
        assert_eq!(out.to_currency, Currency::Eth);
    }
}

#[test]
fn groups_of_one_group_id_are_convertible() {
    let mut repos = Repos::new();
    let a = account(&mut repos, 1, 1, Currency::Eth, "0xa", AccountKind::Cr);
    let b = account(&mut repos, 2, 2, Currency::Eth, "0xb", AccountKind::Cr);
    account(&mut repos, 105, 0, Currency::Eth, "0xliq", AccountKind::Cr);
    let t1 = tx(&mut repos, 10, 10, &a, &b, 5, None);
    let t2 = tx(&mut repos, 11, 10, &a, &b, 6, None);
    let t3 = tx(&mut repos, 12, 12, &a, &b, 7, None);
    let converter = ConverterServiceImpl::new(SystemServiceImpl::new(ids()));
    assert!(!converter.is_convertible(&vec![]));
    assert!(!converter.is_convertible(&vec![t1.clone(), t3.clone()]));
    assert!(converter.is_convertible(&vec![t1.clone(), t2.clone()]));
    assert!(converter.is_convertible(&vec![t1.clone(), t2.clone(), t1.clone()]));
    // two transfers of one group that are no exchange are shown as one
    let out = converter.convert_transaction(&repos, vec![t1, t2]).unwrap();
    assert_eq!(out.id, TransactionId(10));
    assert_eq!(out.from_value, Amount::new(11));
    assert_eq!(out.to_value, Amount::new(11));
    assert_eq!(out.fee, Amount::new(0));
}

#[test]
fn withdrawal_group_is_shown_with_its_fee() {
    let mut repos = Repos::new();
    let a = account(&mut repos, 1, 1, Currency::Eth, "0xa", AccountKind::Cr);
    let d1 = account(&mut repos, 2, 1, Currency::Eth, "0xa", AccountKind::Dr);
    let d2 = account(&mut repos, 3, 2, Currency::Eth, "0xb", AccountKind::Dr);
    let fees = account(&mut repos, 108, 0, Currency::Eth, "0xfees", AccountKind::Cr);
    account(&mut repos, 105, 0, Currency::Eth, "0xliq", AccountKind::Cr);
    let mut fee = tx(&mut repos, 20, 20, &a, &fees, 2, None);
    fee.kind = TransactionKind::Fee;
    let mut p1 = tx(&mut repos, 21, 20, &a, &d1, 30, Some("h1"));
    p1.kind = TransactionKind::Withdrawal;
    p1.status = TransactionStatus::Pending;
    let mut p2 = tx(&mut repos, 22, 20, &a, &d2, 20, Some("h2"));
    p2.kind = TransactionKind::Withdrawal;
    repos.create_pending(PendingBlockchainTransaction {
        hash: "h1".to_string(),
        from: "0xa".to_string(),
        to: "0xout".to_string(),
        currency: Currency::Eth,
        value: Amount::new(30),
    });
    let converter = ConverterServiceImpl::new(SystemServiceImpl::new(ids()));
    let out = converter.convert_transaction(&repos, vec![fee, p1, p2]).unwrap();
    assert_eq!(out.id, TransactionId(21));
    assert_eq!(out.from[0].account_id, Some(a.id));
    assert_eq!(out.to.blockchain_address, "0xout");
    assert_eq!(out.from_value, Amount::new(50));
    assert_eq!(out.to_value, Amount::new(50));
    assert_eq!(out.fee, Amount::new(2));
    assert_eq!(out.status, TransactionStatus::Pending);
    assert_eq!(out.blockchain_tx_id, Some("h1".to_string()));
}

#[test]
fn a_transaction_is_shown_to_its_owner_only() {
    let mut repos = Repos::new();
    repos.create_user(User { id: UserId(1), name: "alice".to_string(), authentication_token: "t1".to_string() });
    repos.create_user(User { id: UserId(2), name: "bob".to_string(), authentication_token: "t2".to_string() });
    let a = account(&mut repos, 1, 1, Currency::Eth, "0xa", AccountKind::Cr);
    let b = account(&mut repos, 2, 2, Currency::Eth, "0xb", AccountKind::Cr);
    tx(&mut repos, 10, 10, &a, &b, 5, None);
    let service = TransactionsServiceImpl::new(
        AuthServiceImpl::new(),
        SystemServiceImpl::new(ids()),
        ClassifierServiceImpl::new(Amount::new(1), Amount::new(1), Amount::new(1), 1),
    );
    let out = service.get_transaction(&repos, Some("t1".to_string()), TransactionId(10)).unwrap().unwrap();
    assert_eq!(out.to.account_id, Some(b.id));
    assert!(service.get_transaction(&repos, Some("t1".to_string()), TransactionId(99)).unwrap().is_none());
    let err = service.get_transaction(&repos, Some("t2".to_string()), TransactionId(10)).unwrap_err();
    assert!(matches!(err.kind, ErrorKind::Unauthorized));
    let balance = service.get_account_balance(&repos, Some("t2".to_string()), b.id).unwrap();
    assert_eq!(balance.balance, Amount::new(5));
    let err = service.get_account_balance(&repos, Some("t2".to_string()), AccountId(77)).unwrap_err();
    assert_eq!(err.context, Some(ErrorContext::NoAccount));
}

#[test]
fn transfer_between_debit_accounts_cannot_be_shown() {
    let mut repos = Repos::new();
    let a = account(&mut repos, 1, 1, Currency::Eth, "0xa", AccountKind::Dr);
    let b = account(&mut repos, 2, 1, Currency::Eth, "0xb", AccountKind::Dr);
    let t = tx(&mut repos, 10, 10, &a, &b, 5, None);
    let converter = ConverterServiceImpl::new(SystemServiceImpl::new(ids()));
    let err = converter.convert_transaction(&repos, vec![t]).unwrap_err();
    assert!(matches!(err.kind, ErrorKind::Internal));
    assert_eq!(err.context, Some(ErrorContext::InvalidTransaction));
}
