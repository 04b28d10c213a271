use transactions_lib::auth::AuthServiceImpl;
use transactions_lib::classifier::ClassifierServiceImpl;
use transactions_lib::error::{ErrorContext, ErrorKind};
use transactions_lib::models::{
    Account, AccountId, AccountKind, Amount, CreateTransactionInput, Currency, ExchangeId, ExchangeRate, NewTransaction,
    Recepient, RecepientType, TransactionGroupKind, TransactionId, TransactionKind, TransactionStatus, User, UserId,
};
use transactions_lib::queries::group_transactions;
use transactions_lib::repos::Repos;
use transactions_lib::system::{SystemAccountIds, SystemServiceImpl};
use transactions_lib::transactions::{TransactionGroup, TransactionsServiceImpl};
use transactions_lib::withdrawal::WithdrawalOptions;

const ETH: u128 = 1_000_000_000_000_000_000;

fn ids() -> SystemAccountIds {
    SystemAccountIds {
        btc_transfer_account_id: AccountId(101),
        eth_transfer_account_id: AccountId(102),
        stq_transfer_account_id: AccountId(103),
        btc_liquidity_account_id: AccountId(104),
        eth_liquidity_account_id: AccountId(105),
        stq_liquidity_account_id: AccountId(106),
        btc_fees_account_id: AccountId(107),
        eth_fees_account_id: AccountId(108),
        stq_fees_account_id: AccountId(109),
        btc_fees_dr_account_id: AccountId(110),
        eth_fees_dr_account_id: AccountId(111),
        stq_fees_dr_account_id: AccountId(112),
    }
}

fn account(repos: &mut Repos, id: u128, user: u128, currency: Currency, address: &str, kind: AccountKind) -> Account {
    let a = Account {
        id: AccountId(id),
        user_id: UserId(user),
        currency,
        address: address.to_string(),
        name: None,
        kind,
        erc20_approved: false,
    };
    repos.create_account(a.clone());
    a
}

fn fund(repos: &mut Repos, from: &Account, to: &Account, value: u128, id: u128) {
    repos.create_transaction(
        NewTransaction {
            id: TransactionId(id),
            gid: TransactionId(id),
            user_id: to.user_id,
            dr_account_id: from.id,
            cr_account_id: to.id,
            currency: to.currency,
            value: Amount::new(value),
            status: TransactionStatus::Done,
            blockchain_tx_id: None,
            kind: TransactionKind::Deposit,
            group_kind: TransactionGroupKind::Deposit,
            related_tx: None,
        },
        1,
    )
    .unwrap();
}

fn service() -> TransactionsServiceImpl {
    TransactionsServiceImpl::new(
        AuthServiceImpl::new(),
        SystemServiceImpl::new(ids()),
        ClassifierServiceImpl::new(Amount::new(1_000_000 * ETH), Amount::new(1_000_000 * ETH), Amount::new(u128::MAX / 2), 86400),
    )
}

fn setup() -> Repos {
    let mut repos = Repos::new();
    repos.create_user(User { id: UserId(1), name: "alice".to_string(), authentication_token: "t1".to_string() });
    repos.create_user(User { id: UserId(2), name: "bob".to_string(), authentication_token: "t2".to_string() });
    account(&mut repos, 104, 0, Currency::Btc, "btc-liquidity", AccountKind::Cr);
    account(&mut repos, 105, 0, Currency::Eth, "0xeth-liquidity", AccountKind::Cr);
    account(&mut repos, 108, 0, Currency::Eth, "0xeth-fees", AccountKind::Cr);
    account(&mut repos, 111, 0, Currency::Eth, "0xeth-fees", AccountKind::Dr);
    repos
}

fn request(id: u128, from: AccountId, to: &str, to_type: RecepientType, currency: Currency, value: u128) -> CreateTransactionInput {
    CreateTransactionInput {
        id: TransactionId(id),
        user_id: UserId(0),
        from,
        to: Recepient::new(to.to_string()),
        to_type,
        to_currency: currency,
        value: Amount::new(value),
        value_currency: currency,
        fee: Amount::new(0),
        exchange_id: None,
        exchange_rate: None,
    }
}

fn uuid_text(id: AccountId) -> String {
    uuid::Uuid::from_u128(id.0).to_string()
}

fn balance(repos: &Repos, a: &Account) -> u128 {
    repos.account_balance(a.id, a.kind).unwrap().raw()
}

#[test]
fn internal_transfer_moves_the_value() {
    let mut repos = setup();
    let d = account(&mut repos, 1, 1, Currency::Eth, "0xa", AccountKind::Dr);
    let a = account(&mut repos, 2, 1, Currency::Eth, "0xa", AccountKind::Cr);
    let b = account(&mut repos, 3, 2, Currency::Eth, "0xb", AccountKind::Cr);
    fund(&mut repos, &d, &a, 100, 9000);
    let input = request(500, a.id, &uuid_text(b.id), RecepientType::Account, Currency::Eth, 30);
    let res = service().create_transaction(&mut repos, Some("t1".to_string()), input, 10, None).unwrap();
    match res {
        TransactionGroup::Stored(txs) => {
            assert_eq!(txs.len(), 1);
            assert_eq!(txs[0].id, TransactionId(500));
            assert_eq!(txs[0].gid, TransactionId(500));
            assert_eq!(txs[0].user_id, UserId(1));
            assert_eq!(txs[0].status, TransactionStatus::Done);
            assert_eq!(txs[0].kind, TransactionKind::Internal);
        }
        other => panic!("unexpected {:?}", other),
    }
    assert_eq!(balance(&repos, &a), 70);
    assert_eq!(balance(&repos, &b), 30);
    assert_eq!(balance(&repos, &d), 100);
}

#[test]
fn transfer_beyond_the_balance_is_refused_and_changes_nothing() {
    let mut repos = setup();
    let d = account(&mut repos, 1, 1, Currency::Eth, "0xa", AccountKind::Dr);
    let a = account(&mut repos, 2, 1, Currency::Eth, "0xa", AccountKind::Cr);
    let b = account(&mut repos, 3, 2, Currency::Eth, "0xb", AccountKind::Cr);
    fund(&mut repos, &d, &a, 10, 9000);
    let before = repos.transactions_len();
    let input = request(500, a.id, "0xb", RecepientType::Address, Currency::Eth, 30);
    let err = service().create_transaction(&mut repos, Some("t1".to_string()), input, 10, None).unwrap_err();
    assert_eq!(err.context, Some(ErrorContext::NotEnoughFunds));
    match err.kind {
        ErrorKind::InvalidInput(rule) => assert_eq!(rule, "not_enough_balance"),
        other => panic!("unexpected {:?}", other),
    }
    assert_eq!(repos.transactions_len(), before);
    assert_eq!(balance(&repos, &a), 10);
    assert_eq!(balance(&repos, &b), 0);
}

#[test]
fn requests_need_a_known_token() {
    let mut repos = setup();
    let a = account(&mut repos, 2, 1, Currency::Eth, "0xa", AccountKind::Cr);
    let input = request(500, a.id, "0xb", RecepientType::Address, Currency::Eth, 0);
    let err = service().create_transaction(&mut repos, Some("nobody".to_string()), input, 10, None).unwrap_err();
    assert!(matches!(err.kind, ErrorKind::Unauthorized));
    let input = request(500, a.id, "0xb", RecepientType::Address, Currency::Eth, 0);
    let err = service().create_transaction(&mut repos, None, input, 10, None).unwrap_err();
    assert!(matches!(err.kind, ErrorKind::Unauthorized));
}

fn exchange_request(from: &Account, to: &Account, value: u128, value_currency: Currency) -> CreateTransactionInput {
    CreateTransactionInput {
        id: TransactionId(600),
        user_id: UserId(0),
        from: from.id,
        to: Recepient::new(uuid_text(to.id)),
        to_type: RecepientType::Account,
        to_currency: to.currency,
        value: Amount::new(value),
        value_currency,
        fee: Amount::new(0),
        exchange_id: Some(ExchangeId(42)),
        exchange_rate: Some(ExchangeRate(30f64.to_bits())),
    }
}

#[test]
fn exchange_goes_through_the_liquidity_accounts() {
    let mut repos = setup();
    let btc_dr = account(&mut repos, 1, 1, Currency::Btc, "1a", AccountKind::Dr);
    let a = account(&mut repos, 2, 1, Currency::Btc, "1a", AccountKind::Cr);
    let eth_dr = account(&mut repos, 3, 0, Currency::Eth, "0xl", AccountKind::Dr);
    let b = account(&mut repos, 4, 1, Currency::Eth, "0xb", AccountKind::Cr);
    let eth_liquidity = repos.get_account(AccountId(105)).unwrap();
    let btc_liquidity = repos.get_account(AccountId(104)).unwrap();
    fund(&mut repos, &btc_dr, &a, 100_000_000, 9000);
    fund(&mut repos, &eth_dr, &eth_liquidity, 100 * ETH, 9001);
    let input = exchange_request(&a, &b, 100_000_000, Currency::Btc);
    let res = service().create_transaction(&mut repos, Some("t1".to_string()), input, 10, Some(Amount::new(30 * ETH))).unwrap();
    match res {
        TransactionGroup::Exchanged(txs, order) => {
            assert_eq!(txs.len(), 2);
            assert_eq!(txs[0].id, TransactionId(600));
            assert_eq!(txs[1].id, TransactionId(601));
            assert_eq!(txs[0].gid, TransactionId(600));
            assert_eq!(txs[1].gid, TransactionId(600));
            assert_eq!(txs[0].kind, TransactionKind::MultiFrom);
            assert_eq!(txs[1].kind, TransactionKind::MultiTo);
            assert_eq!(order.id, ExchangeId(42));
            assert_eq!(order.from, Currency::Btc);
            assert_eq!(order.to, Currency::Eth);
            assert_eq!(order.actual_amount, Amount::new(100_000_000));
        }
        other => panic!("unexpected {:?}", other),
    }
    assert_eq!(balance(&repos, &a), 0);
    assert_eq!(balance(&repos, &btc_liquidity), 100_000_000);
    assert_eq!(balance(&repos, &eth_liquidity), 70 * ETH);
    assert_eq!(balance(&repos, &b), 30 * ETH);
}

#[test]
fn exchange_fails_whole_when_the_liquidity_cannot_pay() {
    let mut repos = setup();
    let btc_dr = account(&mut repos, 1, 1, Currency::Btc, "1a", AccountKind::Dr);
    let a = account(&mut repos, 2, 1, Currency::Btc, "1a", AccountKind::Cr);
    let b = account(&mut repos, 4, 1, Currency::Eth, "0xb", AccountKind::Cr);
    fund(&mut repos, &btc_dr, &a, 100_000_000, 9000);
    let before = repos.transactions_len();
    let input = exchange_request(&a, &b, 100_000_000, Currency::Btc);
    let err = service()
        .create_transaction(&mut repos, Some("t1".to_string()), input, 10, Some(Amount::new(30 * ETH)))
        .unwrap_err();
    assert_eq!(err.context, Some(ErrorContext::NotEnoughFunds));
    // the paying leg was dropped again
    assert_eq!(repos.transactions_len(), before);
    assert_eq!(balance(&repos, &a), 100_000_000);
}

#[test]
fn exchange_without_the_converted_value_is_refused() {
    let mut repos = setup();
    let a = account(&mut repos, 2, 1, Currency::Btc, "1a", AccountKind::Cr);
    let b = account(&mut repos, 4, 1, Currency::Eth, "0xb", AccountKind::Cr);
    let input = exchange_request(&a, &b, 0, Currency::Btc);
    let err = service().create_transaction(&mut repos, Some("t1".to_string()), input, 10, None).unwrap_err();
    assert_eq!(err.context, Some(ErrorContext::MissingExchangeRate));
}

#[test]
fn withdrawal_with_exchange_is_not_supported() {
    let mut repos = setup();
    let a = account(&mut repos, 2, 1, Currency::Btc, "1a", AccountKind::Cr);
    let mut input = request(700, a.id, "0xoutside", RecepientType::Address, Currency::Eth, 0);
    input.value_currency = Currency::Btc;
    input.exchange_id = Some(ExchangeId(1));
    input.exchange_rate = Some(ExchangeRate(2f64.to_bits()));
    let err = service().create_transaction(&mut repos, Some("t1".to_string()), input, 10, None).unwrap_err();
    assert!(matches!(err.kind, ErrorKind::MalformedInput));
    assert_eq!(err.context, Some(ErrorContext::NotSupported));
}

fn withdrawal_setup() -> (Repos, Account, Account) {
    let mut repos = setup();
    let d = account(&mut repos, 1, 1, Currency::Eth, "0xa", AccountKind::Dr);
    let a = account(&mut repos, 2, 1, Currency::Eth, "0xa", AccountKind::Cr);
    fund(&mut repos, &d, &a, 100, 9000);
    (repos, d, a)
}

#[test]
fn withdrawal_books_fee_and_sent_part() {
    let (mut repos, d, a) = withdrawal_setup();
    let service = service();
    let mut input = request(800, a.id, "0xout", RecepientType::Address, Currency::Eth, 40);
    input.fee = Amount::new(2);
    let res = service.create_transaction(&mut repos, Some("t1".to_string()), input, 10, None).unwrap();
    let (from, address, currency) = match res {
        TransactionGroup::Withdrawal(from, address, currency) => (from, address, currency),
        other => panic!("unexpected {:?}", other),
    };
    assert_eq!(address, "0xout");
    let mut input = request(800, a.id, "0xout", RecepientType::Address, Currency::Eth, 40);
    input.fee = Amount::new(2);
    input.user_id = UserId(1);
    let options = WithdrawalOptions { gid: None, tx_kind: None, tx_group_kind: None, fee_currency: None, fee_payer_account_id: None };
    let mut w = service
        .begin_external_mono_currency_tx(&mut repos, &input, from, address, currency, options, Amount::new(1), 10)
        .unwrap();
    assert_eq!(w.parts.len(), 1);
    assert_eq!(w.parts[0].account.id, d.id);
    assert_eq!(w.parts[0].balance, Amount::new(40));
    let order = service.withdrawal_step(&mut repos, &mut w, 11).unwrap().unwrap();
    assert_eq!(order.from, "0xa");
    assert_eq!(order.to, "0xout");
    assert_eq!(order.value, Amount::new(40));
    assert!(service.withdrawal_sent(&mut repos, &mut w, Ok("0xhash".to_string()), 13).unwrap());
    assert!(service.withdrawal_step(&mut repos, &mut w, 12).unwrap().is_none());
    assert_eq!(w.done.len(), 2);
    assert_eq!(w.done[0].kind, TransactionKind::Fee);
    assert_eq!(w.done[1].id, TransactionId(801));
    assert_eq!(w.done[1].status, TransactionStatus::Pending);
    assert_eq!(w.done[1].blockchain_tx_id, Some("0xhash".to_string()));
    let stored = repos.get_transaction(TransactionId(801)).unwrap();
    assert_eq!(stored.blockchain_tx_id, Some("0xhash".to_string()));
    assert_eq!(stored.created_at, 11);
    assert_eq!(stored.updated_at, 13);
    // 100 - 2 fee - 40 withdrawn
    assert_eq!(balance(&repos, &a), 58);
    // the debit account gave up what it sends
    assert_eq!(balance(&repos, &d), 60);
}

#[test]
fn withdrawal_failing_at_its_first_send_is_dropped() {
    let (mut repos, _d, a) = withdrawal_setup();
    let service = service();
    let before = repos.transactions_len();
    let mut input = request(800, a.id, "0xout", RecepientType::Address, Currency::Eth, 40);
    input.fee = Amount::new(2);
    input.user_id = UserId(1);
    let options = WithdrawalOptions { gid: None, tx_kind: None, tx_group_kind: None, fee_currency: None, fee_payer_account_id: None };
    let mut w = service
        .begin_external_mono_currency_tx(&mut repos, &input, a.clone(), "0xout".to_string(), Currency::Eth, options, Amount::new(1), 10)
        .unwrap();
    service.withdrawal_step(&mut repos, &mut w, 11).unwrap().unwrap();
    let failure = transactions_lib::error::Error::new(ErrorKind::Internal, Some(ErrorContext::Timer));
    let err = service.withdrawal_sent(&mut repos, &mut w, Err(failure), 13).unwrap_err();
    assert!(matches!(err.kind, ErrorKind::Internal));
    assert_eq!(err.context, Some(ErrorContext::Timer));
    assert_eq!(repos.transactions_len(), before);
    assert_eq!(balance(&repos, &a), 100);
}

#[test]
fn withdrawal_beyond_the_wallets_holdings_is_refused() {
    let (mut repos, _d, a) = withdrawal_setup();
    let service = service();
    let before = repos.transactions_len();
    let mut input = request(800, a.id, "0xout", RecepientType::Address, Currency::Eth, 100);
    input.user_id = UserId(1);
    let options = WithdrawalOptions { gid: None, tx_kind: None, tx_group_kind: None, fee_currency: None, fee_payer_account_id: None };
    // the only debit account holds 100, of which 1 goes to the blockchain fee
    let err = service
        .begin_external_mono_currency_tx(&mut repos, &input, a.clone(), "0xout".to_string(), Currency::Eth, options, Amount::new(1), 10)
        .unwrap_err();
    assert_eq!(err.context, Some(ErrorContext::NotEnoughFunds));
    assert_eq!(repos.transactions_len(), before);
}

#[test]
fn books_balance_across_credit_and_debit_accounts() {
    let mut repos = setup();
    let d1 = account(&mut repos, 1, 1, Currency::Eth, "0xa", AccountKind::Dr);
    let a = account(&mut repos, 2, 1, Currency::Eth, "0xa", AccountKind::Cr);
    let d2 = account(&mut repos, 3, 2, Currency::Eth, "0xb", AccountKind::Dr);
    let b = account(&mut repos, 4, 2, Currency::Eth, "0xb", AccountKind::Cr);
    fund(&mut repos, &d1, &a, 100, 9000);
    fund(&mut repos, &d2, &b, 50, 9001);
    let input = request(500, a.id, &uuid_text(b.id), RecepientType::Account, Currency::Eth, 30);
    service().create_transaction(&mut repos, Some("t1".to_string()), input, 10, None).unwrap();
    let cr: u128 = [&a, &b].iter().map(|x| balance(&repos, x)).sum();
    let dr: u128 = [&d1, &d2].iter().map(|x| balance(&repos, x)).sum();
    assert_eq!(cr, 150);
    assert_eq!(dr, 150);
}

#[test]
fn grouping_keeps_every_transaction_in_its_group() {
    let mut repos = setup();
    let d = account(&mut repos, 1, 1, Currency::Eth, "0xa", AccountKind::Dr);
    let a = account(&mut repos, 2, 1, Currency::Eth, "0xa", AccountKind::Cr);
    fund(&mut repos, &d, &a, 1, 5);
    fund(&mut repos, &d, &a, 2, 6);
    fund(&mut repos, &d, &a, 3, 5);
    let mut txs = Vec::new();
    txs.push(repos.get_by_gid(TransactionId(5))[0].clone());
    txs.push(repos.get_by_gid(TransactionId(6))[0].clone());
    txs.push(repos.get_by_gid(TransactionId(5))[1].clone());
    let groups = group_transactions(&txs);
    assert_eq!(groups.len(), 2);
    assert_eq!(groups[0].len(), 2);
    assert_eq!(groups[0][0].value, Amount::new(1));
    assert_eq!(groups[0][1].value, Amount::new(3));
    assert_eq!(groups[1].len(), 1);
    assert_eq!(groups[1][0].gid, TransactionId(6));
}

#[test]
fn base_transfer_checks_currencies_and_accounts() {
    let mut repos = setup();
    let a = account(&mut repos, 2, 1, Currency::Eth, "0xa", AccountKind::Cr);
    let b = account(&mut repos, 3, 2, Currency::Btc, "1b", AccountKind::Cr);
    let c = account(&mut repos, 4, 2, Currency::Eth, "0xc", AccountKind::Cr);
    let tx = |dr: &Account, cr: &Account| NewTransaction {
        id: TransactionId(1),
        gid: TransactionId(1),
        user_id: UserId(1),
        dr_account_id: dr.id,
        cr_account_id: cr.id,
        currency: dr.currency,
        value: Amount::new(0),
        status: TransactionStatus::Done,
        blockchain_tx_id: None,
        kind: TransactionKind::Internal,
        group_kind: TransactionGroupKind::Internal,
        related_tx: None,
    };
    let err = service().create_base_tx(&mut repos, tx(&a, &b), a.clone(), b.clone(), 1).unwrap_err();
    assert!(matches!(err.kind, ErrorKind::Internal));
    assert_eq!(err.context, Some(ErrorContext::InvalidCurrency));
    let err = service().create_base_tx(&mut repos, tx(&a, &a), a.clone(), c.clone(), 1).unwrap_err();
    assert_eq!(err.context, Some(ErrorContext::InvalidTransaction));
    let stored = service().create_base_tx(&mut repos, tx(&a, &c), a.clone(), c.clone(), 7).unwrap();
    assert_eq!(stored.created_at, 7);
    assert_eq!(repos.transactions_len(), 1);
}

#[test]
fn withdrawal_keeps_parts_sent_before_a_failed_send() {
    let mut repos = setup();
    let d1 = account(&mut repos, 1, 1, Currency::Eth, "0xa", AccountKind::Dr);
    let a = account(&mut repos, 2, 1, Currency::Eth, "0xa", AccountKind::Cr);
    let d2 = account(&mut repos, 3, 2, Currency::Eth, "0xb", AccountKind::Dr);
    fund(&mut repos, &d1, &a, 30, 9000);
    fund(&mut repos, &d2, &a, 40, 9001);
    let service = service();
    let mut input = request(800, a.id, "0xout", RecepientType::Address, Currency::Eth, 50);
    input.fee = Amount::new(2);
    input.user_id = UserId(1);
    let options = WithdrawalOptions { gid: None, tx_kind: None, tx_group_kind: None, fee_currency: None, fee_payer_account_id: None };
    let mut w = service
        .begin_external_mono_currency_tx(&mut repos, &input, a.clone(), "0xout".to_string(), Currency::Eth, options, Amount::new(1), 10)
        .unwrap();
    assert_eq!(w.parts.len(), 2);
    assert_eq!(w.parts[0].balance, Amount::new(29));
    assert_eq!(w.parts[1].balance, Amount::new(21));
    service.withdrawal_step(&mut repos, &mut w, 11).unwrap().unwrap();
    assert!(service.withdrawal_sent(&mut repos, &mut w, Ok("0xfirst".to_string()), 12).unwrap());
    service.withdrawal_step(&mut repos, &mut w, 13).unwrap().unwrap();
    let failure = transactions_lib::error::Error::new(ErrorKind::Internal, Some(ErrorContext::Timer));
    // one part already reached the blockchain: the withdrawal stops and keeps it
    assert!(!service.withdrawal_sent(&mut repos, &mut w, Err(failure), 14).unwrap());
    assert_eq!(w.done.len(), 2);
    assert_eq!(w.done[1].blockchain_tx_id, Some("0xfirst".to_string()));
    assert!(repos.get_transaction(TransactionId(801)).is_some());
}

#[test]
fn withdrawal_fee_can_be_paid_by_another_account() {
    let (mut repos, _d, a) = withdrawal_setup();
    let d2 = account(&mut repos, 3, 1, Currency::Eth, "0xp", AccountKind::Dr);
    let payer = account(&mut repos, 4, 1, Currency::Eth, "0xp", AccountKind::Cr);
    fund(&mut repos, &d2, &payer, 10, 9002);
    let service = service();
    let mut input = request(800, a.id, "0xout", RecepientType::Address, Currency::Eth, 40);
    input.fee = Amount::new(3);
    input.user_id = UserId(1);
    let options = WithdrawalOptions {
        gid: None,
        tx_kind: None,
        tx_group_kind: None,
        fee_currency: None,
        fee_payer_account_id: Some(payer.id),
    };
    let w = service
        .begin_external_mono_currency_tx(&mut repos, &input, a.clone(), "0xout".to_string(), Currency::Eth, options, Amount::new(1), 10)
        .unwrap();
    assert_eq!(w.done[0].dr_account_id, payer.id);
    assert_eq!(balance(&repos, &payer), 7);
    assert_eq!(balance(&repos, &a), 100);
}
