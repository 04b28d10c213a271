use transactions_lib::blockchain::{BlockchainServiceImpl, CreateBlockchainTx, NonceChoice, StoredNonce, TransferSizes};
use transactions_lib::error::{ErrorContext, ErrorKind};
use transactions_lib::fee::FeesServiceImpl;
use transactions_lib::metrics::{update_negative_balances_and_reduce, AddressTurnover};
use transactions_lib::models::{Account, AccountId, AccountKind, Amount, Currency, Recepient, TransactionId, UserId};
use transactions_lib::repos::Repos;
use transactions_lib::system::{SystemAccountIds, SystemServiceImpl};

fn ids() -> SystemAccountIds {
    SystemAccountIds {
        btc_transfer_account_id: AccountId(101),
        eth_transfer_account_id: AccountId(102),
        stq_transfer_account_id: AccountId(103),
        btc_liquidity_account_id: AccountId(104),
        eth_liquidity_account_id: AccountId(105),
        stq_liquidity_account_id: AccountId(106),
        btc_fees_account_id: AccountId(107),
        eth_fees_account_id: AccountId(108),
        stq_fees_account_id: AccountId(109),
        btc_fees_dr_account_id: AccountId(110),
        eth_fees_dr_account_id: AccountId(111),
        stq_fees_dr_account_id: AccountId(112),
    }
}

fn account(repos: &mut Repos, id: u128, currency: Currency, address: &str) {
    repos.create_account(Account {
        id: AccountId(id),
        user_id: UserId(1),
        currency,
        address: address.to_string(),
        name: None,
        kind: AccountKind::Cr,
        erc20_approved: false,
    });
}

#[test]
fn test_blockchain_create_eth_wrong_currency() {
    let repos = Repos::new();
    let service = BlockchainServiceImpl::new(SystemServiceImpl::new(ids()));
    let res = service.ethereum_tx_initiator(&repos, "0xfrom".to_string(), Currency::Btc);
    assert!(res.is_err());
    let err = res.unwrap_err();
    assert_eq!(err.context, Some(ErrorContext::InvalidCurrency));
    match err.kind {
        ErrorKind::InvalidInput(code) => assert_eq!(code, "btc"),
        other => panic!("unexpected {:?}", other),
    }
}

#[test]
fn token_transfers_are_sent_by_the_ether_fees_account() {
    let mut repos = Repos::new();
    account(&mut repos, 108, Currency::Eth, "0xfees");
    let service = BlockchainServiceImpl::new(SystemServiceImpl::new(ids()));
    assert_eq!(service.ethereum_tx_initiator(&repos, "0xfrom".to_string(), Currency::Eth).unwrap(), "0xfrom");
    assert_eq!(service.ethereum_tx_initiator(&repos, "0xfrom".to_string(), Currency::Stq).unwrap(), "0xfees");
    let err = service.ethereum_tx_initiator(&Repos::new(), "0xfrom".to_string(), Currency::Stq).unwrap_err();
    assert!(matches!(err.kind, ErrorKind::Internal));
}

#[test]
fn nonce_prefers_a_recent_stored_value() {
    assert_eq!(BlockchainServiceImpl::choose_nonce(None, 5, 1000), NonceChoice { nonce: 5, next: 6 });
    let recent = Some(StoredNonce { value: 9, updated_at: 990 });
    assert_eq!(BlockchainServiceImpl::choose_nonce(recent, 5, 1000), NonceChoice { nonce: 9, next: 10 });
    assert_eq!(BlockchainServiceImpl::choose_nonce(recent, 12, 1000), NonceChoice { nonce: 12, next: 13 });
    let stale = Some(StoredNonce { value: 9, updated_at: 100 });
    assert_eq!(BlockchainServiceImpl::choose_nonce(stale, 5, 1000), NonceChoice { nonce: 5, next: 6 });
    let future = Some(StoredNonce { value: 9, updated_at: 2000 });
    assert_eq!(BlockchainServiceImpl::choose_nonce(future, 5, 1000), NonceChoice { nonce: 9, next: 10 });
}

#[test]
fn token_transfers_are_tracked_by_their_event_log() {
    assert_eq!(BlockchainServiceImpl::ethereum_tx_id(Currency::Eth, "0xab".to_string()), "0xab");
    assert_eq!(BlockchainServiceImpl::ethereum_tx_id(Currency::Stq, "0xab".to_string()), "0xab:0");
}

#[test]
fn negative_balances_are_split_off() {
    let balances = vec![
        AddressTurnover { address: "a".to_string(), currency: Currency::Eth, dr_turnover: Amount::new(10), cr_turnover: Amount::new(3) },
        AddressTurnover { address: "b".to_string(), currency: Currency::Btc, dr_turnover: Amount::new(1), cr_turnover: Amount::new(4) },
        AddressTurnover { address: "c".to_string(), currency: Currency::Stq, dr_turnover: Amount::new(2), cr_turnover: Amount::new(2) },
    ];
    let (negative, rest) = update_negative_balances_and_reduce(&balances);
    assert_eq!(negative.len(), 1);
    assert_eq!(negative[0].address, "b");
    assert_eq!(negative[0].value, Amount::new(3));
    assert_eq!(rest.len(), 2);
    assert_eq!(rest[0].value, Amount::new(7));
    assert_eq!(rest[1].value, Amount::new(0));
}

#[test]
fn transfers_inside_the_wallet_take_no_fee() {
    let mut repos = Repos::new();
    account(&mut repos, 1, Currency::Eth, "0xin");
    let fees = FeesServiceImpl::new();
    assert_eq!(fees.is_internal_address(&repos, &"0xin".to_string(), Currency::Eth).unwrap(), true);
    assert_eq!(fees.is_internal_address(&repos, &"0xout".to_string(), Currency::Eth).unwrap(), false);
    let err = fees.is_internal_address(&repos, &"0xin".to_string(), Currency::Stq).unwrap_err();
    assert_eq!(err.context, Some(ErrorContext::InvalidCurrency));
}

#[test]
fn recipients_are_read_as_account_ids_when_they_are_uuids() {
    let id = 0x1234_5678_9abc_def0_1122_3344_5566_7788u128;
    let text = uuid::Uuid::from_u128(id).to_string();
    assert_eq!(Recepient::new(text.clone()).to_account_id(), Some(AccountId(id)));
    assert_eq!(Recepient::new(text.to_uppercase()).to_account_id(), Some(AccountId(id)));
    assert_eq!(Recepient::new("0xabcdef".to_string()).to_account_id(), None);
    assert_eq!(Recepient::new("0xabcdef".to_string()).to_account_address(), "0xabcdef");
}

/// Takes an ether or token transfer through the steps that precede and follow
/// its signing and sending: who sends it, its nonce (the blockchain reporting
/// `chain_nonce`), the id it is tracked under and the record kept of it.
fn send_ethereum(repos: &mut Repos, value: u128, fee_price: u128, currency: Currency, chain_nonce: u64, now: u64) -> Result<u64, ()> {
    let service = BlockchainServiceImpl::new(SystemServiceImpl::new(ids()));
    let initiator = service.ethereum_tx_initiator(repos, "0xfrom".to_string(), currency).map_err(|_| ())?;
    let nonce = service.next_nonce(repos, &initiator, chain_nonce, now);
    let tx = CreateBlockchainTx {
        id: TransactionId(1),
        from: "0xfrom".to_string(),
        to: "0xto".to_string(),
        currency,
        value: Amount::new(value),
        fee_price: Amount::new(fee_price),
        nonce: Some(nonce),
    };
    let tx_id = BlockchainServiceImpl::ethereum_tx_id(currency, format!("0xhash{}", nonce));
    service.record_pending(repos, &tx, tx_id.clone());
    assert!(repos.get_pending(&tx_id).is_some());
    Ok(nonce)
}

#[test]
fn test_blockchain_create_eth_happy() {
    let mut repos = Repos::new();
    let res = send_ethereum(&mut repos, 0, 0, Currency::Eth, 5, 100);
    assert!(res.is_ok());
    let res = send_ethereum(&mut repos, 100500000000, 0, Currency::Eth, 5, 101);
    assert!(res.is_ok());
    let res = send_ethereum(&mut repos, 0, 100500, Currency::Eth, 5, 102);
    assert!(res.is_ok());
    let res = send_ethereum(&mut repos, 100500, 100500, Currency::Eth, 5, 103);
    assert!(res.is_ok());
    // within a minute each transfer takes the nonce after the previous one
    assert_eq!(res.unwrap(), 8);
}

#[test]
fn test_blockchain_create_stq_happy() {
    let mut repos = Repos::new();
    account(&mut repos, 108, Currency::Eth, "0xfees");
    let res = send_ethereum(&mut repos, 0, 0, Currency::Stq, 5, 100);
    assert!(res.is_ok());
    let res = send_ethereum(&mut repos, 100500000000, 0, Currency::Stq, 5, 101);
    assert!(res.is_ok());
    let res = send_ethereum(&mut repos, 0, 100500, Currency::Stq, 5, 102);
    assert!(res.is_ok());
    let res = send_ethereum(&mut repos, 100500, 100500, Currency::Stq, 5, 103);
    assert!(res.is_ok());
    assert_eq!(res.unwrap(), 8);
    // the tokens are sent by the ether fees account, whose nonce is stored
    assert_eq!(repos.get_nonce(&"0xfees".to_string()).unwrap().value, 9);
    // a minute later the blockchain's nonce is taken again
    assert_eq!(send_ethereum(&mut repos, 1, 1, Currency::Stq, 5, 200).unwrap(), 5);
}

/// The integer steps of a fee estimate: the blockchain's share of the offer
/// (the wallet's upside being 2), the currency it is paid in, and the whole
/// price per unit of the transfer's size.
fn estimate(offered: u128, withdrawal_currency: Currency) -> Result<(Amount, Currency, Amount), ()> {
    let sizes = TransferSizes { btc_transaction_size: 300, eth_gas_limit: 21000, stq_gas_limit: 60000 };
    let share = BlockchainServiceImpl::blockchain_fee_share(Amount::new(offered), Amount::new(2)).map_err(|_| ())?;
    let currency = BlockchainServiceImpl::estimate_currency(withdrawal_currency);
    let size = BlockchainServiceImpl::withdrawal_size(&sizes, withdrawal_currency);
    let price = BlockchainServiceImpl::whole_fee_price(share, size).map_err(|_| ())?;
    Ok((share, currency, price))
}

#[test]
fn test_blockchain_create_estimate_withdrawal_fee_happy() {
    for _fee_currency in [Currency::Stq, Currency::Eth, Currency::Btc] {
        for withdrawal_currency in [Currency::Stq, Currency::Eth, Currency::Btc] {
            let res = estimate(0, withdrawal_currency);
            assert!(res.is_ok());
            let res = estimate(100500000, withdrawal_currency);
            assert!(res.is_ok());
        }
    }
    let (share, currency, price) = estimate(100500000, Currency::Stq).unwrap();
    assert_eq!(share, Amount::new(50250000));
    assert_eq!(currency, Currency::Eth);
    assert_eq!(price, Amount::new(837));
    assert_eq!(estimate(100500000, Currency::Btc).unwrap().1, Currency::Btc);
}

#[test]
fn fee_estimate_is_refused_without_upside_or_size() {
    assert!(BlockchainServiceImpl::blockchain_fee_share(Amount::new(10), Amount::new(0)).is_err());
    assert!(BlockchainServiceImpl::whole_fee_price(Amount::new(10), 0).is_err());
}
