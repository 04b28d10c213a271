use transactions_lib::blockchain::CreateBlockchainTx;
use transactions_lib::error::{ErrorContext, ErrorKind};
use transactions_lib::models::{
    Account, AccountId, AccountKind, Amount, BlockchainTransaction, BlockchainTransactionEntryTo, Currency,
    Erc20OperationKind, NewTransaction, TransactionGroupKind, TransactionId, TransactionKind, TransactionStatus, UserId,
};
use transactions_lib::rabbit::{BlockchainFetcher, InvariantViolation, STQ_BALANCE_THRESHOLD};
use transactions_lib::repos::{PendingBlockchainTransaction, Repos};
use transactions_lib::system::{SystemAccountIds, SystemServiceImpl};


/// Identifiers for the transactions that handling a report books.
fn fresh_ids() -> Vec<u128> {
    (0..64).map(|_| uuid::Uuid::new_v4().as_u128()).collect()
}

fn ids() -> SystemAccountIds {
    SystemAccountIds {
        btc_transfer_account_id: AccountId(101),
        eth_transfer_account_id: AccountId(102),
        stq_transfer_account_id: AccountId(103),
        btc_liquidity_account_id: AccountId(104),
        eth_liquidity_account_id: AccountId(105),
        stq_liquidity_account_id: AccountId(106),
        btc_fees_account_id: AccountId(107),
        eth_fees_account_id: AccountId(108),
        stq_fees_account_id: AccountId(109),
        btc_fees_dr_account_id: AccountId(110),
        eth_fees_dr_account_id: AccountId(111),
        stq_fees_dr_account_id: AccountId(112),
    }
}

fn fetcher() -> BlockchainFetcher {
    BlockchainFetcher::new(SystemServiceImpl::new(ids()), 20_000_000_000, 100_000)
}

fn account(repos: &mut Repos, id: u128, user: u128, currency: Currency, address: &str, kind: AccountKind) -> Account {
    let a = Account {
        id: AccountId(id),
        user_id: UserId(user),
        currency,
        address: address.to_string(),
        name: None,
        kind,
        erc20_approved: false,
    };
    repos.create_account(a.clone());
    a
}

fn wallet(repos: &mut Repos, id: u128, user: u128, currency: Currency, address: &str) -> (Account, Account) {
    let cr = account(repos, id, user, currency, address, AccountKind::Cr);
    let dr = account(repos, id + 1000, user, currency, address, AccountKind::Dr);
    (cr, dr)
}

fn report(hash: &str, from: &[&str], to: &[(&str, u128)], currency: Currency, fee: u128, confirmations: u64) -> BlockchainTransaction {
    BlockchainTransaction {
        hash: hash.to_string(),
        from: from.iter().map(|s| s.to_string()).collect(),
        to: to
            .iter()
            .map(|(a, v)| BlockchainTransactionEntryTo { address: a.to_string(), value: Amount::new(*v) })
            .collect(),
        block_number: 7,
        currency,
        fee: Amount::new(fee),
        confirmations,
        erc20_operation_kind: None,
    }
}

fn balance(repos: &Repos, a: &Account) -> u128 {
    repos.account_balance(a.id, a.kind).unwrap().raw()
}

/// Books a done transfer from `dr` to `cr` (used to give accounts their balances).
fn fund(repos: &mut Repos, id: u128, dr: &Account, cr: &Account, value: u128) {
    repos
        .create_transaction(
            NewTransaction {
                id: TransactionId(id),
                gid: TransactionId(id),
                user_id: cr.user_id,
                dr_account_id: dr.id,
                cr_account_id: cr.id,
                currency: cr.currency,
                value: Amount::new(value),
                status: TransactionStatus::Done,
                blockchain_tx_id: None,
                kind: TransactionKind::Deposit,
                group_kind: TransactionGroupKind::Deposit,
                related_tx: None,
            },
            5,
        )
        .unwrap();
}

#[test]
fn deposit_credits_the_wallet() {
    let mut repos = Repos::new();
    let (cr, dr) = wallet(&mut repos, 36, 1, Currency::Eth, "0x26df8a");
    let bt = report("0xcdef76796", &["0xoutside"], &[("0x26df8a", 9)], Currency::Eth, 0, 0);
    let approvals = fetcher().handle_transaction(&mut repos, &bt, &fresh_ids(), 100).unwrap();
    assert!(approvals.is_empty());
    assert_eq!(repos.transactions_len(), 1);
    let t = repos.get_by_blockchain_tx(&"0xcdef76796".to_string()).unwrap();
    assert_eq!(t.dr_account_id, dr.id);
    assert_eq!(t.cr_account_id, cr.id);
    assert_eq!(t.value, Amount::new(9));
    assert_eq!(t.status, TransactionStatus::Done);
    assert_eq!(t.kind, TransactionKind::Deposit);
    assert_eq!(t.id, t.gid);
    assert_eq!(balance(&repos, &cr), 9);
    assert_eq!(balance(&repos, &dr), 9);
    assert!(repos.get_seen_hash(&"0xcdef76796".to_string(), Currency::Eth).is_some());
    assert!(repos.get_blockchain_tx(&"0xcdef76796".to_string()).is_some());
}

#[test]
fn a_report_is_handled_once() {
    let mut repos = Repos::new();
    let (cr, _dr) = wallet(&mut repos, 36, 1, Currency::Eth, "0x26df8a");
    let bt = report("0xcdef76796", &["0xoutside"], &[("0x26df8a", 9)], Currency::Eth, 0, 0);
    fetcher().handle_transaction(&mut repos, &bt, &fresh_ids(), 100).unwrap();
    let again = fetcher().handle_transaction(&mut repos, &bt, &fresh_ids(), 200).unwrap();
    assert!(again.is_empty());
    assert_eq!(repos.transactions_len(), 1);
    assert_eq!(repos.seen_hashes_len(), 1);
    assert_eq!(balance(&repos, &cr), 9);
}

#[test]
fn outputs_to_one_address_are_summed_into_one_check() {
    let mut repos = Repos::new();
    let (cr, _dr) = wallet(&mut repos, 36, 1, Currency::Btc, "1wallet");
    let bt = report("h", &["1x", "1x"], &[("1wallet", 5), ("1other", 1), ("1wallet", 7)], Currency::Btc, 0, 0);
    fetcher().handle_transaction(&mut repos, &bt, &fresh_ids(), 100).unwrap();
    // the deposit takes the value of the first output to the address
    assert_eq!(balance(&repos, &cr), 5);
}

#[test]
fn deposit_to_an_unknown_address_is_only_marked_handled() {
    let mut repos = Repos::new();
    wallet(&mut repos, 36, 1, Currency::Eth, "0x26df8a");
    let bt = report("h", &["0xoutside"], &[("0xnobody", 9)], Currency::Eth, 0, 0);
    fetcher().handle_transaction(&mut repos, &bt, &fresh_ids(), 100).unwrap();
    assert_eq!(repos.transactions_len(), 0);
    assert_eq!(repos.seen_hashes_len(), 1);
    assert_eq!(repos.blockchain_transactions_len(), 0);
}

#[test]
fn deposit_from_a_wallet_address_is_recorded_as_strange() {
    let mut repos = Repos::new();
    wallet(&mut repos, 36, 1, Currency::Eth, "0x26df8a");
    wallet(&mut repos, 37, 2, Currency::Eth, "0xinside");
    let bt = report("h", &["0xinside"], &[("0x26df8a", 9)], Currency::Eth, 0, 0);
    fetcher().handle_transaction(&mut repos, &bt, &fresh_ids(), 100).unwrap();
    assert_eq!(repos.transactions_len(), 0);
    assert_eq!(repos.seen_hashes_len(), 1);
    assert_eq!(
        InvariantViolation::DepositAddressInternal.message(),
        "blockchain transaction invariant violation - deposit arrived from internal address"
    );
}

fn withdrawal_state() -> (Repos, Account, Account, Account) {
    let mut repos = Repos::new();
    let (cr, dr) = wallet(&mut repos, 36, 1, Currency::Eth, "0x26df8a");
    let fees = account(&mut repos, 108, 0, Currency::Eth, "0xfees", AccountKind::Cr);
    let fees_dr = account(&mut repos, 111, 0, Currency::Eth, "0xfees", AccountKind::Dr);
    // the wallet holds 6 and the fees account 10
    fund(&mut repos, 53, &dr, &cr, 6);
    fund(&mut repos, 54, &fees_dr, &fees, 10);
    repos.create_transaction(
        NewTransaction {
            id: TransactionId(55),
            gid: TransactionId(55),
            user_id: UserId(1),
            dr_account_id: cr.id,
            cr_account_id: dr.id,
            currency: Currency::Eth,
            value: Amount::new(5),
            status: TransactionStatus::Pending,
            blockchain_tx_id: Some("0x4f78cf324".to_string()),
            kind: TransactionKind::Withdrawal,
            group_kind: TransactionGroupKind::Withdrawal,
            related_tx: None,
        },
        10,
    )
    .unwrap();
    repos.create_pending(PendingBlockchainTransaction {
        hash: "0x4f78cf324".to_string(),
        from: "0x26df8a".to_string(),
        to: "0xout".to_string(),
        currency: Currency::Eth,
        value: Amount::new(5),
    });
    (repos, cr, dr, fees)
}

#[test]
fn confirmed_withdrawal_is_done_and_its_fee_booked() {
    let (mut repos, _cr, dr, fees) = withdrawal_state();
    let bt = report("0x4f78cf324", &["0x26df8a"], &[("0xout", 5)], Currency::Eth, 1, 30);
    fetcher().handle_transaction(&mut repos, &bt, &fresh_ids(), 100).unwrap();
    let t = repos.get_transaction(TransactionId(55)).unwrap();
    assert_eq!(t.status, TransactionStatus::Done);
    assert_eq!(repos.transactions_len(), 4);
    assert!(repos.get_pending(&"0x4f78cf324".to_string()).is_none());
    let fee = repos.get_by_gid(TransactionId(55));
    assert_eq!(fee.len(), 2);
    assert_eq!(fee[1].kind, TransactionKind::BlockchainFee);
    assert_eq!(fee[1].dr_account_id, fees.id);
    assert_eq!(fee[1].cr_account_id, dr.id);
    assert_eq!(fee[1].value, Amount::new(1));
}

#[test]
fn withdrawal_fee_beyond_the_fees_account_is_refused() {
    let (mut repos, _cr, dr, fees) = withdrawal_state();
    let before = repos.transactions_len();
    // the fees account holds 10, the wallet's debit side 1 after the withdrawal
    let bt = report("0x4f78cf324", &["0x26df8a"], &[("0xout", 5)], Currency::Eth, 2, 30);
    let err = fetcher().handle_transaction(&mut repos, &bt, &fresh_ids(), 100).unwrap_err();
    assert!(matches!(err.kind, ErrorKind::Internal));
    assert_eq!(err.context, Some(ErrorContext::BalanceOverflow));
    assert_eq!(repos.transactions_len(), before);
    assert!(repos.get_pending(&"0x4f78cf324".to_string()).is_some());
    assert_eq!(repos.get_transaction(TransactionId(55)).unwrap().status, TransactionStatus::Pending);
    assert_eq!(balance(&repos, &fees), 10);
    assert_eq!(balance(&repos, &dr), 1);
}

#[test]
fn withdrawal_waits_for_enough_confirmations() {
    let (mut repos, _cr, _dr, _fees) = withdrawal_state();
    // 30 ether is worth $6000: it needs 12 confirmations
    let bt = report("0x4f78cf324", &["0x26df8a"], &[("0xout", 30_000_000_000_000_000_000)], Currency::Eth, 1, 11);
    fetcher().handle_transaction(&mut repos, &bt, &fresh_ids(), 100).unwrap();
    assert_eq!(repos.get_transaction(TransactionId(55)).unwrap().status, TransactionStatus::Pending);
    assert_eq!(repos.seen_hashes_len(), 0);
    assert_eq!(repos.transactions_len(), 3);
}

#[test]
fn withdrawal_to_a_wallet_address_is_recorded_as_strange() {
    let (mut repos, _cr, _dr, _fees) = withdrawal_state();
    wallet(&mut repos, 37, 2, Currency::Eth, "0xout");
    let bt = report("0x4f78cf324", &["0x26df8a"], &[("0xout", 5)], Currency::Eth, 1, 30);
    fetcher().handle_transaction(&mut repos, &bt, &fresh_ids(), 100).unwrap();
    assert_eq!(repos.get_transaction(TransactionId(55)).unwrap().status, TransactionStatus::Pending);
    assert_eq!(repos.seen_hashes_len(), 1);
}

#[test]
fn withdrawal_confirmation_without_fees_account_is_refused() {
    let mut repos = Repos::new();
    let (cr, dr) = wallet(&mut repos, 36, 1, Currency::Eth, "0x26df8a");
    fund(&mut repos, 53, &dr, &cr, 6);
    repos.create_transaction(
        NewTransaction {
            id: TransactionId(55),
            gid: TransactionId(55),
            user_id: UserId(1),
            dr_account_id: cr.id,
            cr_account_id: dr.id,
            currency: Currency::Eth,
            value: Amount::new(5),
            status: TransactionStatus::Pending,
            blockchain_tx_id: Some("0x4f".to_string()),
            kind: TransactionKind::Withdrawal,
            group_kind: TransactionGroupKind::Withdrawal,
            related_tx: None,
        },
        10,
    )
    .unwrap();
    repos.create_pending(PendingBlockchainTransaction {
        hash: "0x4f".to_string(),
        from: "0x26df8a".to_string(),
        to: "0xout".to_string(),
        currency: Currency::Eth,
        value: Amount::new(5),
    });
    let bt = report("0x4f", &["0x26df8a"], &[("0xout", 5)], Currency::Eth, 1, 30);
    let err = fetcher().handle_transaction(&mut repos, &bt, &fresh_ids(), 100).unwrap_err();
    assert!(matches!(err.kind, ErrorKind::NotFound));
    assert_eq!(err.context, Some(ErrorContext::NoAccount));
    assert_eq!(repos.seen_hashes_len(), 0);
    assert!(repos.get_pending(&"0x4f".to_string()).is_some());
}

#[test]
fn token_approval_marks_the_account_approved() {
    let mut repos = Repos::new();
    let (_cr, dr) = wallet(&mut repos, 36, 1, Currency::Stq, "0xstq");
    repos.create_pending(PendingBlockchainTransaction {
        hash: "0xapprove".to_string(),
        from: "0xstq".to_string(),
        to: "0xfees".to_string(),
        currency: Currency::Stq,
        value: Amount::new(1),
    });
    let mut bt = report("0xapprove", &["0xstq"], &[("0xfees", 1)], Currency::Stq, 0, 0);
    bt.erc20_operation_kind = Some(Erc20OperationKind::Approve);
    fetcher().handle_transaction(&mut repos, &bt, &fresh_ids(), 100).unwrap();
    assert!(repos.get_account(dr.id).unwrap().erc20_approved);
    assert!(repos.get_pending(&"0xapprove".to_string()).is_none());
    assert_eq!(repos.transactions_len(), 0);
}

#[test]
fn approval_in_another_currency_is_refused() {
    let mut repos = Repos::new();
    let mut bt = report("0xapprove", &["0xstq"], &[("0xfees", 1)], Currency::Eth, 0, 0);
    bt.erc20_operation_kind = Some(Erc20OperationKind::Approve);
    let err = fetcher().handle_transaction(&mut repos, &bt, &fresh_ids(), 100).unwrap_err();
    assert_eq!(err.context, Some(ErrorContext::InvalidCurrency));
}

#[test]
fn token_deposit_over_the_threshold_asks_for_approval() {
    let mut repos = Repos::new();
    let (_cr, dr) = wallet(&mut repos, 36, 1, Currency::Stq, "0xstq");
    let small = report("h1", &["0xoutside"], &[("0xstq", 1)], Currency::Stq, 0, 0);
    assert!(fetcher().handle_transaction(&mut repos, &small, &fresh_ids(), 100).unwrap().is_empty());
    let big = report("h2", &["0xoutside"], &[("0xstq", STQ_BALANCE_THRESHOLD)], Currency::Stq, 0, 0);
    let approvals = fetcher().handle_transaction(&mut repos, &big, &fresh_ids(), 100).unwrap();
    assert_eq!(approvals.len(), 1);
    assert_eq!(approvals[0].id, dr.id);
}

#[test]
fn overflowing_outputs_are_refused() {
    let mut repos = Repos::new();
    wallet(&mut repos, 36, 1, Currency::Eth, "0x26df8a");
    let bt = report("h", &["0xoutside"], &[("0x26df8a", u128::MAX), ("0x26df8a", 1)], Currency::Eth, 0, 0);
    let err = fetcher().handle_transaction(&mut repos, &bt, &fresh_ids(), 100).unwrap_err();
    assert_eq!(err.context, Some(ErrorContext::BalanceOverflow));
    assert_eq!(repos.seen_hashes_len(), 0);
}

#[test]
fn approval_transfer_is_booked_pending() {
    let mut repos = Repos::new();
    let (_cr, dr) = wallet(&mut repos, 36, 1, Currency::Stq, "0xstq");
    let fees = account(&mut repos, 108, 0, Currency::Eth, "0xfees", AccountKind::Cr);
    let fees_dr = account(&mut repos, 111, 0, Currency::Eth, "0xfees", AccountKind::Dr);
    fund(&mut repos, 50, &fees_dr, &fees, 1_000_000_000_000_000_000);
    let f = fetcher();
    let approval = f.begin_erc20_approval(&repos, &dr).unwrap();
    let order: CreateBlockchainTx = f.erc20_approval_transfer(&approval, TransactionId(77), 4).unwrap();
    assert_eq!(order.from, "0xfees");
    assert_eq!(order.to, "0xstq");
    assert_eq!(order.value, Amount::new(20_000_000_000 * 100_000));
    assert_eq!(order.nonce, Some(4));
    f.record_erc20_approval_transfer(&mut repos, &approval, &order, "0xeth".to_string(), 100).unwrap();
    let t = repos.get_by_blockchain_tx(&"0xeth".to_string()).unwrap();
    assert_eq!(t.status, TransactionStatus::Pending);
    assert_eq!(t.kind, TransactionKind::ApprovalTransfer);
    assert_eq!(t.dr_account_id, AccountId(108));
    assert_eq!(t.cr_account_id, AccountId(111));
    let approve = f.erc20_approve_input(&approval, &order, 9);
    assert_eq!(approve.address, "0xstq");
    assert_eq!(approve.approve_address, "0xfees");
    f.record_erc20_approve(&mut repos, &approve, "0xap".to_string());
    assert!(repos.get_pending(&"0xap:0".to_string()).is_some());
}

#[test]
fn approval_without_sender_is_malformed() {
    let mut repos = Repos::new();
    let mut bt = report("0xapprove", &[], &[("0xfees", 1)], Currency::Stq, 0, 0);
    bt.erc20_operation_kind = Some(Erc20OperationKind::Approve);
    let err = fetcher().handle_transaction(&mut repos, &bt, &fresh_ids(), 100).unwrap_err();
    assert!(matches!(err.kind, ErrorKind::Internal));
    assert_eq!(err.context, Some(ErrorContext::InvalidBlockchainTransactionStructure));
}

#[test]
fn unpaired_debit_accounts_are_detected() {
    let mut repos = Repos::new();
    wallet(&mut repos, 36, 1, Currency::Eth, "0xa");
    assert!(repos.accounts_are_paired());
    account(&mut repos, 40, 1, Currency::Eth, "0xlonely", AccountKind::Dr);
    assert!(!repos.accounts_are_paired());
    // only the receivers of a transaction matter for its deposits
    let to_wallet = report("0x1", &["0xout"], &[("0xa", 1)], Currency::Eth, 0, 0);
    assert!(repos.receivers_are_paired(&to_wallet.to, Currency::Eth));
    let to_lonely = report("0x2", &["0xout"], &[("0xa", 1), ("0xlonely", 1)], Currency::Eth, 0, 0);
    assert!(!repos.receivers_are_paired(&to_lonely.to, Currency::Eth));
    assert!(repos.receivers_are_paired(&to_lonely.to, Currency::Btc));
}

#[test]
fn approval_transfer_beyond_the_fees_accounts_is_refused() {
    let mut repos = Repos::new();
    let (_cr, dr) = wallet(&mut repos, 36, 1, Currency::Stq, "0xstq");
    account(&mut repos, 108, 0, Currency::Eth, "0xfees", AccountKind::Cr);
    account(&mut repos, 111, 0, Currency::Eth, "0xfees", AccountKind::Dr);
    let f = fetcher();
    let approval = f.begin_erc20_approval(&repos, &dr).unwrap();
    let order: CreateBlockchainTx = f.erc20_approval_transfer(&approval, TransactionId(77), 4).unwrap();
    let err = f.record_erc20_approval_transfer(&mut repos, &approval, &order, "0xeth".to_string(), 100).unwrap_err();
    assert_eq!(err.context, Some(ErrorContext::BalanceOverflow));
    assert_eq!(repos.transactions_len(), 0);
    assert!(repos.get_pending(&"0xeth".to_string()).is_none());
}

#[test]
fn ledger_refuses_a_booking_that_takes_a_balance_below_zero() {
    let mut repos = Repos::new();
    let (cr, dr) = wallet(&mut repos, 36, 1, Currency::Eth, "0xa");
    let (other, _) = wallet(&mut repos, 37, 2, Currency::Eth, "0xb");
    fund(&mut repos, 1, &dr, &cr, 10);
    let transfer = |value: u128| NewTransaction {
        id: TransactionId(2),
        gid: TransactionId(2),
        user_id: UserId(1),
        dr_account_id: cr.id,
        cr_account_id: other.id,
        currency: Currency::Eth,
        value: Amount::new(value),
        status: TransactionStatus::Done,
        blockchain_tx_id: None,
        kind: TransactionKind::Internal,
        group_kind: TransactionGroupKind::Internal,
        related_tx: None,
    };
    let err = repos.create_transaction(transfer(11), 6).unwrap_err();
    assert!(matches!(err.kind, ErrorKind::Internal));
    assert_eq!(repos.transactions_len(), 1);
    assert_eq!(balance(&repos, &cr), 10);
    repos.create_transaction(transfer(10), 6).unwrap();
    assert_eq!(balance(&repos, &cr), 0);
    assert_eq!(balance(&repos, &other), 10);
}

#[test]
fn only_deposits_need_the_receivers_credit_sides() {
    let (mut repos, _cr, _dr, _fees) = withdrawal_state();
    // a debit account without its credit side at the withdrawal's receiving address
    account(&mut repos, 40, 1, Currency::Eth, "0xout", AccountKind::Dr);
    let f = fetcher();
    let bt = report("0x4f78cf324", &["0x26df8a"], &[("0xout", 30_000_000_000_000_000_000)], Currency::Eth, 1, 2);
    assert!(!repos.receivers_are_paired(&bt.to, Currency::Eth));
    assert!(!f.reaches_deposits(&repos, &bt));
    // too few confirmations: nothing changes
    let before = repos.transactions_len();
    assert!(f.handle_transaction(&mut repos, &bt, &fresh_ids(), 100).unwrap().is_empty());
    assert_eq!(repos.transactions_len(), before);
    assert_eq!(repos.seen_hashes_len(), 0);
    let deposit = report("0xnew", &["0xoutside"], &[("0xout", 1)], Currency::Eth, 0, 0);
    assert!(f.reaches_deposits(&repos, &deposit));
}
