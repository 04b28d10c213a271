//! Decisions around sending transactions to the blockchains: who sends a
//! transfer, which nonce it takes, under which id it is tracked, and the
//! record kept of it while it waits for confirmation.
use vstd::prelude::*;
use crate::error::{Error, ErrorContext, ErrorKind, ErrorKindView, ErrorView};
use crate::models::{Amount, Currency, TransactionId};
use crate::repos::{nonce_of, PendingBlockchainTransaction, Repos};
use crate::system::{system_account, SystemServiceImpl};

verus! {

/// A transfer to sign and send to a blockchain.
#[derive(Debug)]
pub struct CreateBlockchainTx {
    pub id: TransactionId,
    pub from: String,
    pub to: String,
    pub currency: Currency,
    pub value: Amount,
    pub fee_price: Amount,
    pub nonce: Option<u64>,
}

/// The nonce stored for an address, and when it was stored (seconds).
#[derive(Clone, Copy, Debug)]
pub struct StoredNonce {
    pub value: u64,
    pub updated_at: u64,
}

/// The nonce that a transfer takes, and the nonce to store for the next one.
#[derive(Clone, Copy, Debug, PartialEq, Eq, Structural)]
pub struct NonceChoice {
    pub nonce: u64,
    pub next: u64,
}

/// How long a stored nonce is trusted over the blockchain's, in seconds.
pub const NONCE_TRUST_SECS: u64 = 60;

/// The nonce of a transfer: the blockchain's when none is stored or the
/// stored one is more than a minute old; otherwise the larger of the two (the
/// blockchain may not count a transfer sent just before). The next transfer
/// takes the one after it.
pub open spec fn nonce_choice(stored: Option<StoredNonce>, chain_nonce: u64, now: u64) -> NonceChoice {
    let nonce = match stored {
        None => chain_nonce,
        Some(s) => if now >= s.updated_at && now - s.updated_at > NONCE_TRUST_SECS {
            chain_nonce
        } else if s.value >= chain_nonce {
            s.value
        } else {
            chain_nonce
        },
    };
    NonceChoice { nonce, next: (nonce + 1) as u64 }
}

/// Two transfers sent from one address at most a minute apart take strictly
/// increasing nonces: the second starts from the nonce that the first stored
/// (its nonce plus one), whatever nonce the blockchain reports the second time.
pub proof fn law_nonces_increase(stored: Option<StoredNonce>, chain1: u64, now1: u64, chain2: u64, now2: u64)
    requires
        chain1 < u64::MAX,
        stored matches Some(s) ==> s.value < u64::MAX,
        now1 <= now2 <= now1 + NONCE_TRUST_SECS,
    ensures
        ({
            let first = nonce_choice(stored, chain1, now1);
            let second = nonce_choice(Some(StoredNonce { value: first.next, updated_at: now1 }), chain2, now2);
            second.nonce > first.nonce
        }),
{
}

/// The currency in which the blockchain fee of a withdrawal in `c` is paid:
/// ether for the token, which moves on the ethereum blockchain.
pub open spec fn fee_estimate_currency(c: Currency) -> Currency {
    match c {
        Currency::Btc => Currency::Btc,
        Currency::Eth => Currency::Eth,
        Currency::Stq => Currency::Eth,
    }
}

/// The size of a transfer that a blockchain fee is priced by: bytes of a
/// bitcoin transaction, gas of an ether or a token transfer.
#[derive(Clone, Copy, Debug)]
pub struct TransferSizes {
    pub btc_transaction_size: u64,
    pub eth_gas_limit: u64,
    pub stq_gas_limit: u64,
}

/// The size of a withdrawal in `c`.
pub open spec fn transfer_size(sizes: TransferSizes, c: Currency) -> u64 {
    match c {
        Currency::Btc => sizes.btc_transaction_size,
        Currency::Eth => sizes.eth_gas_limit,
        Currency::Stq => sizes.stq_gas_limit,
    }
}

/// A withdrawal is priced by the configured size of its own currency: an
/// ether withdrawal by the ether gas limit, a token withdrawal by the token
/// gas limit and a bitcoin withdrawal by the bitcoin transaction size; so two
/// settings that agree on a currency's size price its withdrawals alike,
/// whatever the sizes of the other currencies. Token withdrawals pay their
/// fee in ether, the others in their own currency.
pub proof fn law_withdrawal_priced_by_its_own_size(sizes: TransferSizes, other: TransferSizes)
    ensures
        transfer_size(sizes, Currency::Eth) == sizes.eth_gas_limit,
        transfer_size(sizes, Currency::Stq) == sizes.stq_gas_limit,
        transfer_size(sizes, Currency::Btc) == sizes.btc_transaction_size,
        other.eth_gas_limit == sizes.eth_gas_limit ==> transfer_size(other, Currency::Eth) == transfer_size(
            sizes,
            Currency::Eth,
        ),
        other.stq_gas_limit == sizes.stq_gas_limit ==> transfer_size(other, Currency::Stq) == transfer_size(
            sizes,
            Currency::Stq,
        ),
        other.btc_transaction_size == sizes.btc_transaction_size ==> transfer_size(other, Currency::Btc)
            == transfer_size(sizes, Currency::Btc),
        fee_estimate_currency(Currency::Eth) == Currency::Eth,
        fee_estimate_currency(Currency::Stq) == Currency::Eth,
        fee_estimate_currency(Currency::Btc) == Currency::Btc,
{
}

/// The short code of a currency.
pub open spec fn currency_code(c: Currency) -> Seq<char> {
    match c {
        Currency::Btc => "btc"@,
        Currency::Eth => "eth"@,
        Currency::Stq => "stq"@,
    }
}

/// The id under which a sent ethereum transfer is tracked: its hash, and for
/// a token transfer the hash with the number of its event log (`:0`).
pub open spec fn ethereum_tx_id(currency: Currency, hash: Seq<char>) -> Seq<char> {
    match currency {
        Currency::Eth => hash,
        _ => hash + ":0"@,
    }
}

/// The record kept of a sent transfer while it waits for confirmation.
pub open spec fn pending_record(tx: CreateBlockchainTx, hash: String) -> PendingBlockchainTransaction {
    PendingBlockchainTransaction { hash, from: tx.from, to: tx.to, currency: tx.currency, value: tx.value }
}

/// Decisions of the blockchain service.
#[derive(Clone, Copy, Debug)]
pub struct BlockchainServiceImpl {
    pub system: SystemServiceImpl,
}

impl BlockchainServiceImpl {
    pub fn new(system: SystemServiceImpl) -> (r: Self)
        ensures
            r.system == system,
    {
        BlockchainServiceImpl { system }
    }

    /// The short code of a currency.
    pub fn currency_code(currency: Currency) -> (r: String)
        ensures
            r@ == currency_code(currency),
    {
        broadcast use vstd::string::to_string_from_display_ensures_for_str;

        match currency {
            Currency::Btc => "btc".to_string(),
            Currency::Eth => "eth".to_string(),
            Currency::Stq => "stq".to_string(),
        }
    }

    /// The address that sends an ethereum transfer of `currency` from `from`:
    /// the address itself for ether; for tokens, the address of the ether
    /// fees account, which pays for the gas. Only ether and tokens go over
    /// the ethereum blockchain.
    pub fn ethereum_tx_initiator(&self, repos: &Repos, from: String, currency: Currency) -> (r: Result<String, Error>)
        ensures
            match currency {
                Currency::Btc => r is Err && r->Err_0@ == ErrorView {
                    kind: ErrorKindView::InvalidInput(currency_code(currency)),
                    context: Some(ErrorContext::InvalidCurrency),
                },
                Currency::Eth => r == Ok::<String, Error>(from),
                Currency::Stq => match system_account(*repos, self.system.ids.fees_id(Currency::Eth)) {
                    Ok(a) => r == Ok::<String, Error>(a.address),
                    Err(e) => r is Err && r->Err_0@ == ErrorView { kind: ErrorKindView::Internal, context: e.context },
                },
            },
    {
        match currency {
            Currency::Btc => Err(
                Error {
                    kind: ErrorKind::InvalidInput(Self::currency_code(currency)),
                    context: Some(ErrorContext::InvalidCurrency),
                },
            ),
            Currency::Eth => Ok(from),
            Currency::Stq => match self.system.get_system_fees_account(repos, Currency::Eth) {
                Ok(a) => Ok(a.address),
                Err(e) => Err(Error { kind: ErrorKind::Internal, context: e.context }),
            },
        }
    }

    /// Chooses the nonce of an ethereum transfer at time `now` (see `nonce_choice`).
    pub fn choose_nonce(stored: Option<StoredNonce>, chain_nonce: u64, now: u64) -> (r: NonceChoice)
        requires
            chain_nonce < u64::MAX,
            stored matches Some(s) ==> s.value < u64::MAX,
        ensures
            r == nonce_choice(stored, chain_nonce, now),
    {
        let nonce = match stored {
            None => chain_nonce,
            Some(s) => {
                if now >= s.updated_at && now - s.updated_at > NONCE_TRUST_SECS {
                    chain_nonce
                } else if s.value >= chain_nonce {
                    s.value
                } else {
                    chain_nonce
                }
            },
        };
        NonceChoice { nonce, next: nonce + 1 }
    }

    /// The currency in which the blockchain fee of a withdrawal in
    /// `withdrawal_currency` is estimated and paid (see `fee_estimate_currency`).
    pub fn estimate_currency(withdrawal_currency: Currency) -> (r: Currency)
        ensures
            r == fee_estimate_currency(withdrawal_currency),
    {
        match withdrawal_currency {
            Currency::Btc => Currency::Btc,
            Currency::Eth => Currency::Eth,
            Currency::Stq => Currency::Eth,
        }
    }

    /// The size by which the fee of a withdrawal in `withdrawal_currency` is
    /// priced (see `transfer_size`).
    pub fn withdrawal_size(sizes: &TransferSizes, withdrawal_currency: Currency) -> (r: u64)
        ensures
            r == transfer_size(*sizes, withdrawal_currency),
    {
        match withdrawal_currency {
            Currency::Btc => sizes.btc_transaction_size,
            Currency::Eth => sizes.eth_gas_limit,
            Currency::Stq => sizes.stq_gas_limit,
        }
    }

    /// The part of the fee that the user offered that goes to the
    /// blockchain: the offer divided by the wallet's upside factor; with an
    /// upside of zero the division overflows and the estimate is refused.
    pub fn blockchain_fee_share(offered: Amount, upside: Amount) -> (r: Result<Amount, Error>)
        ensures
            upside.0 == 0 ==> r == Err::<Amount, Error>(Error::of(ErrorKind::Internal, ErrorContext::BalanceOverflow)),
            upside.0 != 0 ==> r == Ok::<Amount, Error>(Amount(offered.0 / upside.0)),
    {
        match offered.checked_div(upside) {
            Some(v) => Ok(v),
            None => Err(Error { kind: ErrorKind::Internal, context: Some(ErrorContext::BalanceOverflow) }),
        }
    }

    /// The whole fee price per unit of size: the estimated fee divided by the
    /// transfer's size; refused with a size of zero.
    pub fn whole_fee_price(total: Amount, size: u64) -> (r: Result<Amount, Error>)
        ensures
            size == 0 ==> r == Err::<Amount, Error>(Error::of(ErrorKind::Internal, ErrorContext::BalanceOverflow)),
            size != 0 ==> r == Ok::<Amount, Error>(Amount(total.0 / size as u128)),
    {
        match total.checked_div(Amount(size as u128)) {
            Some(v) => Ok(v),
            None => Err(Error { kind: ErrorKind::Internal, context: Some(ErrorContext::BalanceOverflow) }),
        }
    }

    /// The nonce that a transfer sent by `initiator` at time `now` takes,
    /// given the nonce that the blockchain reports (see `nonce_choice`); the
    /// nonce after it is stored for the next transfer.
    pub fn next_nonce(&self, repos: &mut Repos, initiator: &String, chain_nonce: u64, now: u64) -> (r: u64)
        requires
            chain_nonce < u64::MAX,
            nonce_of(old(repos).nonces(), initiator@) matches Some(s) ==> s.value < u64::MAX,
        ensures
            r == nonce_choice(nonce_of(old(repos).nonces(), initiator@), chain_nonce, now).nonce,
            nonce_of(final(repos).nonces(), initiator@) == Some(StoredNonce { value: (r + 1) as u64, updated_at: now }),
            forall|a: Seq<char>|
                a != initiator@ ==> nonce_of(final(repos).nonces(), a) == nonce_of(old(repos).nonces(), a),
            final(repos).same_except_transactions(old(repos)),
            final(repos).transactions() == old(repos).transactions(),
    {
        let stored = repos.get_nonce(initiator);
        let choice = Self::choose_nonce(stored, chain_nonce, now);
        repos.set_nonce(initiator.clone(), StoredNonce { value: choice.next, updated_at: now });
        choice.nonce
    }

    /// The id under which a sent ethereum transfer is tracked (see `ethereum_tx_id`).
    pub fn ethereum_tx_id(currency: Currency, hash: String) -> (r: String)
        ensures
            r@ == ethereum_tx_id(currency, hash@),
    {
        match currency {
            Currency::Eth => hash,
            _ => hash.concat(":0"),
        }
    }

    /// Keeps the record of a sent transfer while it waits for confirmation.
    pub fn record_pending(&self, repos: &mut Repos, tx: &CreateBlockchainTx, hash: String)
        ensures
            final(repos).pending() == old(repos).pending().push(pending_record(*tx, hash)),
            final(repos).transactions() == old(repos).transactions(),
            final(repos).users() == old(repos).users(),
            final(repos).accounts() == old(repos).accounts(),
            final(repos).seen_hashes() == old(repos).seen_hashes(),
            final(repos).blockchain_transactions() == old(repos).blockchain_transactions(),
            final(repos).strange() == old(repos).strange(),
    {
        repos.create_pending(
            PendingBlockchainTransaction {
                hash,
                from: tx.from.clone(),
                to: tx.to.clone(),
                currency: tx.currency,
                value: tx.value,
            },
        );
    }
}

} // verus!
