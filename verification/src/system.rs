//! The accounts that the system itself owns: per currency a transfer account,
//! a liquidity account (for exchanges) and a fees account with its debit side.
use vstd::prelude::*;
use crate::error::{Error, ErrorContext, ErrorKind};
use crate::lookup::first_match;
use crate::models::{Account, AccountId, Currency};
use crate::repos::{has_account_id, Repos};

verus! {

/// Ids of the system accounts, as configured.
#[derive(Clone, Copy, Debug)]
pub struct SystemAccountIds {
    pub btc_transfer_account_id: AccountId,
    pub eth_transfer_account_id: AccountId,
    pub stq_transfer_account_id: AccountId,
    pub btc_liquidity_account_id: AccountId,
    pub eth_liquidity_account_id: AccountId,
    pub stq_liquidity_account_id: AccountId,
    pub btc_fees_account_id: AccountId,
    pub eth_fees_account_id: AccountId,
    pub stq_fees_account_id: AccountId,
    /// Debit sides of the fees accounts.
    pub btc_fees_dr_account_id: AccountId,
    pub eth_fees_dr_account_id: AccountId,
    pub stq_fees_dr_account_id: AccountId,
}

impl SystemAccountIds {
    pub open spec fn transfer_id(self, c: Currency) -> AccountId {
        match c {
            Currency::Btc => self.btc_transfer_account_id,
            Currency::Eth => self.eth_transfer_account_id,
            Currency::Stq => self.stq_transfer_account_id,
        }
    }

    pub open spec fn liquidity_id(self, c: Currency) -> AccountId {
        match c {
            Currency::Btc => self.btc_liquidity_account_id,
            Currency::Eth => self.eth_liquidity_account_id,
            Currency::Stq => self.stq_liquidity_account_id,
        }
    }

    pub open spec fn fees_id(self, c: Currency) -> AccountId {
        match c {
            Currency::Btc => self.btc_fees_account_id,
            Currency::Eth => self.eth_fees_account_id,
            Currency::Stq => self.stq_fees_account_id,
        }
    }

    pub open spec fn fees_dr_id(self, c: Currency) -> AccountId {
        match c {
            Currency::Btc => self.btc_fees_dr_account_id,
            Currency::Eth => self.eth_fees_dr_account_id,
            Currency::Stq => self.stq_fees_dr_account_id,
        }
    }
}

/// The stored account with this id, or `NotFound` when there is none.
pub open spec fn system_account(repos: Repos, id: AccountId) -> Result<Account, Error> {
    match first_match(repos.accounts(), has_account_id(id)) {
        Some(a) => Ok(a),
        None => Err(Error::of(ErrorKind::NotFound, ErrorContext::NoAccount)),
    }
}

/// Looks up the system accounts.
#[derive(Clone, Copy, Debug)]
pub struct SystemServiceImpl {
    pub ids: SystemAccountIds,
}

impl SystemServiceImpl {
    pub fn new(ids: SystemAccountIds) -> (r: Self)
        ensures
            r.ids == ids,
    {
        SystemServiceImpl { ids }
    }

    fn get_by_id(&self, repos: &Repos, id: AccountId) -> (r: Result<Account, Error>)
        ensures
            r == system_account(*repos, id),
    {
        match repos.get_account(id) {
            Some(a) => Ok(a),
            None => Err(Error { kind: ErrorKind::NotFound, context: Some(ErrorContext::NoAccount) }),
        }
    }

    pub fn get_system_transfer_account(&self, repos: &Repos, currency: Currency) -> (r: Result<Account, Error>)
        ensures
            r == system_account(*repos, self.ids.transfer_id(currency)),
    {
        let id = match currency {
            Currency::Btc => self.ids.btc_transfer_account_id,
            Currency::Eth => self.ids.eth_transfer_account_id,
            Currency::Stq => self.ids.stq_transfer_account_id,
        };
        self.get_by_id(repos, id)
    }

    pub fn get_system_liquidity_account(&self, repos: &Repos, currency: Currency) -> (r: Result<Account, Error>)
        ensures
            r == system_account(*repos, self.ids.liquidity_id(currency)),
    {
        let id = match currency {
            Currency::Btc => self.ids.btc_liquidity_account_id,
            Currency::Eth => self.ids.eth_liquidity_account_id,
            Currency::Stq => self.ids.stq_liquidity_account_id,
        };
        self.get_by_id(repos, id)
    }

    pub fn get_system_fees_account(&self, repos: &Repos, currency: Currency) -> (r: Result<Account, Error>)
        ensures
            r == system_account(*repos, self.ids.fees_id(currency)),
    {
        let id = match currency {
            Currency::Btc => self.ids.btc_fees_account_id,
            Currency::Eth => self.ids.eth_fees_account_id,
            Currency::Stq => self.ids.stq_fees_account_id,
        };
        self.get_by_id(repos, id)
    }

    pub fn get_system_fees_account_dr(&self, repos: &Repos, currency: Currency) -> (r: Result<Account, Error>)
        ensures
            r == system_account(*repos, self.ids.fees_dr_id(currency)),
    {
        let id = match currency {
            Currency::Btc => self.ids.btc_fees_dr_account_id,
            Currency::Eth => self.ids.eth_fees_dr_account_id,
            Currency::Stq => self.ids.stq_fees_dr_account_id,
        };
        self.get_by_id(repos, id)
    }
}

} // verus!
