//! Whether a transfer to an address is charged a blockchain fee.
use vstd::prelude::*;
use crate::error::{failure, invalid_input, Error, ErrorContext, ErrorKindView};
use crate::models::{Account, Currency};
use crate::repos::{at_address, Repos};

verus! {

/// Whether all the accounts have the currency.
pub open spec fn all_in(accounts: Seq<Account>, currency: Currency) -> bool {
    forall|i: int| 0 <= i < accounts.len() ==> (#[trigger] accounts[i]).currency == currency
}

/// Decides on the fees of transfers.
#[derive(Clone, Copy, Debug)]
pub struct FeesServiceImpl {}

impl FeesServiceImpl {
    pub fn new() -> (r: Self) {
        FeesServiceImpl {  }
    }

    /// Whether a transfer to `address` in `currency` stays inside the wallet
    /// (`true`), and so is charged no blockchain fee: the address belongs to
    /// accounts of the wallet, all of that currency. An address of the wallet
    /// with accounts of another currency is refused; any other address is
    /// outside the wallet (`false`).
    pub fn is_internal_address(&self, repos: &Repos, address: &String, currency: Currency) -> (r: Result<bool, Error>)
        ensures
            ({
                let accs = repos.accounts().filter(at_address(address@));
                if accs.len() == 0 {
                    r == Ok::<bool, Error>(false)
                } else if all_in(accs, currency) {
                    r == Ok::<bool, Error>(true)
                } else {
                    r is Err && r->Err_0@ == failure(ErrorKindView::InvalidInput("currency"@), ErrorContext::InvalidCurrency)
                }
            }),
    {
        let accs = repos.filter_accounts_by_address(address);
        if accs.len() == 0 {
            return Ok(false);
        }
        let mut i: usize = 0;
        while i < accs.len()
            invariant
                0 <= i <= accs@.len(),
                accs@ == repos.accounts().filter(at_address(address@)),
                accs@.len() > 0,
                forall|j: int| 0 <= j < i ==> (#[trigger] accs@[j]).currency == currency,
            decreases accs.len() - i,
        {
            if accs[i].currency != currency {
                proof {
                    assert(!all_in(accs@, currency));
                }
                return Err(Error { kind: invalid_input("currency"), context: Some(ErrorContext::InvalidCurrency) });
            }
            i = i + 1;
        }
        Ok(true)
    }
}

} // verus!
