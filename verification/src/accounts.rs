//! Accounts of users: creating the two sides of a wallet, reading, renaming
//! and deleting them, and their balances. Every operation but creation is
//! made on behalf of an authenticated user and only on that user's accounts.
use vstd::prelude::*;
use crate::auth::{authenticated, AuthServiceImpl};
use crate::error::{failure, res_view, Error, ErrorContext, ErrorKind, ErrorKindView, ErrorView};
use crate::lookup::{first_match, lemma_first_match_some};
use crate::models::{Account, AccountId, AccountKind, AccountWithBalance, Amount, Currency, UserId};
use crate::repos::{accounts_paired, balance_of, balance_reportable, cr_of_user, has_account_id, has_address, of_user, with_update, Repos};

verus! {

/// A request to open a wallet in a currency for a user.
#[derive(Debug)]
pub struct CreateAccount {
    pub id: AccountId,
    pub user_id: UserId,
    pub currency: Currency,
    pub name: String,
}

/// Changes to an account: a new name, and whether it is approved for token
/// transfers.
#[derive(Debug)]
pub struct UpdateAccount {
    pub name: Option<String>,
    pub erc20_approved: Option<bool>,
}

/// A request on an account of another user.
pub open spec fn not_owner() -> ErrorView {
    failure(ErrorKindView::Unauthorized, ErrorContext::InvalidToken)
}

/// The accounts of a user from position `offset`, at most `limit` of them;
/// negative bounds are a storage failure.
pub open spec fn page(accounts: Seq<Account>, offset: i64, limit: i64) -> Result<Seq<Account>, ErrorView> {
    if offset < 0 || limit < 0 {
        Err(ErrorView { kind: ErrorKindView::Internal, context: None })
    } else {
        let start = if offset as int > accounts.len() {
            accounts.len() as int
        } else {
            offset as int
        };
        let end = if start + limit as int > accounts.len() {
            accounts.len() as int
        } else {
            start + limit as int
        };
        Ok(accounts.subrange(start, end))
    }
}

/// An account with its balance, when the balance can be computed.
pub open spec fn with_balance(txs: Seq<crate::models::Transaction>, a: Account) -> Result<AccountWithBalance, ErrorView> {
    if balance_reportable(txs, a.id, a.kind) {
        Ok(AccountWithBalance { account: a, balance: Amount(balance_of(txs, a.id, a.kind) as u128) })
    } else {
        Err(failure(ErrorKindView::Internal, ErrorContext::BalanceOverflow))
    }
}

/// Opening a wallet keeps every debit account paired with a credit account:
/// the debit side is created at the address and in the currency of the
/// credit side just created.
pub proof fn law_wallets_keep_accounts_paired(accounts: Seq<Account>, cr: Account, dr: Account)
    requires
        accounts_paired(accounts),
        cr.kind == AccountKind::Cr,
        dr.address == cr.address,
        dr.currency == cr.currency,
    ensures
        accounts_paired(accounts.push(cr).push(dr)),
{
    let all = accounts.push(cr).push(dr);
    assert forall|i: int|
        0 <= i < all.len() && (#[trigger] all[i]).kind == AccountKind::Dr implies exists|j: int|
        0 <= j < all.len() && #[trigger] has_address(all[i].address@, all[i].currency, AccountKind::Cr)(all[j]) by {
        if i < accounts.len() {
            assert(all[i] == accounts[i]);
            let j = choose|j: int|
                0 <= j < accounts.len() && #[trigger] has_address(
                    accounts[i].address@,
                    accounts[i].currency,
                    AccountKind::Cr,
                )(accounts[j]);
            assert(all[j] == accounts[j]);
        } else {
            assert(has_address(all[i].address@, all[i].currency, AccountKind::Cr)(all[accounts.len() as int]));
        }
    }
}

/// Serves the accounts of users.
#[derive(Clone, Copy, Debug)]
pub struct AccountsServiceImpl {
    pub auth: AuthServiceImpl,
}

impl AccountsServiceImpl {
    pub fn new(auth: AuthServiceImpl) -> (r: Self)
        ensures
            r.auth == auth,
    {
        AccountsServiceImpl { auth }
    }

    /// Opens a wallet at the blockchain `address`: the user's credit account
    /// with the requested id and name, and its debit side at the same
    /// address, with the id `dr_id` (drawn fresh by the caller) and no name.
    /// Returns the credit account.
    pub fn create_account(&self, repos: &mut Repos, input: CreateAccount, address: String, dr_id: AccountId) -> (r: Account)
        ensures
            r == (Account {
                id: input.id,
                user_id: input.user_id,
                currency: input.currency,
                address,
                name: Some(input.name),
                kind: AccountKind::Cr,
                erc20_approved: false,
            }),
            final(repos).accounts().len() == old(repos).accounts().len() + 2,
            final(repos).accounts().take(old(repos).accounts().len() as int + 1) == old(repos).accounts().push(r),
            ({
                let dr = final(repos).accounts().last();
                dr == Account { id: dr_id, kind: AccountKind::Dr, name: None, ..r }
            }),
            final(repos).transactions() == old(repos).transactions(),
            final(repos).users() == old(repos).users(),
    {
        let cr = Account {
            id: input.id,
            user_id: input.user_id,
            currency: input.currency,
            address: address.clone(),
            name: Some(input.name),
            kind: AccountKind::Cr,
            erc20_approved: false,
        };
        let dr = Account {
            id: dr_id,
            user_id: input.user_id,
            currency: input.currency,
            address,
            name: None,
            kind: AccountKind::Dr,
            erc20_approved: false,
        };
        let result = cr.clone();
        let ghost before = repos.accounts();
        repos.create_account(cr);
        repos.create_account(dr);
        proof {
            assert(repos.accounts().take(before.len() as int + 1) =~= before.push(result));
        }
        result
    }

    /// The account with this id, if the authenticated user owns it.
    pub fn get_account(&self, repos: &Repos, token: Option<String>, account_id: AccountId) -> (r: Result<Option<Account>, Error>)
        ensures
            res_view(r) == (match authenticated(repos.users(), token) {
                Err(e) => Err(e),
                Ok(user) => match first_match(repos.accounts(), has_account_id(account_id)) {
                    Some(a) => if a.user_id != user.id {
                        Err(not_owner())
                    } else {
                        Ok(Some(a))
                    },
                    None => Ok(None),
                },
            }),
    {
        let user = self.auth.authenticate(repos, token)?;
        let account = repos.get_account(account_id);
        match account {
            Some(a) => {
                if a.user_id != user.id {
                    return Err(Error { kind: ErrorKind::Unauthorized, context: Some(ErrorContext::InvalidToken) });
                }
                Ok(Some(a))
            },
            None => Ok(None),
        }
    }

    /// Changes an account of the authenticated user; a missing account is a
    /// storage failure. A refused change changes nothing.
    pub fn update_account(
        &self,
        repos: &mut Repos,
        token: Option<String>,
        account_id: AccountId,
        payload: UpdateAccount,
    ) -> (r: Result<Account, Error>)
        ensures
            res_view(r) == (match authenticated(old(repos).users(), token) {
                Err(e) => Err(e),
                Ok(user) => match first_match(old(repos).accounts(), has_account_id(account_id)) {
                    None => Err(ErrorView { kind: ErrorKindView::Internal, context: None }),
                    Some(a) => if a.user_id != user.id {
                        Err(not_owner())
                    } else {
                        Ok(with_update(a, account_id, payload.name, payload.erc20_approved))
                    },
                },
            }),
            r is Ok ==> final(repos).accounts() == old(repos).accounts().map_values(
                |a: Account| with_update(a, account_id, payload.name, payload.erc20_approved),
            ),
            r is Err ==> final(repos).accounts() == old(repos).accounts(),
            final(repos).transactions() == old(repos).transactions(),
            final(repos).users() == old(repos).users(),
    {
        let user = self.auth.authenticate(repos, token)?;
        let account = match repos.get_account(account_id) {
            Some(a) => a,
            None => {
                return Err(Error { kind: ErrorKind::Internal, context: None });
            },
        };
        if account.user_id != user.id {
            return Err(Error { kind: ErrorKind::Unauthorized, context: Some(ErrorContext::InvalidToken) });
        }
        proof {
            lemma_first_match_some(repos.accounts(), has_account_id(account_id));
        }
        repos.update_account(account_id, &payload.name, payload.erc20_approved);
        let mut updated = account;
        match payload.name {
            Some(n) => {
                updated.name = Some(n);
            },
            None => {},
        }
        match payload.erc20_approved {
            Some(b) => {
                updated.erc20_approved = b;
            },
            None => {},
        }
        Ok(updated)
    }

    /// Deletes an account of the authenticated user; a missing account is a
    /// storage failure. A refused deletion changes nothing.
    pub fn delete_account(&self, repos: &mut Repos, token: Option<String>, account_id: AccountId) -> (r: Result<
        Account,
        Error,
    >)
        ensures
            res_view(r) == (match authenticated(old(repos).users(), token) {
                Err(e) => Err(e),
                Ok(user) => match first_match(old(repos).accounts(), has_account_id(account_id)) {
                    None => Err(ErrorView { kind: ErrorKindView::Internal, context: None }),
                    Some(a) => if a.user_id != user.id {
                        Err(not_owner())
                    } else {
                        Ok(a)
                    },
                },
            }),
            r is Ok ==> exists|k: int|
                0 <= k < old(repos).accounts().len() && old(repos).accounts()[k] == r->Ok_0 && #[trigger] final(repos).accounts() == old(repos).accounts().remove(k),
            r is Err ==> final(repos).accounts() == old(repos).accounts(),
            final(repos).transactions() == old(repos).transactions(),
            final(repos).users() == old(repos).users(),
    {
        let user = self.auth.authenticate(repos, token)?;
        let account = match repos.get_account(account_id) {
            Some(a) => a,
            None => {
                return Err(Error { kind: ErrorKind::Internal, context: None });
            },
        };
        if account.user_id != user.id {
            return Err(Error { kind: ErrorKind::Unauthorized, context: Some(ErrorContext::InvalidToken) });
        }
        match repos.delete_account(account_id) {
            Some(a) => Ok(a),
            None => Err(Error { kind: ErrorKind::Internal, context: None }),
        }
    }

    /// A page of the accounts of the authenticated user (see `page`).
    pub fn get_accounts_for_user(
        &self,
        repos: &Repos,
        token: Option<String>,
        user_id: UserId,
        offset: i64,
        limit: i64,
    ) -> (r: Result<Vec<Account>, Error>)
        ensures
            (match r {
                Ok(v) => Ok(v@),
                Err(e) => Err(e@),
            }) == (match authenticated(repos.users(), token) {
                Err(e) => Err(e),
                Ok(user) => if user_id != user.id {
                    Err(not_owner())
                } else {
                    page(repos.accounts().filter(of_user(user_id)), offset, limit)
                },
            }),
    {
        let user = self.auth.authenticate(repos, token)?;
        if user_id != user.id {
            return Err(Error { kind: ErrorKind::Unauthorized, context: Some(ErrorContext::InvalidToken) });
        }
        if offset < 0 || limit < 0 {
            return Err(Error { kind: ErrorKind::Internal, context: None });
        }
        let all = repos.accounts_of_user(user_id);
        let n = all.len();
        let start: usize = if offset as u64 > n as u64 {
            n
        } else {
            offset as usize
        };
        let end: usize = if limit as u64 > (n - start) as u64 {
            n
        } else {
            start + limit as usize
        };
        let mut r: Vec<Account> = Vec::new();
        let mut i: usize = start;
        while i < end
            invariant
                start <= i <= end <= all@.len(),
                r@ == all@.subrange(start as int, i as int),
            decreases end - i,
        {
            r.push(all[i].clone());
            proof {
                assert(r@ =~= all@.subrange(start as int, i + 1));
            }
            i = i + 1;
        }
        Ok(r)
    }

    /// An account of the authenticated user with its balance.
    pub fn get_account_balance(&self, repos: &Repos, token: Option<String>, account_id: AccountId) -> (r: Result<
        AccountWithBalance,
        Error,
    >)
        ensures
            res_view(r) == (match authenticated(repos.users(), token) {
                Err(e) => Err(e),
                Ok(user) => match first_match(repos.accounts(), has_account_id(account_id)) {
                    None => Err(failure(ErrorKindView::NotFound, ErrorContext::NoAccount)),
                    Some(a) => if a.user_id != user.id {
                        Err(not_owner())
                    } else {
                        with_balance(repos.transactions(), a)
                    },
                },
            }),
    {
        let user = self.auth.authenticate(repos, token)?;
        let account = match repos.get_account(account_id) {
            Some(a) => a,
            None => {
                return Err(Error { kind: ErrorKind::NotFound, context: Some(ErrorContext::NoAccount) });
            },
        };
        if account.user_id != user.id {
            return Err(Error { kind: ErrorKind::Unauthorized, context: Some(ErrorContext::InvalidToken) });
        }
        let balance = repos.account_balance(account.id, account.kind)?;
        Ok(AccountWithBalance { account, balance })
    }

    /// The balances of the credit accounts of the authenticated user, in
    /// stored order.
    pub fn get_user_balance(&self, repos: &Repos, token: Option<String>, user_id: UserId) -> (r: Result<
        Vec<AccountWithBalance>,
        Error,
    >)
        ensures
            match authenticated(repos.users(), token) {
                Err(e) => r is Err && r->Err_0@ == e,
                Ok(user) => if user_id != user.id {
                    r is Err && r->Err_0@ == not_owner()
                } else {
                    let accs = repos.accounts().filter(cr_of_user(user_id));
                    if forall|k: int| 0 <= k < accs.len() ==> #[trigger] with_balance(repos.transactions(), accs[k]) is Ok {
                        r is Ok && r->Ok_0@ == accs.map_values(
                            |a: Account| with_balance(repos.transactions(), a)->Ok_0,
                        )
                    } else {
                        r is Err && r->Err_0@ == failure(ErrorKindView::Internal, ErrorContext::BalanceOverflow)
                    }
                },
            },
    {
        let user = self.auth.authenticate(repos, token)?;
        if user_id != user.id {
            return Err(Error { kind: ErrorKind::Unauthorized, context: Some(ErrorContext::InvalidToken) });
        }
        let accs = repos.cr_accounts_of_user(user_id);
        let mut r: Vec<AccountWithBalance> = Vec::new();
        let mut i: usize = 0;
        while i < accs.len()
            invariant
                0 <= i <= accs@.len(),
                accs@ == repos.accounts().filter(cr_of_user(user_id)),
                authenticated(repos.users(), token) == Ok::<crate::models::User, ErrorView>(user),
                user_id == user.id,
                forall|k: int| 0 <= k < i ==> #[trigger] with_balance(repos.transactions(), accs@[k]) is Ok,
                r@ == accs@.take(i as int).map_values(|a: Account| with_balance(repos.transactions(), a)->Ok_0),
            decreases accs.len() - i,
        {
            let a = accs[i].clone();
            let balance = match repos.account_balance(a.id, a.kind) {
                Ok(b) => b,
                Err(e) => {
                    proof {
                        assert(with_balance(repos.transactions(), accs@[i as int]) is Err);
                        assert(!(forall|k: int|
                            0 <= k < accs@.len() ==> #[trigger] with_balance(repos.transactions(), accs@[k]) is Ok));
                    }
                    return Err(e);
                },
            };
            r.push(AccountWithBalance { account: a, balance });
            proof {
                assert(r@ =~= accs@.take(i + 1).map_values(
                    |a: Account| with_balance(repos.transactions(), a)->Ok_0,
                ));
            }
            i = i + 1;
        }
        proof {
            assert(accs@.take(accs@.len() as int) =~= accs@);
        }
        Ok(r)
    }
}

} // verus!
