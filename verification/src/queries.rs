//! Reading transactions: one transaction with its group, the balance of an
//! account, and grouping transactions by the transfer they belong to.
use vstd::prelude::*;
use crate::accounts::{not_owner, with_balance, AccountsServiceImpl};
use crate::auth::authenticated;
use crate::converter::{shows, ConverterServiceImpl, Shown};
use crate::error::{failure, res_view, Error, ErrorContext, ErrorKind, ErrorKindView, ErrorView};
use crate::lookup::{first_match, lemma_first_match_some};
use crate::models::{AccountId, AccountWithBalance, Transaction, TransactionId, TransactionOut, UserId};
use crate::repos::{has_account_id, has_gid, has_tx_id, page_of, visible_for_account, visible_to_user, Repos};
use crate::transactions::TransactionsServiceImpl;

verus! {

/// Whether `ids` holds `id`.
pub open spec fn has_gid_in(ids: Seq<TransactionId>, id: TransactionId) -> bool {
    exists|j: int| 0 <= j < ids.len() && ids[j] == id
}

/// The group ids of the transactions, each once, in the order in which they
/// first occur.
pub open spec fn group_ids(txs: Seq<Transaction>) -> Seq<TransactionId>
    decreases txs.len(),
{
    if txs.len() == 0 {
        Seq::empty()
    } else {
        let ids = group_ids(txs.drop_last());
        if has_gid_in(ids, txs.last().gid) {
            ids
        } else {
            ids.push(txs.last().gid)
        }
    }
}

/// The position at which a transaction created at `t` goes into a list that
/// is newest first: after every one created at `t` or later.
pub open spec fn insert_pos(sorted: Seq<TransactionOut>, t: u64) -> int
    decreases sorted.len(),
{
    if sorted.len() == 0 {
        0
    } else if sorted[0].created_at < t {
        0
    } else {
        1 + insert_pos(sorted.drop_first(), t)
    }
}

/// The transactions newest first; among those created at the same time, the
/// later in `s` come first.
pub open spec fn newest_first(s: Seq<TransactionOut>) -> Seq<TransactionOut>
    decreases s.len(),
{
    if s.len() == 0 {
        Seq::empty()
    } else {
        let rest = newest_first(s.drop_first());
        rest.insert(insert_pos(rest, s[0].created_at), s[0])
    }
}

proof fn lemma_insert_pos_bounds(sorted: Seq<TransactionOut>, t: u64)
    ensures
        0 <= insert_pos(sorted, t) <= sorted.len(),
    decreases sorted.len(),
{
    if sorted.len() > 0 {
        lemma_insert_pos_bounds(sorted.drop_first(), t);
    }
}

proof fn lemma_newest_first_len(s: Seq<TransactionOut>)
    ensures
        newest_first(s).len() == s.len(),
    decreases s.len(),
{
    if s.len() > 0 {
        lemma_newest_first_len(s.drop_first());
        lemma_insert_pos_bounds(newest_first(s.drop_first()), s[0].created_at);
    }
}

/// Orders presented transactions newest first (see `newest_first`).
pub fn sort_newest_first(outs: Vec<TransactionOut>) -> (r: Vec<TransactionOut>)
    ensures
        r@ == newest_first(outs@),
{
    let ghost orig = outs@;
    let n = outs.len();
    let mut outs = outs;
    let mut r: Vec<TransactionOut> = Vec::new();
    proof {
        assert(orig.subrange(n as int, n as int) =~= Seq::<TransactionOut>::empty());
    }
    while outs.len() > 0
        invariant
            outs.len() <= n,
            n == orig.len(),
            outs@ == orig.take(outs.len() as int),
            r@ == newest_first(orig.subrange(outs.len() as int, n as int)),
        decreases outs.len(),
    {
        let ghost len = outs.len() as int;
        let x = outs.pop().unwrap();
        proof {
            assert(x == orig[len - 1]);
            assert(outs@ =~= orig.take(len - 1));
            assert(orig.subrange(len - 1, n as int).drop_first() =~= orig.subrange(len, n as int));
            assert(orig.subrange(len - 1, n as int)[0] == x);
            lemma_newest_first_len(orig.subrange(len, n as int));
            lemma_insert_pos_bounds(r@, x.created_at);
            assert(r@.subrange(0, r@.len() as int) =~= r@);
        }
        let mut j: usize = 0;
        while j < r.len() && r[j].created_at >= x.created_at
            invariant
                0 <= j <= r@.len(),
                insert_pos(r@, x.created_at) == j + insert_pos(r@.subrange(j as int, r@.len() as int), x.created_at),
            decreases r.len() - j,
        {
            proof {
                assert(r@.subrange(j as int, r@.len() as int).drop_first() =~= r@.subrange(j + 1, r@.len() as int));
            }
            j = j + 1;
        }
        proof {
            if j < r@.len() {
                assert(r@.subrange(j as int, r@.len() as int)[0] == r@[j as int]);
            }
        }
        r.insert(j, x);
    }
    proof {
        assert(orig.subrange(0, n as int) =~= orig);
    }
    r
}

/// Grouping loses no transaction: the group id of every transaction is one
/// of the group ids, so every transaction is in the group of its id.
pub proof fn law_grouping_keeps_every_transaction(txs: Seq<Transaction>)
    ensures
        forall|k: int| 0 <= k < txs.len() ==> has_gid_in(group_ids(txs), #[trigger] txs[k].gid),
    decreases txs.len(),
{
    if txs.len() > 0 {
        let init = txs.drop_last();
        law_grouping_keeps_every_transaction(init);
        let ids = group_ids(init);
        assert forall|k: int| 0 <= k < txs.len() implies has_gid_in(group_ids(txs), #[trigger] txs[k].gid) by {
            if k < txs.len() - 1 {
                assert(txs[k] == init[k]);
                let j = choose|j: int| 0 <= j < ids.len() && ids[j] == init[k].gid;
                if !has_gid_in(ids, txs.last().gid) {
                    assert(group_ids(txs)[j] == ids[j]);
                }
            } else if !has_gid_in(ids, txs.last().gid) {
                assert(group_ids(txs)[ids.len() as int] == txs.last().gid);
            }
        }
    }
}

/// Splits transactions into the groups of the transfers they belong to: one
/// group per group id, in the order in which the ids first occur, each with
/// its transactions in their order.
pub fn group_transactions(transactions: &Vec<Transaction>) -> (r: Vec<Vec<Transaction>>)
    ensures
        r@.len() == group_ids(transactions@).len(),
        forall|i: int|
            0 <= i < r@.len() ==> (#[trigger] r@[i])@ == transactions@.filter(has_gid(group_ids(transactions@)[i])),
{
    let mut ids: Vec<TransactionId> = Vec::new();
    let mut i: usize = 0;
    while i < transactions.len()
        invariant
            0 <= i <= transactions@.len(),
            ids@ == group_ids(transactions@.take(i as int)),
        decreases transactions.len() - i,
    {
        proof {
            assert(transactions@.take(i + 1).drop_last() =~= transactions@.take(i as int));
        }
        let gid = transactions[i].gid;
        let mut found = false;
        let mut j: usize = 0;
        while j < ids.len()
            invariant
                0 <= j <= ids@.len(),
                found == (exists|k: int| 0 <= k < j && ids@[k] == gid),
            decreases ids.len() - j,
        {
            if ids[j] == gid {
                found = true;
            }
            j = j + 1;
        }
        if !found {
            ids.push(gid);
        }
        i = i + 1;
    }
    proof {
        assert(transactions@.take(transactions@.len() as int) =~= transactions@);
    }
    let mut groups: Vec<Vec<Transaction>> = Vec::new();
    let mut g: usize = 0;
    while g < ids.len()
        invariant
            0 <= g <= ids@.len(),
            ids@ == group_ids(transactions@),
            groups@.len() == g,
            forall|x: int| 0 <= x < g ==> (#[trigger] groups@[x])@ == transactions@.filter(has_gid(ids@[x])),
        decreases ids.len() - g,
    {
        let gid = ids[g];
        let ghost p = has_gid(gid);
        proof {
            crate::lookup::lemma_filter_ends(transactions@, p);
        }
        let mut group: Vec<Transaction> = Vec::new();
        let mut k: usize = 0;
        while k < transactions.len()
            invariant
                0 <= k <= transactions@.len(),
                p == has_gid(gid),
                group@ == transactions@.take(k as int).filter(p),
            decreases transactions.len() - k,
        {
            if transactions[k].gid == gid {
                group.push(transactions[k].clone());
            }
            proof {
                crate::lookup::lemma_filter_step(transactions@, p, k as int);
            }
            k = k + 1;
        }
        proof {
            assert(transactions@.take(transactions@.len() as int) =~= transactions@);
        }
        groups.push(group);
        g = g + 1;
    }
    groups
}

/// The group of `txs` with the `i`-th group id.
pub open spec fn group_at(txs: Seq<Transaction>, i: int) -> Seq<Transaction> {
    txs.filter(has_gid(group_ids(txs)[i]))
}

/// Every group of `txs` can be presented.
pub open spec fn all_presentable(c: ConverterServiceImpl, s: Repos, txs: Seq<Transaction>) -> bool {
    forall|i: int| 0 <= i < group_ids(txs).len() ==> #[trigger] c.conversion(s, group_at(txs, i)) is Ok
}

/// `outs` presents the groups of `txs`, in the order of their group ids.
pub open spec fn presents(c: ConverterServiceImpl, s: Repos, txs: Seq<Transaction>, outs: Seq<TransactionOut>) -> bool {
    &&& outs.len() == group_ids(txs).len()
    &&& forall|i: int|
        0 <= i < outs.len() ==> {
            shows(#[trigger] outs[i], c.conversion(s, group_at(txs, i))->Ok_0)
        }
}

/// `e` is the failure of the first group of `txs` that cannot be presented.
pub open spec fn first_failure(c: ConverterServiceImpl, s: Repos, txs: Seq<Transaction>, e: ErrorView) -> bool {
    exists|i: int|
        0 <= i < group_ids(txs).len() && c.conversion(s, group_at(txs, i)) == Err::<Shown, ErrorView>(e) && forall|j: int| 0 <= j < i ==> #[trigger] c.conversion(s, group_at(txs, j)) is Ok
}

/// The outcome of listing the transactions `txs`: their groups presented
/// newest first, or the failure of the first group that cannot be presented.
pub open spec fn listed(c: ConverterServiceImpl, s: Repos, txs: Seq<Transaction>, r: Result<Vec<TransactionOut>, Error>) -> bool {
    match r {
        Ok(v) => all_presentable(c, s, txs) && exists|outs: Seq<TransactionOut>|
            presents(c, s, txs, outs) && v@ == newest_first(outs),
        Err(e) => !all_presentable(c, s, txs) && first_failure(c, s, txs, e@),
    }
}

/// Every group id of `txs` is the group id of one of its transactions.
proof fn lemma_group_ids_occur(txs: Seq<Transaction>)
    ensures
        forall|i: int|
            0 <= i < group_ids(txs).len() ==> exists|k: int|
                0 <= k < txs.len() && #[trigger] txs[k].gid == #[trigger] group_ids(txs)[i],
    decreases txs.len(),
{
    if txs.len() > 0 {
        let init = txs.drop_last();
        lemma_group_ids_occur(init);
        assert forall|i: int| 0 <= i < group_ids(txs).len() implies exists|k: int|
            0 <= k < txs.len() && #[trigger] txs[k].gid == #[trigger] group_ids(txs)[i] by {
            if i < group_ids(init).len() {
                let k = choose|k: int| 0 <= k < init.len() && #[trigger] init[k].gid == #[trigger] group_ids(init)[i];
                assert(txs[k] == init[k]);
            } else {
                assert(txs[txs.len() - 1].gid == group_ids(txs)[i]);
            }
        }
    }
}

/// Every group of `txs` is non-empty and of one group id, so it can be presented.
proof fn lemma_groups_convertible(c: ConverterServiceImpl, txs: Seq<Transaction>, i: int)
    requires
        0 <= i < group_ids(txs).len(),
    ensures
        c.convertible(group_at(txs, i)),
{
    broadcast use vstd::seq_lib::group_filter_ensures;

    lemma_group_ids_occur(txs);
    let id = group_ids(txs)[i];
    let k = choose|k: int| 0 <= k < txs.len() && #[trigger] txs[k].gid == #[trigger] group_ids(txs)[i];
    assert(has_gid(id)(txs[k]));
    assert(txs.filter(has_gid(id)).contains(txs[k]));
    let g = group_at(txs, i);
    assert forall|j: int| 0 <= j < g.len() implies (#[trigger] g[j]).gid == g[0].gid by {
        assert(has_gid(id)(g[j]));
        assert(has_gid(id)(g[0]));
    }
}

fn clone_transactions(v: &Vec<Transaction>) -> (r: Vec<Transaction>)
    ensures
        r@ == v@,
{
    let mut r: Vec<Transaction> = Vec::new();
    let mut i: usize = 0;
    while i < v.len()
        invariant
            0 <= i <= v@.len(),
            r@ == v@.take(i as int),
        decreases v.len() - i,
    {
        r.push(v[i].clone());
        proof {
            assert(r@ =~= v@.take(i + 1));
        }
        i = i + 1;
    }
    proof {
        assert(v@.take(v@.len() as int) =~= v@);
    }
    r
}

/// Presents the groups of `txs` newest first (see `listed`).
fn present_groups(c: &ConverterServiceImpl, repos: &Repos, txs: &Vec<Transaction>) -> (r: Result<Vec<TransactionOut>, Error>)
    ensures
        listed(*c, *repos, txs@, r),
{
    let groups = group_transactions(txs);
    let ghost ids = group_ids(txs@);
    let mut outs: Vec<TransactionOut> = Vec::new();
    let mut i: usize = 0;
    while i < groups.len()
        invariant
            0 <= i <= groups@.len(),
            groups@.len() == ids.len(),
            ids == group_ids(txs@),
            forall|x: int| 0 <= x < groups@.len() ==> (#[trigger] groups@[x])@ == txs@.filter(has_gid(ids[x])),
            outs@.len() == i,
            forall|x: int| 0 <= x < i ==> #[trigger] c.conversion(*repos, group_at(txs@, x)) is Ok,
            forall|x: int|
                0 <= x < i ==> {
                    shows(#[trigger] outs@[x], c.conversion(*repos, group_at(txs@, x))->Ok_0)
                },
        decreases groups.len() - i,
    {
        let group = clone_transactions(&groups[i]);
        proof {
            assert(group@ == group_at(txs@, i as int));
            lemma_groups_convertible(*c, txs@, i as int);
        }
        match c.convert_transaction(repos, group) {
            Ok(o) => {
                outs.push(o);
            },
            Err(e) => {
                proof {
                    assert(!all_presentable(*c, *repos, txs@));
                    assert(first_failure(*c, *repos, txs@, e@));
                }
                return Err(e);
            },
        }
        i = i + 1;
    }
    let ghost presented = outs@;
    let sorted = sort_newest_first(outs);
    proof {
        assert(presents(*c, *repos, txs@, presented));
    }
    Ok(sorted)
}

/// The transactions from position `offset`, at most `limit` of them.
fn page_transactions(v: &Vec<Transaction>, offset: i64, limit: i64) -> (r: Vec<Transaction>)
    requires
        offset >= 0,
        limit >= 0,
    ensures
        r@ == page_of(v@, offset as int, limit as int),
{
    let n = v.len();
    let start: usize = if offset as u64 > n as u64 {
        n
    } else {
        offset as usize
    };
    let end: usize = if limit as u64 > (n - start) as u64 {
        n
    } else {
        start + limit as usize
    };
    let mut r: Vec<Transaction> = Vec::new();
    let mut i: usize = start;
    while i < end
        invariant
            start <= i <= end <= v@.len(),
            r@ == v@.subrange(start as int, i as int),
        decreases end - i,
    {
        r.push(v[i].clone());
        proof {
            assert(r@ =~= v@.subrange(start as int, i + 1));
        }
        i = i + 1;
    }
    r
}

impl TransactionsServiceImpl {
    /// The transaction with this id, presented with its group, when the
    /// authenticated user made it.
    pub fn get_transaction(&self, repos: &Repos, token: Option<String>, transaction_id: TransactionId) -> (r: Result<
        Option<TransactionOut>,
        Error,
    >)
        ensures
            match authenticated(repos.users(), token) {
                Err(e) => r is Err && r->Err_0@ == e,
                Ok(user) => match first_match(repos.transactions(), has_tx_id(transaction_id)) {
                    None => r == Ok::<Option<TransactionOut>, Error>(None),
                    Some(t) => if t.user_id != user.id {
                        r is Err && r->Err_0@ == not_owner()
                    } else {
                        match (ConverterServiceImpl { system: self.system }).conversion(
                            *repos,
                            repos.transactions().filter(has_gid(t.gid)),
                        ) {
                            Err(e) => r is Err && r->Err_0@ == e,
                            Ok(p) => r is Ok && r->Ok_0 is Some && shows(r->Ok_0->0, p),
                        }
                    },
                },
            },
    {
        let user = self.auth.authenticate(repos, token)?;
        match repos.get_transaction(transaction_id) {
            Some(t) => {
                if t.user_id != user.id {
                    return Err(Error { kind: ErrorKind::Unauthorized, context: Some(ErrorContext::InvalidToken) });
                }
                let group = repos.get_by_gid(t.gid);
                proof {
                    broadcast use vstd::seq_lib::group_filter_ensures;

                    lemma_first_match_some(repos.transactions(), has_tx_id(transaction_id));
                    let k = choose|k: int|
                        #![trigger repos.transactions()[k]]
                        0 <= k < repos.transactions().len() && has_tx_id(transaction_id)(repos.transactions()[k])
                            && first_match(repos.transactions(), has_tx_id(transaction_id)) == Some(
                            repos.transactions()[k],
                        );
                    assert(has_gid(t.gid)(repos.transactions()[k]));
                    assert(repos.transactions().filter(has_gid(t.gid)).contains(repos.transactions()[k]));
                    let g = group@;
                    assert forall|j: int| 0 <= j < g.len() implies (#[trigger] g[j]).gid == g[0].gid by {
                        assert(has_gid(t.gid)(g[j]));
                        assert(has_gid(t.gid)(g[0]));
                    }
                }
                let converter = ConverterServiceImpl::new(self.system);
                let out = converter.convert_transaction(repos, group)?;
                Ok(Some(out))
            },
            None => Ok(None),
        }
    }

    /// An account of the authenticated user with its balance.
    pub fn get_account_balance(&self, repos: &Repos, token: Option<String>, account_id: AccountId) -> (r: Result<
        AccountWithBalance,
        Error,
    >)
        ensures
            res_view(r) == (match authenticated(repos.users(), token) {
                Err(e) => Err(e),
                Ok(user) => match first_match(repos.accounts(), has_account_id(account_id)) {
                    None => Err(failure(ErrorKindView::NotFound, ErrorContext::NoAccount)),
                    Some(a) => if a.user_id != user.id {
                        Err(not_owner())
                    } else {
                        with_balance(repos.transactions(), a)
                    },
                },
            }),
    {
        AccountsServiceImpl::new(self.auth).get_account_balance(repos, token, account_id)
    }

    /// The transactions of the authenticated user, but those of token
    /// approvals, from position `offset` (at most `limit` of them), grouped,
    /// presented and ordered newest first (see `listed`).
    pub fn get_transactions_for_user(
        &self,
        repos: &Repos,
        token: Option<String>,
        user_id: UserId,
        offset: i64,
        limit: i64,
    ) -> (r: Result<Vec<TransactionOut>, Error>)
        ensures
            match authenticated(repos.users(), token) {
                Err(e) => r is Err && r->Err_0@ == e,
                Ok(user) => if user_id != user.id {
                    r is Err && r->Err_0@ == not_owner()
                } else if offset < 0 || limit < 0 {
                    r is Err && r->Err_0@ == (ErrorView { kind: ErrorKindView::Internal, context: None })
                } else {
                    listed(
                        ConverterServiceImpl { system: self.system },
                        *repos,
                        page_of(repos.transactions().filter(visible_to_user(user_id)), offset as int, limit as int),
                        r,
                    )
                },
            },
    {
        let user = self.auth.authenticate(repos, token)?;
        if user_id != user.id {
            return Err(Error { kind: ErrorKind::Unauthorized, context: Some(ErrorContext::InvalidToken) });
        }
        if offset < 0 || limit < 0 {
            return Err(Error { kind: ErrorKind::Internal, context: None });
        }
        let all = repos.transactions_of_user(user_id);
        let txs = page_transactions(&all, offset, limit);
        present_groups(&ConverterServiceImpl::new(self.system), repos, &txs)
    }

    /// The transactions from or to an account of the authenticated user, but
    /// those of token approvals, from position `offset` (at most `limit` of
    /// them), grouped, presented and ordered newest first (see `listed`).
    pub fn get_account_transactions(
        &self,
        repos: &Repos,
        token: Option<String>,
        account_id: AccountId,
        offset: i64,
        limit: i64,
    ) -> (r: Result<Vec<TransactionOut>, Error>)
        ensures
            match authenticated(repos.users(), token) {
                Err(e) => r is Err && r->Err_0@ == e,
                Ok(user) => match first_match(repos.accounts(), has_account_id(account_id)) {
                    None => r is Err && r->Err_0@ == failure(ErrorKindView::NotFound, ErrorContext::NoAccount),
                    Some(a) => if a.user_id != user.id {
                        r is Err && r->Err_0@ == not_owner()
                    } else if offset < 0 || limit < 0 {
                        r is Err && r->Err_0@ == (ErrorView { kind: ErrorKindView::Internal, context: None })
                    } else {
                        listed(
                            ConverterServiceImpl { system: self.system },
                            *repos,
                            page_of(
                                repos.transactions().filter(visible_for_account(account_id)),
                                offset as int,
                                limit as int,
                            ),
                            r,
                        )
                    },
                },
            },
    {
        let user = self.auth.authenticate(repos, token)?;
        match repos.get_account(account_id) {
            Some(a) => {
                if a.user_id != user.id {
                    return Err(Error { kind: ErrorKind::Unauthorized, context: Some(ErrorContext::InvalidToken) });
                }
            },
            None => {
                return Err(Error { kind: ErrorKind::NotFound, context: Some(ErrorContext::NoAccount) });
            },
        }
        if offset < 0 || limit < 0 {
            return Err(Error { kind: ErrorKind::Internal, context: None });
        }
        let all = repos.transactions_of_account(account_id);
        let txs = page_transactions(&all, offset, limit);
        present_groups(&ConverterServiceImpl::new(self.system), repos, &txs)
    }
}

} // verus!
