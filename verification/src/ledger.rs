//! Properties of the double-entry ledger that every operation relies on.
use vstd::prelude::*;
use crate::models::{Account, AccountId, AccountKind, NewTransaction, Transaction};
use crate::repos::{balance_of, balances_nonneg, cr_turnover, dr_turnover, law_booking_keeps_balances_nonneg, lemma_turnover_push};
use crate::transactions::base_tx;

verus! {

/// Storing a transfer of `v` from `dr` to `cr` lowers the balance of a credit
/// account by `v` when it pays and raises it by `v` when it receives; for a
/// debit account it is the other way round; every other account keeps its
/// balance.
pub proof fn law_transfer_moves_value(txs: Seq<Transaction>, t: Transaction, id: AccountId)
    ensures
        balance_of(txs.push(t), id, AccountKind::Cr) == balance_of(txs, id, AccountKind::Cr) + (if t.cr_account_id
            == id {
            t.value.0 as int
        } else {
            0
        }) - (if t.dr_account_id == id {
            t.value.0 as int
        } else {
            0
        }),
        balance_of(txs.push(t), id, AccountKind::Dr) == balance_of(txs, id, AccountKind::Dr) + (if t.dr_account_id
            == id {
            t.value.0 as int
        } else {
            0
        }) - (if t.cr_account_id == id {
            t.value.0 as int
        } else {
            0
        }),
{
    lemma_turnover_push(txs, t, id);
}

/// A transfer is stored only when the paying account's balance covers it, so
/// the paying account's balance is never negative after it.
pub proof fn law_transfer_keeps_payer_solvent(
    accounts: Seq<Account>,
    txs: Seq<Transaction>,
    tx: NewTransaction,
    dr: Account,
    cr: Account,
    now: u64,
)
    requires
        base_tx(accounts, txs, tx, dr, cr, now) is Ok,
    ensures
        balance_of(txs.push(base_tx(accounts, txs, tx, dr, cr, now)->Ok_0), dr.id, dr.kind) >= 0,
{
    let t = base_tx(accounts, txs, tx, dr, cr, now)->Ok_0;
    law_transfer_moves_value(txs, t, dr.id);
}

/// A stored transfer keeps every balance of the stored accounts from falling
/// below zero: when none was negative before, none is after.
pub proof fn law_transfer_keeps_balances_nonneg(
    accounts: Seq<Account>,
    txs: Seq<Transaction>,
    tx: NewTransaction,
    dr: Account,
    cr: Account,
    now: u64,
)
    requires
        balances_nonneg(accounts, txs),
        base_tx(accounts, txs, tx, dr, cr, now) is Ok,
    ensures
        balances_nonneg(accounts, txs.push(base_tx(accounts, txs, tx, dr, cr, now)->Ok_0)),
{
    let t = base_tx(accounts, txs, tx, dr, cr, now)->Ok_0;
    law_booking_keeps_balances_nonneg(accounts, txs, t);
}

/// The ids of `accounts` are pairwise distinct.
pub open spec fn distinct_ids(accounts: Seq<Account>) -> bool {
    forall|i: int, j: int| 0 <= i < j < accounts.len() ==> (#[trigger] accounts[i]).id != (#[trigger] accounts[j]).id
}

/// Whether some account of `accounts` has this id.
pub open spec fn has_id(accounts: Seq<Account>, id: AccountId) -> bool {
    exists|i: int| 0 <= i < accounts.len() && (#[trigger] accounts[i]).id == id
}

/// Every transaction of the ledger moves money between accounts of `accounts`.
pub open spec fn ledger_within(txs: Seq<Transaction>, accounts: Seq<Account>) -> bool {
    forall|k: int|
        0 <= k < txs.len() ==> has_id(accounts, (#[trigger] txs[k]).dr_account_id) && has_id(
            accounts,
            txs[k].cr_account_id,
        )
}

/// The sum of the balances of the accounts of one kind.
pub open spec fn total_balance(txs: Seq<Transaction>, accounts: Seq<Account>, kind: AccountKind) -> int
    decreases accounts.len(),
{
    if accounts.len() == 0 {
        0
    } else {
        let a = accounts.last();
        total_balance(txs, accounts.drop_last(), kind) + if a.kind == kind {
            balance_of(txs, a.id, kind)
        } else {
            0
        }
    }
}

/// What the ledger credited minus what it debited, over all the accounts.
spec fn net_flow(txs: Seq<Transaction>, accounts: Seq<Account>) -> int
    decreases accounts.len(),
{
    if accounts.len() == 0 {
        0
    } else {
        net_flow(txs, accounts.drop_last()) + cr_turnover(txs, accounts.last().id) - dr_turnover(
            txs,
            accounts.last().id,
        )
    }
}

/// The amount `v` counted once for the one account with id `id`.
spec fn count_id(accounts: Seq<Account>, id: AccountId, v: int) -> int
    decreases accounts.len(),
{
    if accounts.len() == 0 {
        0
    } else {
        count_id(accounts.drop_last(), id, v) + if accounts.last().id == id {
            v
        } else {
            0
        }
    }
}

proof fn lemma_count_id(accounts: Seq<Account>, id: AccountId, v: int)
    requires
        distinct_ids(accounts),
    ensures
        count_id(accounts, id, v) == if has_id(accounts, id) {
            v
        } else {
            0
        },
    decreases accounts.len(),
{
    if accounts.len() > 0 {
        let init = accounts.drop_last();
        assert(distinct_ids(init)) by {
            assert forall|i: int, j: int| 0 <= i < j < init.len() implies (#[trigger] init[i]).id != (
            #[trigger] init[j]).id by {
                assert(accounts[i].id != accounts[j].id);
            }
        }
        lemma_count_id(init, id, v);
        if accounts.last().id == id {
            if has_id(init, id) {
                let i = choose|i: int| 0 <= i < init.len() && (#[trigger] init[i]).id == id;
                assert(accounts[i].id != accounts[accounts.len() - 1].id);
            }
        } else {
            if has_id(accounts, id) {
                let i = choose|i: int| 0 <= i < accounts.len() && (#[trigger] accounts[i]).id == id;
                assert(init[i].id == id);
            }
            if has_id(init, id) {
                let i = choose|i: int| 0 <= i < init.len() && (#[trigger] init[i]).id == id;
                assert(accounts[i].id == id);
            }
        }
    }
}

proof fn lemma_net_flow_push(txs: Seq<Transaction>, t: Transaction, accounts: Seq<Account>)
    ensures
        net_flow(txs.push(t), accounts) == net_flow(txs, accounts) + count_id(accounts, t.cr_account_id, t.value.0 as int)
            - count_id(accounts, t.dr_account_id, t.value.0 as int),
    decreases accounts.len(),
{
    if accounts.len() > 0 {
        lemma_net_flow_push(txs, t, accounts.drop_last());
        lemma_turnover_push(txs, t, accounts.last().id);
    }
}

proof fn lemma_net_flow_zero(txs: Seq<Transaction>, accounts: Seq<Account>)
    requires
        distinct_ids(accounts),
        ledger_within(txs, accounts),
    ensures
        net_flow(txs, accounts) == 0,
    decreases txs.len(),
{
    if txs.len() == 0 {
        lemma_net_flow_empty(txs, accounts);
    } else {
        let init = txs.drop_last();
        let t = txs.last();
        assert(ledger_within(init, accounts)) by {
            assert forall|k: int| 0 <= k < init.len() implies has_id(accounts, (#[trigger] init[k]).dr_account_id)
                && has_id(accounts, init[k].cr_account_id) by {
                assert(init[k] == txs[k]);
            }
        }
        lemma_net_flow_zero(init, accounts);
        assert(init.push(t) =~= txs);
        lemma_net_flow_push(init, t, accounts);
        assert(has_id(accounts, txs[txs.len() - 1].dr_account_id));
        lemma_count_id(accounts, t.cr_account_id, t.value.0 as int);
        lemma_count_id(accounts, t.dr_account_id, t.value.0 as int);
    }
}

proof fn lemma_net_flow_empty(txs: Seq<Transaction>, accounts: Seq<Account>)
    requires
        txs.len() == 0,
    ensures
        net_flow(txs, accounts) == 0,
    decreases accounts.len(),
{
    if accounts.len() > 0 {
        lemma_net_flow_empty(txs, accounts.drop_last());
    }
}

proof fn lemma_totals_are_net_flow(txs: Seq<Transaction>, accounts: Seq<Account>)
    ensures
        total_balance(txs, accounts, AccountKind::Cr) - total_balance(txs, accounts, AccountKind::Dr) == net_flow(
            txs,
            accounts,
        ),
    decreases accounts.len(),
{
    if accounts.len() > 0 {
        lemma_totals_are_net_flow(txs, accounts.drop_last());
    }
}

/// The books balance: over a set of accounts with distinct ids that every
/// transaction of the ledger moves money between, the balances of the credit
/// accounts (what the wallet owes its users) sum to the balances of the debit
/// accounts (what it holds on the blockchains).
pub proof fn law_ledger_balanced(txs: Seq<Transaction>, accounts: Seq<Account>)
    requires
        distinct_ids(accounts),
        ledger_within(txs, accounts),
    ensures
        total_balance(txs, accounts, AccountKind::Cr) == total_balance(txs, accounts, AccountKind::Dr),
{
    lemma_net_flow_zero(txs, accounts);
    lemma_totals_are_net_flow(txs, accounts);
}

} // verus!
