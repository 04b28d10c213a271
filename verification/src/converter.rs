//! Presenting groups of ledger transactions to users: who sent what to whom.
use vstd::prelude::*;
use crate::blockchain_tx::{lemma_merge_keeps_first_address, merge_outputs, unique_addresses, unique_from, merged_outputs};
use crate::error::{failure, Error, ErrorContext, ErrorKind, ErrorKindView, ErrorView};
use crate::lookup::{first_match, lemma_first_match_bounds, lemma_first_match_hit, lemma_first_match_skip};
use crate::models::{
    Account, AccountId, AccountKind, Amount, BlockchainTransaction, Transaction, TransactionAddressInfo, TransactionKind,
    TransactionOut,
};
use crate::repos::{has_account_id, is_blockchain_tx, is_pending, Repos};
use crate::system::SystemServiceImpl;
use crate::transactions::stored_account;

verus! {

/// One side of a transfer.
pub open spec fn info(account_id: Option<AccountId>, address: String) -> TransactionAddressInfo {
    TransactionAddressInfo { account_id, blockchain_address: address }
}

/// Outside addresses as sides of a transfer.
pub open spec fn outside(addresses: Seq<String>) -> Seq<TransactionAddressInfo> {
    addresses.map_values(|a: String| info(None, a))
}

/// Who sent and who received the transaction `t`: between two credit
/// accounts, the two accounts; for a deposit (debit to credit account), the
/// senders of its blockchain transaction and the credit account; for a
/// withdrawal (credit to debit account), the credit account and the receiver
/// of its blockchain transaction. The blockchain transaction is looked up
/// among the waiting ones first, then among the accepted ones.
pub open spec fn address_info(s: Repos, t: Transaction) -> Result<
    (Seq<TransactionAddressInfo>, TransactionAddressInfo),
    ErrorView,
> {
    match first_match(s.accounts(), has_account_id(t.cr_account_id)) {
        None => Err(failure(ErrorKindView::NotFound, ErrorContext::NoAccount)),
        Some(cr) => match first_match(s.accounts(), has_account_id(t.dr_account_id)) {
            None => Err(failure(ErrorKindView::NotFound, ErrorContext::NoAccount)),
            Some(dr) => if cr.kind == AccountKind::Cr && dr.kind == AccountKind::Cr {
                Ok((seq![info(Some(dr.id), dr.address)], info(Some(cr.id), cr.address)))
            } else if cr.kind == AccountKind::Cr && dr.kind == AccountKind::Dr {
                match t.blockchain_tx_id {
                    None => Err(failure(ErrorKindView::NotFound, ErrorContext::NoTransaction)),
                    Some(hash) => {
                        let to = info(Some(cr.id), cr.address);
                        match first_match(s.pending(), is_pending(hash@)) {
                            Some(p) => Ok((seq![info(None, p.from)], to)),
                            None => match first_match(s.blockchain_transactions(), is_blockchain_tx(hash@)) {
                                None => Err(failure(ErrorKindView::NotFound, ErrorContext::NoTransaction)),
                                Some(b) => match merge_outputs(b.to@) {
                                    None => Err(failure(ErrorKindView::Internal, ErrorContext::BalanceOverflow)),
                                    Some(_) => Ok((outside(unique_addresses(b.from@)), to)),
                                },
                            },
                        }
                    },
                }
            } else if cr.kind == AccountKind::Dr && dr.kind == AccountKind::Cr {
                match t.blockchain_tx_id {
                    None => Err(failure(ErrorKindView::NotFound, ErrorContext::NoTransaction)),
                    Some(hash) => {
                        let from = info(Some(dr.id), dr.address);
                        match first_match(s.pending(), is_pending(hash@)) {
                            Some(p) => Ok((seq![from], info(None, p.to))),
                            None => match first_match(s.blockchain_transactions(), is_blockchain_tx(hash@)) {
                                None => Err(failure(ErrorKindView::NotFound, ErrorContext::NoTransaction)),
                                Some(b) => match merge_outputs(b.to@) {
                                    None => Err(failure(ErrorKindView::Internal, ErrorContext::BalanceOverflow)),
                                    Some(outputs) => if outputs.len() == 0 {
                                        Err(failure(ErrorKindView::NotFound, ErrorContext::NoTransaction))
                                    } else {
                                        Ok((seq![from], info(None, outputs[0].address)))
                                    },
                                },
                            },
                        }
                    },
                }
            } else {
                Err(failure(ErrorKindView::Internal, ErrorContext::InvalidTransaction))
            },
        },
    }
}

/// How a group is shown: its paying leg, its receiving leg, their sides,
/// the values paid and received, and the fee paid.
pub type Shown = (Transaction, Transaction, Seq<TransactionAddressInfo>, TransactionAddressInfo, Amount, Amount, Amount);

/// A confirmed withdrawal (from a credit account to a debit account, whose
/// blockchain transaction no longer waits but was accepted) is shown as sent
/// by the paying credit account and received by the address of the first
/// output of its blockchain transaction, not by an account of the wallet.
pub proof fn law_confirmed_withdrawal_goes_to_its_first_output(s: Repos, t: Transaction, b: BlockchainTransaction)
    requires
        first_match(s.accounts(), has_account_id(t.cr_account_id)) matches Some(cr) && cr.kind == AccountKind::Dr,
        first_match(s.accounts(), has_account_id(t.dr_account_id)) matches Some(dr) && dr.kind == AccountKind::Cr,
        t.blockchain_tx_id is Some,
        first_match(s.pending(), is_pending(t.blockchain_tx_id->0@)) is None,
        first_match(s.blockchain_transactions(), is_blockchain_tx(t.blockchain_tx_id->0@)) == Some(b),
        merge_outputs(b.to@) is Some,
        b.to@.len() > 0,
    ensures
        address_info(s, t) is Ok,
        address_info(s, t)->Ok_0.1 == info(None, b.to@[0].address),
        address_info(s, t)->Ok_0.0 == seq![
            info(Some(t.dr_account_id), first_match(s.accounts(), has_account_id(t.dr_account_id))->0.address),
        ],
{
    lemma_merge_keeps_first_address(b.to@);
    crate::lookup::lemma_first_match_some(s.accounts(), has_account_id(t.dr_account_id));
}

/// `o` shows the transfer `p`: whose paying leg is `p.0` and receiving leg
/// `p.1`, sent by `p.2` and received by `p.3`, paying `p.4`, receiving `p.5`
/// and charged the fee `p.6`.
pub open spec fn shows(o: TransactionOut, p: Shown) -> bool {
    &&& o.id == p.0.id
    &&& o.from@ == p.2
    &&& o.to == p.3
    &&& o.from_value == p.4
    &&& o.from_currency == p.0.currency
    &&& o.to_value == p.5
    &&& o.to_currency == p.1.currency
    &&& o.fee == p.6
    &&& o.status == p.0.status
    &&& o.blockchain_tx_id == p.1.blockchain_tx_id
    &&& o.created_at == p.0.created_at
    &&& o.updated_at == p.0.updated_at
}

/// Whether a transaction moves the value of a transfer rather than a fee.
pub open spec fn transfer_leg() -> spec_fn(Transaction) -> bool {
    |t: Transaction| t.kind != TransactionKind::Fee && t.kind != TransactionKind::BlockchainFee
}

/// The transaction that a group is shown by: its first transfer leg, or its
/// first transaction when all of them are fees.
pub open spec fn main_leg(group: Seq<Transaction>) -> Transaction {
    match first_match(group, transfer_leg()) {
        Some(t) => t,
        None => group[0],
    }
}

/// The sum of the values of the transactions of `group` of kind `kind`.
pub open spec fn kind_total(group: Seq<Transaction>, kind: TransactionKind) -> int
    decreases group.len(),
{
    if group.len() == 0 {
        0
    } else {
        kind_total(group.drop_last(), kind) + if group.last().kind == kind {
            group.last().value.0 as int
        } else {
            0
        }
    }
}

proof fn lemma_kind_total_take_monotone(group: Seq<Transaction>, kind: TransactionKind, j: int, k: int)
    requires
        0 <= j <= k <= group.len(),
    ensures
        0 <= kind_total(group.take(j), kind) <= kind_total(group.take(k), kind),
    decreases k,
{
    if k > 0 {
        if j < k {
            lemma_kind_total_take_monotone(group, kind, j, k - 1);
            assert(group.take(k).drop_last() =~= group.take(k - 1));
        } else {
            lemma_kind_total_take_monotone(group, kind, k - 1, k - 1);
            assert(group.take(k).drop_last() =~= group.take(k - 1));
        }
    } else {
        assert(group.take(0) =~= Seq::<Transaction>::empty());
    }
}

/// A group that is neither one transaction nor the two legs of an exchange
/// (such as a withdrawal: its fee, the parts sent and their blockchain fees)
/// is shown by its main leg: its sides, the sum of the transactions of the
/// main leg's kind as the value, and the sum of the fees the user paid.
pub open spec fn group_shown(s: Repos, group: Seq<Transaction>) -> Result<Shown, ErrorView> {
    let m = main_leg(group);
    let value = kind_total(group, m.kind);
    let fee = kind_total(group, TransactionKind::Fee);
    if value > u128::MAX || fee > u128::MAX {
        Err(failure(ErrorKindView::Internal, ErrorContext::BalanceOverflow))
    } else {
        match address_info(s, m) {
            Err(e) => Err(e),
            Ok((from, to)) => Ok((m, m, from, to, Amount(value as u128), Amount(value as u128), Amount(fee as u128))),
        }
    }
}

/// Presents groups of transactions.
#[derive(Clone, Copy, Debug)]
pub struct ConverterServiceImpl {
    pub system: SystemServiceImpl,
}

impl ConverterServiceImpl {
    pub fn new(system: SystemServiceImpl) -> (r: Self)
        ensures
            r.system == system,
    {
        ConverterServiceImpl { system }
    }

    /// The groups that can be presented: non-empty, of one group id.
    pub open spec fn convertible(self, group: Seq<Transaction>) -> bool {
        &&& group.len() > 0
        &&& forall|i: int| 0 <= i < group.len() ==> (#[trigger] group[i]).gid == group[0].gid
    }

    /// How a group is presented: one transaction by itself; two that pay into
    /// and out of the liquidity accounts of their currencies (an exchange) by
    /// the leg paying in and the leg paying out; any other group by its main
    /// leg (see `group_shown`). A missing liquidity account of a pair is a
    /// failure.
    pub open spec fn conversion(self, s: Repos, group: Seq<Transaction>) -> Result<Shown, ErrorView> {
        if group.len() == 1 {
            match address_info(s, group[0]) {
                Err(e) => Err(e),
                Ok((from, to)) => Ok((group[0], group[0], from, to, group[0].value, group[0].value, Amount(0))),
            }
        } else if group.len() == 2 {
            match stored_account(s.accounts(), self.system.ids.liquidity_id(group[0].currency)) {
                Err(e) => Err(e),
                Ok(a0) => match stored_account(s.accounts(), self.system.ids.liquidity_id(group[1].currency)) {
                    Err(e) => Err(e),
                    Ok(a1) => if (group[0].cr_account_id == a0.id && group[1].dr_account_id == a1.id) || (
                    group[0].cr_account_id != a0.id && group[0].dr_account_id == a0.id && group[1].cr_account_id
                        == a1.id) {
                        let from_tx = if group[0].cr_account_id == a0.id {
                            group[0]
                        } else {
                            group[1]
                        };
                        let to_tx = if group[0].cr_account_id == a0.id {
                            group[1]
                        } else {
                            group[0]
                        };
                        match address_info(s, from_tx) {
                            Err(e) => Err(e),
                            Ok((from, _)) => match address_info(s, to_tx) {
                                Err(e) => Err(e),
                                Ok((_, to)) => Ok((from_tx, to_tx, from, to, from_tx.value, to_tx.value, Amount(0))),
                            },
                        }
                    } else {
                        group_shown(s, group)
                    },
                },
            }
        } else {
            group_shown(s, group)
        }
    }

    /// Whether a group can be presented (see `convertible`).
    pub fn is_convertible(&self, group: &Vec<Transaction>) -> (r: bool)
        ensures
            r == self.convertible(group@),
    {
        if group.len() == 0 {
            return false;
        }
        let gid = group[0].gid;
        let mut i: usize = 0;
        while i < group.len()
            invariant
                0 <= i <= group@.len(),
                group@.len() > 0,
                gid == group@[0].gid,
                forall|j: int| 0 <= j < i ==> (#[trigger] group@[j]).gid == gid,
            decreases group.len() - i,
        {
            if group[i].gid != gid {
                return false;
            }
            i = i + 1;
        }
        true
    }

    /// Who sent and who received a transaction (see `address_info`).
    fn extract_address_info(&self, repos: &Repos, transaction: &Transaction) -> (r: Result<
        (Vec<TransactionAddressInfo>, TransactionAddressInfo),
        Error,
    >)
        ensures
            match address_info(*repos, *transaction) {
                Err(e) => r is Err && r->Err_0@ == e,
                Ok((from, to)) => r is Ok && r->Ok_0.0@ == from && r->Ok_0.1 == to,
            },
    {
        let cr_account = match repos.get_account(transaction.cr_account_id) {
            Some(a) => a,
            None => {
                return Err(Error { kind: ErrorKind::NotFound, context: Some(ErrorContext::NoAccount) });
            },
        };
        let dr_account = match repos.get_account(transaction.dr_account_id) {
            Some(a) => a,
            None => {
                return Err(Error { kind: ErrorKind::NotFound, context: Some(ErrorContext::NoAccount) });
            },
        };
        if cr_account.kind == AccountKind::Cr && dr_account.kind == AccountKind::Cr {
            let mut from: Vec<TransactionAddressInfo> = Vec::new();
            from.push(TransactionAddressInfo { account_id: Some(dr_account.id), blockchain_address: dr_account.address });
            let to = TransactionAddressInfo { account_id: Some(cr_account.id), blockchain_address: cr_account.address };
            proof {
                assert(from@ =~= seq![info(Some(dr_account.id), dr_account.address)]);
            }
            Ok((from, to))
        } else if cr_account.kind == AccountKind::Cr && dr_account.kind == AccountKind::Dr {
            let hash = match &transaction.blockchain_tx_id {
                Some(h) => h,
                None => {
                    return Err(Error { kind: ErrorKind::NotFound, context: Some(ErrorContext::NoTransaction) });
                },
            };
            let to = TransactionAddressInfo { account_id: Some(cr_account.id), blockchain_address: cr_account.address };
            match repos.get_pending(hash) {
                Some(p) => {
                    let mut from: Vec<TransactionAddressInfo> = Vec::new();
                    from.push(TransactionAddressInfo { account_id: None, blockchain_address: p.from });
                    proof {
                        assert(from@ =~= seq![info(None, p.from)]);
                    }
                    Ok((from, to))
                },
                None => match repos.get_blockchain_tx(hash) {
                    None => Err(Error { kind: ErrorKind::NotFound, context: Some(ErrorContext::NoTransaction) }),
                    Some(b) => {
                        if merged_outputs(&b.to).is_none() {
                            return Err(
                                Error { kind: ErrorKind::Internal, context: Some(ErrorContext::BalanceOverflow) },
                            );
                        }
                        let senders = unique_from(&b.from);
                        let mut from: Vec<TransactionAddressInfo> = Vec::new();
                        let mut i: usize = 0;
                        while i < senders.len()
                            invariant
                                0 <= i <= senders@.len(),
                                from@ == outside(senders@.take(i as int)),
                            decreases senders.len() - i,
                        {
                            from.push(TransactionAddressInfo { account_id: None, blockchain_address: senders[i].clone() });
                            proof {
                                assert(from@ =~= outside(senders@.take(i + 1)));
                            }
                            i = i + 1;
                        }
                        proof {
                            assert(senders@.take(senders@.len() as int) =~= senders@);
                        }
                        Ok((from, to))
                    },
                },
            }
        } else if cr_account.kind == AccountKind::Dr && dr_account.kind == AccountKind::Cr {
            let hash = match &transaction.blockchain_tx_id {
                Some(h) => h,
                None => {
                    return Err(Error { kind: ErrorKind::NotFound, context: Some(ErrorContext::NoTransaction) });
                },
            };
            let mut from: Vec<TransactionAddressInfo> = Vec::new();
            from.push(TransactionAddressInfo { account_id: Some(dr_account.id), blockchain_address: dr_account.address });
            proof {
                assert(from@ =~= seq![info(Some(dr_account.id), dr_account.address)]);
            }
            match repos.get_pending(hash) {
                Some(p) => Ok((from, TransactionAddressInfo { account_id: None, blockchain_address: p.to })),
                None => match repos.get_blockchain_tx(hash) {
                    None => Err(Error { kind: ErrorKind::NotFound, context: Some(ErrorContext::NoTransaction) }),
                    Some(b) => match merged_outputs(&b.to) {
                        None => Err(Error { kind: ErrorKind::Internal, context: Some(ErrorContext::BalanceOverflow) }),
                        Some(outputs) => {
                            if outputs.len() == 0 {
                                return Err(
                                    Error { kind: ErrorKind::NotFound, context: Some(ErrorContext::NoTransaction) },
                                );
                            }
                            Ok((from, TransactionAddressInfo { account_id: None, blockchain_address: outputs[0].address.clone() }))
                        },
                    },
                },
            }
        } else {
            Err(Error { kind: ErrorKind::Internal, context: Some(ErrorContext::InvalidTransaction) })
        }
    }

    /// The sum of the values of the transactions of `group` of kind `kind`,
    /// when it fits in an amount.
    fn total_of_kind(group: &Vec<Transaction>, kind: TransactionKind) -> (r: Option<Amount>)
        ensures
            kind_total(group@, kind) <= u128::MAX ==> r == Some(Amount(kind_total(group@, kind) as u128)),
            kind_total(group@, kind) > u128::MAX ==> r is None,
    {
        let mut total: u128 = 0;
        let mut i: usize = 0;
        proof {
            lemma_kind_total_take_monotone(group@, kind, 0, 0);
        }
        while i < group.len()
            invariant
                0 <= i <= group@.len(),
                total == kind_total(group@.take(i as int), kind),
            decreases group.len() - i,
        {
            proof {
                assert(group@.take(i + 1).drop_last() =~= group@.take(i as int));
                lemma_kind_total_take_monotone(group@, kind, i + 1, group@.len() as int);
                assert(group@.take(group@.len() as int) =~= group@);
            }
            if group[i].kind == kind {
                if total > u128::MAX - group[i].value.0 {
                    return None;
                }
                total = total + group[i].value.0;
            }
            i = i + 1;
        }
        proof {
            assert(group@.take(group@.len() as int) =~= group@);
        }
        Some(Amount(total))
    }

    /// Presents a group that is neither one transaction nor an exchange (see
    /// `group_shown`).
    fn present_by_main_leg(&self, repos: &Repos, group: &Vec<Transaction>) -> (r: Result<TransactionOut, Error>)
        requires
            group@.len() > 0,
        ensures
            match group_shown(*repos, group@) {
                Err(e) => r is Err && r->Err_0@ == e,
                Ok(p) => r is Ok && shows(r->Ok_0, p),
            },
    {
        let ghost p = transfer_leg();
        let mut m: usize = 0;
        let mut found = false;
        let mut i: usize = 0;
        proof {
            lemma_first_match_bounds(group@, p);
        }
        while i < group.len()
            invariant
                0 <= i <= group@.len(),
                p == transfer_leg(),
                m < group@.len(),
                found ==> first_match(group@, p) == Some(group@[m as int]),
                !found ==> first_match(group@, p) == first_match(group@.subrange(i as int, group@.len() as int), p),
                !found ==> m == 0,
            decreases group.len() - i,
        {
            if !found {
                let k = group[i].kind;
                if k != TransactionKind::Fee && k != TransactionKind::BlockchainFee {
                    proof {
                        lemma_first_match_hit(group@, p, i as int);
                    }
                    m = i;
                    found = true;
                } else {
                    proof {
                        lemma_first_match_skip(group@, p, i as int);
                    }
                }
            }
            i = i + 1;
        }
        proof {
            if !found {
                lemma_first_match_bounds(group@, p);
            }
        }
        let main = &group[m];
        assert(*main == main_leg(group@));
        let value = match Self::total_of_kind(group, main.kind) {
            Some(v) => v,
            None => {
                return Err(Error { kind: ErrorKind::Internal, context: Some(ErrorContext::BalanceOverflow) });
            },
        };
        let fee = match Self::total_of_kind(group, TransactionKind::Fee) {
            Some(v) => v,
            None => {
                return Err(Error { kind: ErrorKind::Internal, context: Some(ErrorContext::BalanceOverflow) });
            },
        };
        let (from, to) = self.extract_address_info(repos, main)?;
        Ok(
            TransactionOut {
                id: main.id,
                from,
                to,
                from_value: value,
                from_currency: main.currency,
                to_value: value,
                to_currency: main.currency,
                fee,
                status: main.status,
                blockchain_tx_id: crate::models::clone_opt_string(&main.blockchain_tx_id),
                created_at: main.created_at,
                updated_at: main.updated_at,
            },
        )
    }

    /// Presents a group of transactions of one group id as one transfer (see
    /// `conversion`).
    pub fn convert_transaction(&self, repos: &Repos, transactions: Vec<Transaction>) -> (r: Result<TransactionOut, Error>)
        requires
            self.convertible(transactions@),
        ensures
            match self.conversion(*repos, transactions@) {
                Err(e) => r is Err && r->Err_0@ == e,
                Ok(p) => r is Ok && shows(r->Ok_0, p),
            },
    {
        if transactions.len() == 1 {
            let tx = &transactions[0];
            let (from, to) = self.extract_address_info(repos, tx)?;
            return Ok(
                TransactionOut {
                    id: tx.id,
                    from,
                    to,
                    from_value: tx.value,
                    from_currency: tx.currency,
                    to_value: tx.value,
                    to_currency: tx.currency,
                    fee: Amount(0),
                    status: tx.status,
                    blockchain_tx_id: crate::models::clone_opt_string(&tx.blockchain_tx_id),
                    created_at: tx.created_at,
                    updated_at: tx.updated_at,
                },
            );
        }
        if transactions.len() != 2 {
            return self.present_by_main_leg(repos, &transactions);
        }
        let a0 = self.system.get_system_liquidity_account(repos, transactions[0].currency)?.id;
        let a1 = self.system.get_system_liquidity_account(repos, transactions[1].currency)?.id;
        let g0 = &transactions[0];
        let g1 = &transactions[1];
        if !((g0.cr_account_id == a0 && g1.dr_account_id == a1) || (g0.cr_account_id != a0 && g0.dr_account_id == a0
            && g1.cr_account_id == a1)) {
            return self.present_by_main_leg(repos, &transactions);
        }
        let (from_tx, to_tx) = if g0.cr_account_id == a0 {
            (g0, g1)
        } else {
            (g1, g0)
        };
        let (from, _) = self.extract_address_info(repos, from_tx)?;
        let (_, to) = self.extract_address_info(repos, to_tx)?;
        Ok(
            TransactionOut {
                id: from_tx.id,
                from,
                to,
                from_value: from_tx.value,
                from_currency: from_tx.currency,
                to_value: to_tx.value,
                to_currency: to_tx.currency,
                fee: Amount(0),
                status: from_tx.status,
                blockchain_tx_id: crate::models::clone_opt_string(&to_tx.blockchain_tx_id),
                created_at: from_tx.created_at,
                updated_at: from_tx.updated_at,
            },
        )
    }
}

/// An exchange is presented alike whichever order its two legs come in:
/// the leg paying into the liquidity account of its currency is the paying
/// leg, the one paying out of the liquidity account of its currency the
/// receiving leg.
pub proof fn law_exchange_order_irrelevant(c: ConverterServiceImpl, s: Repos, a: Transaction, b: Transaction)
    requires
        a.gid == b.gid,
        stored_account(s.accounts(), c.system.ids.liquidity_id(a.currency)) is Ok,
        stored_account(s.accounts(), c.system.ids.liquidity_id(b.currency)) is Ok,
        a.cr_account_id == stored_account(s.accounts(), c.system.ids.liquidity_id(a.currency))->Ok_0.id,
        b.dr_account_id == stored_account(s.accounts(), c.system.ids.liquidity_id(b.currency))->Ok_0.id,
        b.cr_account_id != stored_account(s.accounts(), c.system.ids.liquidity_id(b.currency))->Ok_0.id,
    ensures
        c.conversion(s, seq![a, b]) == c.conversion(s, seq![b, a]),
        c.conversion(s, seq![a, b]) matches Ok(p) ==> p.0 == a && p.1 == b && p.4 == a.value && p.5 == b.value
            && p.6 == Amount(0),
{
    assert(seq![a, b][0] == a && seq![a, b][1] == b);
    assert(seq![b, a][0] == b && seq![b, a][1] == a);
}

} // verus!
