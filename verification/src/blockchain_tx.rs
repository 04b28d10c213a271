//! Reading a blockchain transaction as the ledger needs it: its senders
//! without repetition, its outputs merged per receiving address, and its
//! total value.
use vstd::prelude::*;
use crate::lookup::{first_match, lemma_first_match_bounds, lemma_first_match_hit, lemma_first_match_skip, lemma_first_match_some};
use crate::models::{Amount, BlockchainTransaction, BlockchainTransactionEntryTo};

verus! {

/// Whether `s` holds a string with the text `x`.
pub open spec fn has_text(s: Seq<String>, x: Seq<char>) -> bool {
    exists|j: int| 0 <= j < s.len() && (#[trigger] s[j])@ == x
}

/// The addresses of `s` without repetition, each where it first occurs.
pub open spec fn unique_addresses(s: Seq<String>) -> Seq<String>
    decreases s.len(),
{
    if s.len() == 0 {
        Seq::empty()
    } else {
        let d = unique_addresses(s.drop_last());
        if has_text(d, s.last()@) {
            d
        } else {
            d.push(s.last())
        }
    }
}

/// Whether `s` has an output to the address `a`.
pub open spec fn has_output_to(s: Seq<BlockchainTransactionEntryTo>, a: Seq<char>) -> bool {
    exists|j: int| 0 <= j < s.len() && (#[trigger] s[j]).address@ == a
}

/// No two outputs of `s` go to the same address.
pub open spec fn distinct_outputs(s: Seq<BlockchainTransactionEntryTo>) -> bool {
    forall|a: int, b: int| 0 <= a < b < s.len() ==> (#[trigger] s[a]).address@ != (#[trigger] s[b]).address@
}

/// The outputs of `to` merged per address, in the order in which the
/// addresses first occur, each with the sum of its values; `None` when a
/// sum does not fit in an amount.
pub open spec fn merge_outputs(to: Seq<BlockchainTransactionEntryTo>) -> Option<Seq<BlockchainTransactionEntryTo>>
    decreases to.len(),
{
    if to.len() == 0 {
        Some(Seq::empty())
    } else {
        match merge_outputs(to.drop_last()) {
            None => None,
            Some(acc) => {
                let e = to.last();
                if has_output_to(acc, e.address@) {
                    let j = choose|j: int| 0 <= j < acc.len() && (#[trigger] acc[j]).address@ == e.address@;
                    if acc[j].value.0 + e.value.0 > u128::MAX {
                        None
                    } else {
                        Some(
                            acc.update(
                                j,
                                BlockchainTransactionEntryTo {
                                    address: acc[j].address,
                                    value: Amount((acc[j].value.0 + e.value.0) as u128),
                                },
                            ),
                        )
                    }
                } else {
                    Some(acc.push(e))
                }
            },
        }
    }
}

/// Merging keeps the address of the first output first.
pub proof fn lemma_merge_keeps_first_address(to: Seq<BlockchainTransactionEntryTo>)
    requires
        to.len() > 0,
        merge_outputs(to) is Some,
    ensures
        merge_outputs(to)->0.len() > 0,
        merge_outputs(to)->0[0].address == to[0].address,
    decreases to.len(),
{
    let init = to.drop_last();
    let acc = merge_outputs(init)->0;
    if to.len() == 1 {
        assert(init.len() == 0);
        assert(acc =~= Seq::<BlockchainTransactionEntryTo>::empty());
        assert(!has_output_to(acc, to.last().address@));
    } else {
        lemma_merge_keeps_first_address(init);
        assert(init[0] == to[0]);
    }
}

/// The sum of the values of the outputs.
pub open spec fn outputs_sum(to: Seq<BlockchainTransactionEntryTo>) -> int
    decreases to.len(),
{
    if to.len() == 0 {
        0
    } else {
        outputs_sum(to.drop_last()) + to.last().value.0
    }
}

proof fn lemma_outputs_sum_prefix(to: Seq<BlockchainTransactionEntryTo>, j: int, k: int)
    requires
        0 <= j <= k <= to.len(),
    ensures
        0 <= outputs_sum(to.take(j)) <= outputs_sum(to.take(k)),
    decreases k - j,
{
    if j < k {
        lemma_outputs_sum_prefix(to, j, k - 1);
        assert(to.take(k).drop_last() =~= to.take(k - 1));
    } else {
        lemma_outputs_sum_nonneg(to.take(j));
    }
}

proof fn lemma_outputs_sum_nonneg(to: Seq<BlockchainTransactionEntryTo>)
    ensures
        outputs_sum(to) >= 0,
    decreases to.len(),
{
    if to.len() > 0 {
        lemma_outputs_sum_nonneg(to.drop_last());
    }
}

/// The senders of a transaction without repetition.
pub fn unique_from(from: &Vec<String>) -> (r: Vec<String>)
    ensures
        r@ == unique_addresses(from@),
{
    let mut r: Vec<String> = Vec::new();
    let mut i: usize = 0;
    while i < from.len()
        invariant
            0 <= i <= from@.len(),
            r@ == unique_addresses(from@.take(i as int)),
        decreases from.len() - i,
    {
        proof {
            assert(from@.take(i + 1).drop_last() =~= from@.take(i as int));
        }
        let mut found = false;
        let mut j: usize = 0;
        while j < r.len()
            invariant
                0 <= j <= r@.len(),
                i < from@.len(),
                found == (exists|k: int| 0 <= k < j && (#[trigger] r@[k])@ == from@[i as int]@),
            decreases r.len() - j,
        {
            if r[j] == from[i] {
                found = true;
            }
            j = j + 1;
        }
        if !found {
            r.push(from[i].clone());
        }
        i = i + 1;
    }
    proof {
        assert(from@.take(from@.len() as int) =~= from@);
    }
    r
}

/// The total value of the outputs, when it fits in an amount.
pub fn outputs_value(to: &Vec<BlockchainTransactionEntryTo>) -> (r: Option<Amount>)
    ensures
        outputs_sum(to@) >= 0,
        r == (if outputs_sum(to@) <= u128::MAX {
            Some(Amount(outputs_sum(to@) as u128))
        } else {
            None::<Amount>
        }),
{
    let mut sum: u128 = 0;
    let mut i: usize = 0;
    proof {
        lemma_outputs_sum_nonneg(to@);
    }
    while i < to.len()
        invariant
            0 <= i <= to@.len(),
            sum == outputs_sum(to@.take(i as int)),
        decreases to.len() - i,
    {
        proof {
            assert(to@.take(i + 1).drop_last() =~= to@.take(i as int));
            lemma_outputs_sum_prefix(to@, i + 1, to@.len() as int);
            assert(to@.take(to@.len() as int) =~= to@);
        }
        if sum > u128::MAX - to[i].value.0 {
            return None;
        }
        sum = sum + to[i].value.0;
        i = i + 1;
    }
    proof {
        assert(to@.take(to@.len() as int) =~= to@);
    }
    Some(Amount(sum))
}

/// The outputs merged per address (see `merge_outputs`).
pub fn merged_outputs(to: &Vec<BlockchainTransactionEntryTo>) -> (r: Option<Vec<BlockchainTransactionEntryTo>>)
    ensures
        match r {
            Some(v) => merge_outputs(to@) == Some(v@),
            None => merge_outputs(to@) is None,
        },
{
    let mut acc: Vec<BlockchainTransactionEntryTo> = Vec::new();
    let mut i: usize = 0;
    while i < to.len()
        invariant
            0 <= i <= to@.len(),
            merge_outputs(to@.take(i as int)) == Some(acc@),
            distinct_outputs(acc@),
        decreases to.len() - i,
    {
        proof {
            assert(to@.take(i + 1).drop_last() =~= to@.take(i as int));
            assert(to@.take(i + 1).last() == to@[i as int]);
        }
        let e = &to[i];
        let mut j: usize = 0;
        let mut at: Option<usize> = None;
        while j < acc.len()
            invariant
                0 <= j <= acc@.len(),
                at matches Some(k) ==> k < acc@.len() && acc@[k as int].address@ == e.address@,
                at is None ==> forall|k: int| 0 <= k < j ==> (#[trigger] acc@[k]).address@ != e.address@,
            decreases acc.len() - j,
        {
            if at.is_none() && acc[j].address == e.address {
                at = Some(j);
            }
            j = j + 1;
        }
        match at {
            Some(k) => {
                let ghost old_acc = acc@;
                proof {
                    let c = choose|c: int| 0 <= c < old_acc.len() && (#[trigger] old_acc[c]).address@ == e.address@;
                    assert(old_acc[k as int].address@ == e.address@);
                    if c != k {
                        if c < k {
                            assert(old_acc[c].address@ != old_acc[k as int].address@);
                        } else {
                            assert(old_acc[k as int].address@ != old_acc[c].address@);
                        }
                    }
                }
                if acc[k].value.0 > u128::MAX - e.value.0 {
                    proof {
                        lemma_merge_none_extends(to@, i as int + 1);
                    }
                    return None;
                }
                let merged = BlockchainTransactionEntryTo {
                    address: acc[k].address.clone(),
                    value: Amount(acc[k].value.0 + e.value.0),
                };
                acc.set(k, merged);
                proof {
                    assert forall|a: int, b: int| 0 <= a < b < acc@.len() implies (#[trigger] acc@[a]).address@ != (
                    #[trigger] acc@[b]).address@ by {
                        assert(old_acc[a].address@ != old_acc[b].address@);
                    }
                }
            },
            None => {
                let ghost old_acc = acc@;
                acc.push(e.clone());
                proof {
                    assert(!has_output_to(old_acc, e.address@));
                    assert forall|a: int, b: int| 0 <= a < b < acc@.len() implies (#[trigger] acc@[a]).address@ != (
                    #[trigger] acc@[b]).address@ by {
                        if b < old_acc.len() {
                            assert(old_acc[a].address@ != old_acc[b].address@);
                        } else {
                            assert(acc@[b] == e);
                            assert(old_acc[a].address@ != e.address@);
                        }
                    }
                }
            },
        }
        i = i + 1;
    }
    proof {
        assert(to@.take(to@.len() as int) =~= to@);
    }
    Some(acc)
}

proof fn lemma_merge_none_extends(to: Seq<BlockchainTransactionEntryTo>, k: int)
    requires
        0 <= k <= to.len(),
        merge_outputs(to.take(k)) is None,
    ensures
        merge_outputs(to) is None,
    decreases to.len() - k,
{
    if k < to.len() {
        assert(to.take(k + 1).drop_last() =~= to.take(k));
        lemma_merge_none_extends(to, k + 1);
    } else {
        assert(to.take(k) =~= to);
    }
}

/// Outputs to the address `a`.
pub open spec fn output_at(a: Seq<char>) -> spec_fn(BlockchainTransactionEntryTo) -> bool {
    |e: BlockchainTransactionEntryTo| e.address@ == a
}

/// Every address that the merged outputs go to is an address of an output.
pub proof fn lemma_merged_address_occurs(to: Seq<BlockchainTransactionEntryTo>, a: Seq<char>)
    requires
        merge_outputs(to) is Some,
        has_output_to(merge_outputs(to)->0, a),
    ensures
        has_output_to(to, a),
    decreases to.len(),
{
    if to.len() > 0 {
        let acc = merge_outputs(to.drop_last())->0;
        let merged = merge_outputs(to)->0;
        let e = to.last();
        let w = choose|w: int| 0 <= w < merged.len() && (#[trigger] merged[w]).address@ == a;
        if has_output_to(acc, e.address@) {
            let j = choose|j: int| 0 <= j < acc.len() && (#[trigger] acc[j]).address@ == e.address@;
            assert(acc[w].address@ == a);
            lemma_merged_address_occurs(to.drop_last(), a);
            let v = choose|v: int| 0 <= v < to.drop_last().len() && (#[trigger] to.drop_last()[v]).address@ == a;
            assert(to[v] == to.drop_last()[v]);
        } else {
            if w < acc.len() {
                assert(acc[w].address@ == a);
                lemma_merged_address_occurs(to.drop_last(), a);
                let v = choose|v: int| 0 <= v < to.drop_last().len() && (#[trigger] to.drop_last()[v]).address@ == a;
                assert(to[v] == to.drop_last()[v]);
            } else {
                assert(to[to.len() - 1].address@ == a);
            }
        }
    }
}

/// The value of the first output to `address`, which must exist.
pub fn output_value_at(to: &Vec<BlockchainTransactionEntryTo>, address: &String) -> (r: Amount)
    requires
        has_output_to(to@, address@),
    ensures
        first_match(to@, output_at(address@)) is Some,
        r == first_match(to@, output_at(address@))->0.value,
{
    let ghost p = output_at(address@);
    proof {
        lemma_first_match_bounds(to@, p);
    }
    let mut i: usize = 0;
    while i < to.len()
        invariant
            0 <= i <= to@.len(),
            p == output_at(address@),
            first_match(to@, p) == first_match(to@.subrange(i as int, to@.len() as int), p),
        decreases to.len() - i,
    {
        if to[i].address == *address {
            proof {
                lemma_first_match_hit(to@, p, i as int);
            }
            return to[i].value;
        }
        proof {
            lemma_first_match_skip(to@, p, i as int);
        }
        i = i + 1;
    }
    proof {
        lemma_first_match_some(to@, p);
        let w = choose|w: int| 0 <= w < to@.len() && (#[trigger] to@[w]).address@ == address@;
        assert(p(to@[w]));
    }
    Amount(0)
}

impl BlockchainTransaction {
    /// The transaction with its senders without repetition and its outputs
    /// merged per address; `None` when a merged value overflows.
    pub fn normalized(&self) -> (r: Option<BlockchainTransaction>)
        ensures
            merge_outputs(self.to@) is None <==> r is None,
            r matches Some(n) ==> {
                &&& n.hash == self.hash
                &&& n.from@ == unique_addresses(self.from@)
                &&& merge_outputs(self.to@) == Some(n.to@)
                &&& n.block_number == self.block_number
                &&& n.currency == self.currency
                &&& n.fee == self.fee
                &&& n.confirmations == self.confirmations
                &&& n.erc20_operation_kind == self.erc20_operation_kind
            },
    {
        let to = match merged_outputs(&self.to) {
            Some(to) => to,
            None => {
                return None;
            },
        };
        Some(
            BlockchainTransaction {
                hash: self.hash.clone(),
                from: unique_from(&self.from),
                to,
                block_number: self.block_number,
                currency: self.currency,
                fee: self.fee,
                confirmations: self.confirmations,
                erc20_operation_kind: self.erc20_operation_kind,
            },
        )
    }

    /// The total value of the outputs, when it fits in an amount.
    pub fn value(&self) -> (r: Option<Amount>)
        ensures
            outputs_sum(self.to@) >= 0,
            r == (if outputs_sum(self.to@) <= u128::MAX {
                Some(Amount(outputs_sum(self.to@) as u128))
            } else {
                None::<Amount>
            }),
    {
        outputs_value(&self.to)
    }
}

} // verus!
