//! The integer part of the wallet's metrics: splitting the balances of the
//! blockchain addresses into the negative ones and the others.
use vstd::prelude::*;
use crate::models::{Amount, Currency};

verus! {

/// What the ledger debited and credited the accounts at an address, per currency.
#[derive(Debug)]
pub struct AddressTurnover {
    pub address: String,
    pub currency: Currency,
    pub dr_turnover: Amount,
    pub cr_turnover: Amount,
}

/// The balance of an address in a currency.
#[derive(Debug)]
pub struct AddressBalance {
    pub address: String,
    pub currency: Currency,
    pub value: Amount,
}

/// An address whose balance is negative, by how much.
#[derive(Debug)]
pub struct NegativeBalance {
    pub address: String,
    pub currency: Currency,
    pub value: Amount,
}

/// Whether the balance of an address is negative.
pub open spec fn is_negative(t: AddressTurnover) -> bool {
    t.cr_turnover.0 > t.dr_turnover.0
}

/// The negative balances among the turnovers, with by how much, in order.
pub open spec fn negatives(ts: Seq<AddressTurnover>) -> Seq<NegativeBalance> {
    ts.filter(|t: AddressTurnover| is_negative(t)).map_values(
        |t: AddressTurnover|
            NegativeBalance {
                address: t.address,
                currency: t.currency,
                value: Amount((t.cr_turnover.0 - t.dr_turnover.0) as u128),
            },
    )
}

/// The other balances, in order.
pub open spec fn non_negatives(ts: Seq<AddressTurnover>) -> Seq<AddressBalance> {
    ts.filter(|t: AddressTurnover| !is_negative(t)).map_values(
        |t: AddressTurnover|
            AddressBalance {
                address: t.address,
                currency: t.currency,
                value: Amount((t.dr_turnover.0 - t.cr_turnover.0) as u128),
            },
    )
}

/// Splits the balances of addresses into the negative ones (credited more
/// than debited) and the others, each with its absolute value.
pub fn update_negative_balances_and_reduce(balances: &Vec<AddressTurnover>) -> (r: (Vec<NegativeBalance>, Vec<AddressBalance>))
    ensures
        r.0@ == negatives(balances@),
        r.1@ == non_negatives(balances@),
{
    let ghost neg = |t: AddressTurnover| is_negative(t);
    let ghost pos = |t: AddressTurnover| !is_negative(t);
    let ghost to_neg = |t: AddressTurnover|
        NegativeBalance {
            address: t.address,
            currency: t.currency,
            value: Amount((t.cr_turnover.0 - t.dr_turnover.0) as u128),
        };
    let ghost to_pos = |t: AddressTurnover|
        AddressBalance {
            address: t.address,
            currency: t.currency,
            value: Amount((t.dr_turnover.0 - t.cr_turnover.0) as u128),
        };
    proof {
        crate::lookup::lemma_filter_ends(balances@, neg);
        crate::lookup::lemma_filter_ends(balances@, pos);
    }
    let mut neg_res: Vec<NegativeBalance> = Vec::new();
    let mut res: Vec<AddressBalance> = Vec::new();
    let mut i: usize = 0;
    while i < balances.len()
        invariant
            0 <= i <= balances@.len(),
            neg == (|t: AddressTurnover| is_negative(t)),
            pos == (|t: AddressTurnover| !is_negative(t)),
            to_neg == (|t: AddressTurnover|
                NegativeBalance {
                    address: t.address,
                    currency: t.currency,
                    value: Amount((t.cr_turnover.0 - t.dr_turnover.0) as u128),
                }),
            to_pos == (|t: AddressTurnover|
                AddressBalance {
                    address: t.address,
                    currency: t.currency,
                    value: Amount((t.dr_turnover.0 - t.cr_turnover.0) as u128),
                }),
            neg_res@ == balances@.take(i as int).filter(neg).map_values(to_neg),
            res@ == balances@.take(i as int).filter(pos).map_values(to_pos),
        decreases balances.len() - i,
    {
        let b = &balances[i];
        proof {
            crate::lookup::lemma_filter_step(balances@, neg, i as int);
            crate::lookup::lemma_filter_step(balances@, pos, i as int);
        }
        if b.cr_turnover.0 > b.dr_turnover.0 {
            neg_res.push(
                NegativeBalance {
                    address: b.address.clone(),
                    currency: b.currency,
                    value: Amount(b.cr_turnover.0 - b.dr_turnover.0),
                },
            );
            proof {
                assert(neg_res@ =~= balances@.take(i + 1).filter(neg).map_values(to_neg));
                assert(res@ =~= balances@.take(i + 1).filter(pos).map_values(to_pos));
            }
        } else {
            res.push(
                AddressBalance {
                    address: b.address.clone(),
                    currency: b.currency,
                    value: Amount(b.dr_turnover.0 - b.cr_turnover.0),
                },
            );
            proof {
                assert(neg_res@ =~= balances@.take(i + 1).filter(neg).map_values(to_neg));
                assert(res@ =~= balances@.take(i + 1).filter(pos).map_values(to_pos));
            }
        }
        i = i + 1;
    }
    proof {
        assert(balances@.take(balances@.len() as int) =~= balances@);
    }
    (neg_res, res)
}

} // verus!
