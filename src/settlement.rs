use vstd::prelude::*;

use crate::error::ContractError;
use crate::helper::{matching_amount, merge_coin};
use crate::msg::Transfer;
use crate::state::{Coin, Order, OrderStatus, OrderView};

verus! {

/// On confirmation the seller is paid the price and the shipper the fee.
pub open spec fn confirm_payouts(o: OrderView) -> Seq<Transfer> {
    seq![
        Transfer { to_address: o.seller, amount: o.price },
        Transfer { to_address: o.shipper->Some_0, amount: o.shipping_fee->Some_0 },
    ]
}

/// Twice the shipping fee, in the fee's denomination.
pub open spec fn doubled_fee(o: OrderView) -> Coin {
    Coin {
        denom: o.shipping_fee->Some_0.denom,
        amount: (2 * o.shipping_fee->Some_0.amount) as u128,
    }
}

/// The price and the shipping fee are in one denomination.
pub open spec fn fee_in_price_denom(o: OrderView) -> bool {
    o.price.denom@ == o.shipping_fee->Some_0.denom@
}

/// The price plus twice the shipping fee, as one coin of the price's
/// denomination (used when both share it).
pub open spec fn refund_with_fee(o: OrderView) -> Coin {
    Coin {
        denom: o.price.denom,
        amount: (o.price.amount + 2 * o.shipping_fee->Some_0.amount) as u128,
    }
}

/// The payouts of a dispute fit in `u128`.
pub open spec fn dispute_payouts_fit(o: OrderView) -> bool {
    &&& 2 * o.shipping_fee->Some_0.amount <= u128::MAX
    &&& (o.status == OrderStatus::DisputingBroken && fee_in_price_denom(o) ==> o.price.amount + 2
        * o.shipping_fee->Some_0.amount <= u128::MAX)
}

/// A confirmed dispute over broken goods refunds the buyer the price and
/// twice the fee (one coin when they share a denomination, two transfers
/// otherwise), and pays the seller the price; one over an unsatisfied buyer
/// pays the shipper twice the fee and refunds the buyer the price.
pub open spec fn dispute_payouts(o: OrderView) -> Seq<Transfer> {
    if o.status == OrderStatus::DisputingBroken {
        if fee_in_price_denom(o) {
            seq![
                Transfer { to_address: o.buyer, amount: refund_with_fee(o) },
                Transfer { to_address: o.seller, amount: o.price },
            ]
        } else {
            seq![
                Transfer { to_address: o.buyer, amount: o.price },
                Transfer { to_address: o.buyer, amount: doubled_fee(o) },
                Transfer { to_address: o.seller, amount: o.price },
            ]
        }
    } else {
        seq![
            Transfer { to_address: o.shipper->Some_0, amount: doubled_fee(o) },
            Transfer { to_address: o.buyer, amount: o.price },
        ]
    }
}

/// The payments owed when the buyer confirms delivery.
pub fn confirm_settlement(order: &Order) -> (r: Vec<Transfer>)
    requires
        order.shipper is Some,
        order.shipping_fee is Some,
    ensures
        r@ == confirm_payouts(order@),
{
    let shipper = match &order.shipper {
        Some(s) => s.clone(),
        // excluded by the precondition
        None => String::new(),
    };
    let fee = match &order.shipping_fee {
        Some(f) => f.clone(),
        None => Coin { denom: String::new(), amount: 0 },
    };
    let r = vec![
        Transfer { to_address: order.seller.clone(), amount: order.price.clone() },
        Transfer { to_address: shipper, amount: fee },
    ];
    assert(r@ =~= confirm_payouts(order@));
    r
}

/// The payments owed when the seller accepts a dispute; `Overflow` where an
/// amount would not fit.
pub fn dispute_settlement(order: &Order) -> (r: Result<Vec<Transfer>, ContractError>)
    requires
        order.status == OrderStatus::DisputingBroken || order.status
            == OrderStatus::DisputingUnsatisfied,
        order.shipper is Some,
        order.shipping_fee is Some,
    ensures
        dispute_payouts_fit(order@) ==> (r matches Ok(v) && v@ == dispute_payouts(order@)),
        !dispute_payouts_fit(order@) ==> r == Err::<Vec<Transfer>, ContractError>(
            ContractError::Overflow {},
        ),
{
    let fee = match &order.shipping_fee {
        Some(f) => f.clone(),
        None => Coin { denom: String::new(), amount: 0 },
    };
    if fee.amount > u128::MAX / 2 {
        return Err(ContractError::Overflow {});
    }
    let doubled = Coin { denom: fee.denom, amount: 2 * fee.amount };
    assert(doubled == doubled_fee(order@));
    proof {
        reveal_with_fuel(matching_amount, 2);
    }
    if order.status == OrderStatus::DisputingBroken {
        let same_denom = order.price.denom == doubled.denom;
        let extra: u128 = if same_denom {
            doubled.amount
        } else {
            0
        };
        assert(extra == matching_amount(seq![doubled_fee(order@)], order@.price.denom@));
        if order.price.amount > u128::MAX - extra {
            return Err(ContractError::Overflow {});
        }
        let coin1 = vec![order.price.clone()];
        let coin2 = vec![doubled.clone()];
        assert(coin2@ =~= seq![doubled_fee(order@)]);
        let merged = merge_coin(coin1, coin2);
        let refund = merged[0].clone();
        let mut r = vec![Transfer { to_address: order.buyer.clone(), amount: refund }];
        if !same_denom {
            r.push(Transfer { to_address: order.buyer.clone(), amount: doubled });
        }
        r.push(Transfer { to_address: order.seller.clone(), amount: order.price.clone() });
        assert(r@ =~= dispute_payouts(order@));
        Ok(r)
    } else {
        let shipper = match &order.shipper {
            Some(s) => s.clone(),
            None => String::new(),
        };
        let r = vec![
            Transfer { to_address: shipper, amount: doubled },
            Transfer { to_address: order.buyer.clone(), amount: order.price.clone() },
        ];
        assert(r@ =~= dispute_payouts(order@));
        Ok(r)
    }
}

} // verus!
