use vstd::prelude::*;

use crate::contract::{
    executes, bid_position, buy_apply, buy_check, choose_bid_apply, choose_bid_check, finish_apply,
    has_bid, is_first_bid, listing, order_exists, performs, post_apply, post_check,
    shipping_buyer_check, take_order_apply, take_order_check, upload_address_apply,
    upload_address_check,
};
use crate::error::ContractError;
use crate::helper::covers;
use crate::msg::{ExecuteMsg, MessageInfo, Response};
use crate::settlement::confirm_payouts;
use crate::state::{
    goods_position, has_goods, shipper_chosen, Coin, GoodsStatus, LedgerView, OrderStatus, ShipperBid,
};

verus! {

/// Posting a name that is not listed yet, then listing the catalog, shows
/// exactly one listing of that name: available, with the posted seller,
/// price, denomination and area.
pub proof fn law_post_then_list(
    pre: LedgerView,
    seller: String,
    name: String,
    price: u32,
    denom: String,
    area: String,
)
    requires
        pre.wf(),
        !has_goods(pre.goods, name@),
    ensures
        post_check(pre, name) is None,
        ({
            let goods = post_apply(pre, seller, name, price, denom, area).goods;
            let i = pre.goods.len() as int;
            &&& 0 <= i < goods.len()
            &&& goods[i] == listing(seller, name, price, denom, area)
            &&& goods[i].status == GoodsStatus::Available
            &&& goods[i].seller == seller && goods[i].seller_area == area
            &&& goods[i].price.amount == price && goods[i].price.denom == denom
            &&& forall|j: int| 0 <= j < goods.len() && (#[trigger] goods[j]).name@ == name@ ==> j == i
        }),
{
    let goods = post_apply(pre, seller, name, price, denom, area).goods;
    assert forall|j: int| 0 <= j < goods.len() && (#[trigger] goods[j]).name@ == name@ implies j
        == pre.goods.len() by {
        if j < pre.goods.len() {
            assert(pre.goods[j].name@ == name@);
        }
    }
}

/// Buying an available listing with enough payment opens exactly one new
/// order, in `Setup`, whose id follows the largest id so far (0 for the
/// first), and reserves the listing; buying a listing that is not available
/// is refused with `GoodsNotAvailable` and opens no order.
pub proof fn law_buy(pre: LedgerView, info: MessageInfo, name: String, area: String)
    requires
        pre.wf(),
        has_goods(pre.goods, name@),
        pre.state.order_cnt < u32::MAX,
    ensures
        ({
            let p = goods_position(pre.goods, name@);
            let g = pre.goods[p];
            let post = buy_apply(pre, info, name, area);
            g.status == GoodsStatus::Available && covers(info.funds@, g.price) ==> {
                &&& buy_check(pre, info, name) is None
                &&& post.orders.len() == pre.orders.len() + 1
                &&& post.orders.subrange(0, pre.orders.len() as int) == pre.orders
                &&& post.orders.last().status == OrderStatus::Setup
                &&& (pre.orders.len() == 0 ==> post.orders.last().id == 0)
                &&& (pre.orders.len() > 0 ==> post.orders.last().id == pre.orders.last().id + 1
                    && forall|j: int|
                    0 <= j < pre.orders.len() ==> (#[trigger] pre.orders[j]).id
                        <= pre.orders.last().id)
                &&& post.goods[p].status == GoodsStatus::Ordered
                &&& post.goods.len() == pre.goods.len()
            }
        }),
        pre.goods[goods_position(pre.goods, name@)].status != GoodsStatus::Available ==> {
            &&& buy_check(pre, info, name) == Some(ContractError::GoodsNotAvailable {})
            &&& forall|post: LedgerView, r: Result<Response, ContractError>|
                #[trigger] performs(
                    pre,
                    post,
                    r,
                    buy_check(pre, info, name),
                    buy_apply(pre, info, name, area),
                    Seq::empty(),
                ) ==> post.orders == pre.orders
        },
{
    let p = goods_position(pre.goods, name@);
    assert(pre.goods[p].name@ == name@);
    let post = buy_apply(pre, info, name, area);
    assert(post.orders.subrange(0, pre.orders.len() as int) =~= pre.orders);
    if pre.orders.len() > 0 {
        let last = pre.orders.len() - 1;
        assert(pre.orders[last].id == last);
    }
}

/// A bid whose bond does not cover the order's price is refused with
/// `InsufficientFundsSend`; one whose bond covers it appends exactly that bid
/// and leaves the order in `Bidding`.
pub proof fn law_take_order(
    pre: LedgerView,
    info: MessageInfo,
    id: u32,
    pub_key: String,
    price: Coin,
)
    requires
        pre.wf(),
        order_exists(pre, id),
        pre.orders[id as int].status == OrderStatus::Setup || pre.orders[id as int].status
            == OrderStatus::Bidding,
    ensures
        ({
            let o = pre.orders[id as int];
            pre.orders[id as int].price.amount > 0 && !covers(info.funds@, o.price) ==> take_order_check(
                pre,
                info,
                id,
            ) == Some(ContractError::InsufficientFundsSend {})
        }),
        ({
            let o = pre.orders[id as int];
            let post = take_order_apply(pre, info, id, pub_key, price);
            covers(info.funds@, o.price) ==> {
                &&& take_order_check(pre, info, id) is None
                &&& post.orders.len() == pre.orders.len()
                &&& post.orders[id as int].shipper_bids == o.shipper_bids.push(
                    ShipperBid { shipper: info.sender, pub_key, price },
                )
                &&& post.orders[id as int].status == OrderStatus::Bidding
                &&& forall|j: int|
                    0 <= j < pre.orders.len() && j != id ==> #[trigger] post.orders[j]
                        == pre.orders[j]
            }
        }),
{
    let req = seq![pre.orders[id as int].price];
    assert(req[0] == pre.orders[id as int].price);
}

/// Bids accumulate: two covered bids on one order, one after the other,
/// are both kept, in the order they came.
pub proof fn law_bids_accumulate(
    pre: LedgerView,
    id: u32,
    info1: MessageInfo,
    pub_key1: String,
    price1: Coin,
    info2: MessageInfo,
    pub_key2: String,
    price2: Coin,
)
    requires
        pre.wf(),
        order_exists(pre, id),
        pre.orders[id as int].status == OrderStatus::Setup || pre.orders[id as int].status
            == OrderStatus::Bidding,
        covers(info1.funds@, pre.orders[id as int].price),
        covers(info2.funds@, pre.orders[id as int].price),
    ensures
        ({
            let mid = take_order_apply(pre, info1, id, pub_key1, price1);
            let post = take_order_apply(mid, info2, id, pub_key2, price2);
            &&& take_order_check(pre, info1, id) is None
            &&& take_order_check(mid, info2, id) is None
            &&& post.orders[id as int].shipper_bids == pre.orders[id as int].shipper_bids.push(
                ShipperBid { shipper: info1.sender, pub_key: pub_key1, price: price1 },
            ).push(ShipperBid { shipper: info2.sender, pub_key: pub_key2, price: price2 })
            &&& post.orders[id as int].status == OrderStatus::Bidding
        }),
{
}

/// When `who` has bid, one of the bids is the first of `who`.
pub proof fn lemma_first_bid_exists(bids: Seq<ShipperBid>, who: Seq<char>)
    requires
        has_bid(bids, who),
    ensures
        is_first_bid(bids, who, bid_position(bids, who)),
    decreases bids.len(),
{
    if bids[0].shipper@ == who {
        assert(is_first_bid(bids, who, 0));
    } else {
        let rest = bids.drop_first();
        let k = choose|k: int| 0 <= k < bids.len() && (#[trigger] bids[k]).shipper@ == who;
        assert(rest[k - 1].shipper@ == who);
        lemma_first_bid_exists(rest, who);
        let q = bid_position(rest, who);
        assert forall|j: int| 0 <= j < q + 1 implies (#[trigger] bids[j]).shipper@ != who by {
            if j > 0 {
                assert(bids[j] == rest[j - 1]);
            }
        }
        assert(is_first_bid(bids, who, q + 1));
    }
}

/// Choosing a bid: a caller other than the buyer is refused with
/// `Unauthorized`; the buyer naming a shipper who has bid gets that
/// shipper's first bid adopted, its price as the shipping fee, and the order
/// waits for addresses; any later `ChooseBid` is refused with
/// `OrderNotAvailable`.
pub proof fn law_choose_bid(
    pre: LedgerView,
    sender: String,
    id: u32,
    shipper: String,
    later_sender: String,
    later_shipper: String,
)
    requires
        pre.wf(),
        order_exists(pre, id),
        pre.orders[id as int].status == OrderStatus::Bidding,
    ensures
        sender@ != pre.orders[id as int].buyer@ ==> choose_bid_check(pre, sender, id, shipper)
            == Some(ContractError::Unauthorized {}),
        ({
            let bids = pre.orders[id as int].shipper_bids;
            let post = choose_bid_apply(pre, id, shipper);
            sender@ == pre.orders[id as int].buyer@ && has_bid(bids, shipper@) ==> {
                &&& choose_bid_check(pre, sender, id, shipper) is None
                &&& exists|k: int|
                    is_first_bid(bids, shipper@, k) && post.orders[id as int].shipping_fee == Some(
                        #[trigger] bids[k].price,
                    ) && post.orders[id as int].shipper == Some(bids[k].shipper)
                &&& post.orders[id as int].status == OrderStatus::WaitingAddressUpload
                &&& choose_bid_check(post, later_sender, id, later_shipper) == Some(
                    ContractError::OrderNotAvailable {},
                )
            }
        }),
{
    let bids = pre.orders[id as int].shipper_bids;
    if has_bid(bids, shipper@) {
        lemma_first_bid_exists(bids, shipper@);
        let k = bid_position(bids, shipper@);
        assert(is_first_bid(bids, shipper@, k));
    }
}

/// Uploading an address: a caller who is neither buyer nor seller is
/// refused with `Unauthorized`; otherwise the order is in `Shipping` after
/// the call exactly when both addresses are non-empty, and else still waits.
pub proof fn law_upload_address(pre: LedgerView, sender: String, id: u32, address_enc: String)
    requires
        pre.wf(),
        order_exists(pre, id),
        pre.orders[id as int].status == OrderStatus::WaitingAddressUpload,
    ensures
        sender@ != pre.orders[id as int].buyer@ && sender@ != pre.orders[id as int].seller@
            ==> upload_address_check(pre, sender, id) == Some(ContractError::Unauthorized {}),
        ({
            let o = upload_address_apply(pre, sender, id, address_enc).orders[id as int];
            sender@ == pre.orders[id as int].buyer@ || sender@ == pre.orders[id as int].seller@ ==> {
                &&& upload_address_check(pre, sender, id) is None
                &&& (o.status == OrderStatus::Shipping <==> o.buyer_addr_enc.len() > 0
                    && o.seller_addr_enc.len() > 0)
                &&& (o.status == OrderStatus::Shipping || o.status
                    == OrderStatus::WaitingAddressUpload)
            }
        }),
{
}

/// Only the buyer can confirm: for an order in `Shipping`, `Confirm` by
/// anyone else is refused with `Unauthorized` and the order stays in
/// `Shipping`.
pub proof fn law_confirm_needs_buyer(pre: LedgerView, sender: String, id: u32)
    requires
        pre.wf(),
        order_exists(pre, id),
        pre.orders[id as int].status == OrderStatus::Shipping,
        sender@ != pre.orders[id as int].buyer@,
    ensures
        shipping_buyer_check(pre, sender, id) == Some(ContractError::Unauthorized {}),
        forall|post: LedgerView, r: Result<Response, ContractError>|
            #[trigger] performs(
                pre,
                post,
                r,
                shipping_buyer_check(pre, sender, id),
                finish_apply(pre, id, GoodsStatus::Sold, OrderStatus::Confirmed),
                confirm_payouts(pre.orders[id as int]),
            ) ==> r == Err::<Response, ContractError>(ContractError::Unauthorized {})
                && post.orders[id as int].status == OrderStatus::Shipping,
{
}

/// One action, accepted or refused, never takes an order whose shipper was
/// chosen back to `Setup` or `Bidding`, and never removes it.
pub proof fn lemma_choice_kept(
    pre: LedgerView,
    post: LedgerView,
    info: MessageInfo,
    msg: ExecuteMsg,
    r: Result<Response, ContractError>,
    id: u32,
)
    requires
        order_exists(pre, id),
        shipper_chosen(pre.orders[id as int].status),
        executes(pre, post, info, msg, r),
    ensures
        order_exists(post, id),
        shipper_chosen(post.orders[id as int].status),
{
    match msg {
        ExecuteMsg::Post { .. } => {},
        ExecuteMsg::Buy { .. } => {},
        ExecuteMsg::Reset { .. } => {},
        ExecuteMsg::TakeOrder { .. } => {},
        ExecuteMsg::ChooseBid { .. } => {},
        ExecuteMsg::UploadAddress { .. } => {},
        ExecuteMsg::Confirm { .. } => {},
        ExecuteMsg::DisputeBroken { .. } => {},
        ExecuteMsg::DisputeUnsatisfied { .. } => {},
        ExecuteMsg::DisputeConfirm { .. } => {},
    }
}

/// Once a bid is chosen for an order, every later `ChooseBid` on it is
/// refused with `OrderNotAvailable` (so changes nothing), whatever actions
/// came in between: `states[k + 1]` is the ledger after `execute` of
/// `msgs[k]` by `infos[k]` on `states[k]`, with result `results[k]`.
pub proof fn law_choice_is_final(
    states: Seq<LedgerView>,
    infos: Seq<MessageInfo>,
    msgs: Seq<ExecuteMsg>,
    results: Seq<Result<Response, ContractError>>,
    id: u32,
)
    requires
        states.len() == msgs.len() + 1,
        infos.len() == msgs.len(),
        results.len() == msgs.len(),
        order_exists(states[0], id),
        shipper_chosen(states[0].orders[id as int].status),
        forall|k: int|
            0 <= k < msgs.len() ==> executes(
                #[trigger] states[k],
                states[k + 1],
                infos[k],
                msgs[k],
                results[k],
            ),
    ensures
        forall|k: int|
            0 <= k < states.len() ==> order_exists(#[trigger] states[k], id) && shipper_chosen(
                states[k].orders[id as int].status,
            ),
        forall|k: int, sender: String, shipper: String|
            0 <= k < states.len() ==> #[trigger] choose_bid_check(states[k], sender, id, shipper)
                == Some(ContractError::OrderNotAvailable {}),
    decreases msgs.len(),
{
    if msgs.len() > 0 {
        let n = msgs.len() - 1;
        let states1 = states.drop_last();
        assert forall|k: int| 0 <= k < n implies executes(
            #[trigger] states1[k],
            states1[k + 1],
            infos.drop_last()[k],
            msgs.drop_last()[k],
            results.drop_last()[k],
        ) by {
            assert(executes(states[k], states[k + 1], infos[k], msgs[k], results[k]));
        }
        law_choice_is_final(states1, infos.drop_last(), msgs.drop_last(), results.drop_last(), id);
        assert(states1[n as int] == states[n as int]);
        assert(order_exists(states1[n as int], id));
        assert(executes(states[n as int], states[n + 1], infos[n as int], msgs[n as int], results[n as int]));
        lemma_choice_kept(states[n as int], states[n + 1], infos[n as int], msgs[n as int], results[n as int], id);
        assert forall|k: int| 0 <= k < states.len() implies order_exists(#[trigger] states[k], id)
            && shipper_chosen(states[k].orders[id as int].status) by {
            if k < n + 1 {
                assert(states1[k] == states[k]);
            }
        }
    }
}

/// `a` to `b` is no move or one edge of the order state machine.
pub open spec fn order_step(a: OrderStatus, b: OrderStatus) -> bool {
    ||| a == b
    ||| a == OrderStatus::Setup && b == OrderStatus::Bidding
    ||| a == OrderStatus::Bidding && b == OrderStatus::WaitingAddressUpload
    ||| a == OrderStatus::WaitingAddressUpload && b == OrderStatus::Shipping
    ||| a == OrderStatus::Shipping && (b == OrderStatus::Confirmed || b == OrderStatus::DisputingBroken
        || b == OrderStatus::DisputingUnsatisfied)
    ||| (a == OrderStatus::DisputingBroken || a == OrderStatus::DisputingUnsatisfied) && b
        == OrderStatus::Disputed
}

/// `a` to `b` is no move, a reservation, or a settlement of a listing.
pub open spec fn goods_step(a: GoodsStatus, b: GoodsStatus) -> bool {
    ||| a == b
    ||| a == GoodsStatus::Available && b == GoodsStatus::Ordered
    ||| a == GoodsStatus::Ordered && (b == GoodsStatus::Sold || b == GoodsStatus::Returned)
}

/// Every action moves each order and each listing along at most one edge
/// of its state machine; new orders start in `Setup` and new listings are
/// available; only `Confirm` and `DisputeConfirm` ask for payments.
pub proof fn law_status_moves_along_the_machine(
    pre: LedgerView,
    post: LedgerView,
    info: MessageInfo,
    msg: ExecuteMsg,
    r: Result<Response, ContractError>,
)
    requires
        pre.wf(),
        executes(pre, post, info, msg, r),
    ensures
        post.orders.len() >= pre.orders.len(),
        forall|i: int|
            0 <= i < pre.orders.len() ==> order_step(
                #[trigger] pre.orders[i].status,
                post.orders[i].status,
            ),
        forall|i: int|
            pre.orders.len() <= i < post.orders.len() ==> (#[trigger] post.orders[i]).status
                == OrderStatus::Setup,
        post.goods.len() >= pre.goods.len(),
        forall|i: int|
            0 <= i < pre.goods.len() ==> goods_step(
                #[trigger] pre.goods[i].status,
                post.goods[i].status,
            ),
        forall|i: int|
            pre.goods.len() <= i < post.goods.len() ==> (#[trigger] post.goods[i]).status
                == GoodsStatus::Available,
        r is Ok && r->Ok_0.messages@.len() > 0 ==> (msg is Confirm || msg is DisputeConfirm),
{
    match msg {
        ExecuteMsg::Confirm { id } => {
            if order_exists(pre, id) {
                let o = pre.orders[id as int];
                assert(has_goods(pre.goods, o.goods.name@));
            }
        },
        ExecuteMsg::DisputeConfirm { id } => {
            if order_exists(pre, id) {
                let o = pre.orders[id as int];
                assert(has_goods(pre.goods, o.goods.name@));
            }
        },
        _ => {},
    }
}

} // verus!
