use vstd::prelude::*;

use crate::error::ContractError;
use crate::helper::{assert_sent_sufficient_coin, sufficient_funds};
use crate::msg::{
    AddressesResponse, ExecuteMsg, GoodsResponse, InstantiateMsg, MessageInfo, OrderDetailResponse,
    OrdersResponse, Response, ShippingFeesResponse, Transfer,
};
use crate::settlement::{
    confirm_payouts, confirm_settlement, dispute_payouts, dispute_payouts_fit, dispute_settlement,
};
use crate::state::{
    addresses_complete, listing_status_for, one_order_per_listing, has_goods, goods_position, names_unique, shipper_chosen, view_orders, Coin, Goods, GoodsStatus, Ledger,
    LedgerView, Order, OrderStatus, OrderView, ShipperBid, ShippingFee, State,
};

verus! {

/// How an action ends: refused with the error `check` and no change at all,
/// or accepted, leaving the ledger at `next` and asking for `payouts`.
pub open spec fn performs(
    pre: LedgerView,
    post: LedgerView,
    r: Result<Response, ContractError>,
    check: Option<ContractError>,
    next: LedgerView,
    payouts: Seq<Transfer>,
) -> bool {
    match check {
        Some(e) => r == Err::<Response, ContractError>(e) && post == pre,
        None => r is Ok && r->Ok_0.messages@ == payouts && post == next,
    }
}

/// Listings keep their names: `g2` starts with listings named as in `g1`.
pub proof fn lemma_names_kept(g1: Seq<Goods>, g2: Seq<Goods>)
    requires
        g1.len() <= g2.len(),
        forall|i: int| 0 <= i < g1.len() ==> (#[trigger] g2[i]).name@ == g1[i].name@,
    ensures
        forall|n: Seq<char>| has_goods(g1, n) ==> #[trigger] has_goods(g2, n),
        g1.len() == g2.len() ==> (names_unique(g1) ==> names_unique(g2)),
        g1.len() == g2.len() ==> forall|n: Seq<char>| #[trigger]
            has_goods(g2, n) ==> has_goods(g1, n),
{
    assert forall|n: Seq<char>| has_goods(g1, n) implies #[trigger] has_goods(g2, n) by {
        let i = choose|i: int| 0 <= i < g1.len() && #[trigger] g1[i].name@ == n;
        assert(g2[i].name@ == n);
    }
    if g1.len() == g2.len() {
        assert forall|n: Seq<char>| #[trigger] has_goods(g2, n) implies has_goods(g1, n) by {
            let i = choose|i: int| 0 <= i < g2.len() && #[trigger] g2[i].name@ == n;
            assert(g1[i].name@ == n);
        }
        if names_unique(g1) {
            assert forall|i: int, j: int|
                0 <= i < g2.len() && 0 <= j < g2.len() && #[trigger] g2[i].name@
                    == #[trigger] g2[j].name@ implies i == j by {
                assert(g1[i].name@ == g1[j].name@);
            }
        }
    }
}

/// With unique names, a listing named `n` stands at `goods_position`.
pub proof fn lemma_position(goods: Seq<Goods>, p: int)
    requires
        names_unique(goods),
        0 <= p < goods.len(),
    ensures
        has_goods(goods, goods[p].name@),
        goods_position(goods, goods[p].name@) == p,
{
    let n = goods[p].name@;
    assert(goods[p].name@ == n);
    let q = goods_position(goods, n);
    assert(goods[q].name@ == n);
}

/// Finds the listing named `name`.
fn find_goods(goods: &Vec<Goods>, name: &String) -> (r: Option<usize>)
    requires
        names_unique(goods@),
    ensures
        match r {
            Some(p) => p < goods@.len() && p as int == goods_position(goods@, name@)
                && has_goods(goods@, name@),
            None => !has_goods(goods@, name@) && goods_position(goods@, name@) == -1,
        },
{
    let mut i: usize = 0;
    while i < goods.len()
        invariant
            i <= goods@.len(),
            names_unique(goods@),
            forall|j: int| 0 <= j < i ==> (#[trigger] goods@[j]).name@ != name@,
        decreases goods@.len() - i,
    {
        if goods[i].name == *name {
            proof {
                lemma_position(goods@, i as int);
            }
            return Some(i);
        }
        i = i + 1;
    }
    None
}

/// The listing that `Post` creates.
pub open spec fn listing(seller: String, name: String, price: u32, denom: String, area: String) -> Goods {
    Goods {
        name,
        seller,
        price: Coin { denom, amount: price as u128 },
        seller_area: area,
        status: GoodsStatus::Available,
    }
}

/// `Post` is refused when the name is already listed.
pub open spec fn post_check(l: LedgerView, name: String) -> Option<ContractError> {
    if has_goods(l.goods, name@) {
        Some(ContractError::DuplicateListing {})
    } else {
        None
    }
}

/// `Post` appends the new listing to the catalog.
pub open spec fn post_apply(
    l: LedgerView,
    seller: String,
    name: String,
    price: u32,
    denom: String,
    area: String,
) -> LedgerView {
    LedgerView { goods: l.goods.push(listing(seller, name, price, denom, area)), ..l }
}

/// Lists a new item, available at `price` units of `denom`, sold by the caller.
pub fn try_post(
    ledger: &mut Ledger,
    info: &MessageInfo,
    name: String,
    price: u32,
    denom: String,
    area: String,
) -> (r: Result<Response, ContractError>)
    requires
        old(ledger)@.wf(),
    ensures
        final(ledger)@.wf(),
        performs(
            old(ledger)@,
            final(ledger)@,
            r,
            post_check(old(ledger)@, name),
            post_apply(old(ledger)@, info.sender, name, price, denom, area),
            Seq::empty(),
        ),
{
    if find_goods(&ledger.goods, &name).is_some() {
        return Err(ContractError::DuplicateListing {});
    }
    let good = Goods {
        name,
        seller: info.sender.clone(),
        price: Coin { denom, amount: price as u128 },
        seller_area: area,
        status: GoodsStatus::Available,
    };
    let ghost pre = ledger@;
    ledger.goods.push(good);
    proof {
        lemma_names_kept(pre.goods, ledger@.goods);
        let g = ledger@.goods;
        assert forall|i: int, j: int|
            0 <= i < g.len() && 0 <= j < g.len() && #[trigger] g[i].name@ == #[trigger] g[j].name@
            implies i == j by {
            if i != j && (i == pre.goods.len() || j == pre.goods.len()) {
                let k = if i == pre.goods.len() { j } else { i };
                assert(pre.goods[k].name@ == g[k].name@);
            }
        }
    }
    Ok(Response { messages: Vec::new() })
}

/// `Reset` is refused for an unknown name, a listing no longer available,
/// or a caller other than its seller.
pub open spec fn reset_check(l: LedgerView, sender: String, name: String) -> Option<ContractError> {
    let p = goods_position(l.goods, name@);
    if p < 0 {
        Some(ContractError::NotFound {})
    } else if l.goods[p].status != GoodsStatus::Available {
        Some(ContractError::GoodsNotAvailable {})
    } else if sender@ != l.goods[p].seller@ {
        Some(ContractError::Unauthorized {})
    } else {
        None
    }
}

/// `Reset` replaces the amount of the listing's price; its denomination stays.
pub open spec fn reset_apply(l: LedgerView, name: String, price: u32) -> LedgerView {
    let p = goods_position(l.goods, name@);
    let g = l.goods[p];
    LedgerView {
        goods: l.goods.update(p, Goods { price: Coin { amount: price as u128, ..g.price }, ..g }),
        ..l
    }
}

/// Changes the price of an available listing; only its seller may.
pub fn try_reset(ledger: &mut Ledger, info: &MessageInfo, name: String, price: u32) -> (r: Result<
    Response,
    ContractError,
>)
    requires
        old(ledger)@.wf(),
    ensures
        final(ledger)@.wf(),
        performs(
            old(ledger)@,
            final(ledger)@,
            r,
            reset_check(old(ledger)@, info.sender, name),
            reset_apply(old(ledger)@, name, price),
            Seq::empty(),
        ),
{
    let p = match find_goods(&ledger.goods, &name) {
        Some(p) => p,
        None => {
            return Err(ContractError::NotFound {});
        },
    };
    if ledger.goods[p].status != GoodsStatus::Available {
        return Err(ContractError::GoodsNotAvailable {});
    }
    if ledger.goods[p].seller != info.sender {
        return Err(ContractError::Unauthorized {});
    }
    let ghost pre = ledger@;
    ledger.goods[p].price.amount = price as u128;
    proof {
        lemma_names_kept(pre.goods, ledger@.goods);
        assert(ledger@.goods =~= reset_apply(pre, name, price).goods);
    }
    Ok(Response { messages: Vec::new() })
}

/// `Buy` is refused for an unknown name, a listing that is not available,
/// a payment that does not cover the price, or when no order id is left.
pub open spec fn buy_check(l: LedgerView, info: MessageInfo, name: String) -> Option<ContractError> {
    let p = goods_position(l.goods, name@);
    if p < 0 {
        Some(ContractError::NotFound {})
    } else if l.goods[p].status != GoodsStatus::Available {
        Some(ContractError::GoodsNotAvailable {})
    } else if !sufficient_funds(info.funds@, seq![l.goods[p].price]) {
        Some(ContractError::InsufficientFundsSend {})
    } else if l.state.order_cnt == u32::MAX {
        Some(ContractError::Overflow {})
    } else {
        None
    }
}

/// A new order in `Setup` for `goods`: no bids, no shipper, no addresses.
pub open spec fn opened_order(id: u32, buyer: String, goods: Goods, buyer_area: String) -> OrderView {
    OrderView {
        id,
        buyer,
        seller: goods.seller,
        goods,
        price: goods.price,
        buyer_area,
        shipper_bids: Seq::empty(),
        shipping_fee: None,
        shipper: None,
        shipper_key: None,
        buyer_addr_enc: Seq::empty(),
        seller_addr_enc: Seq::empty(),
        status: OrderStatus::Setup,
    }
}

/// `Buy` reserves the listing and opens an order under the next id.
pub open spec fn buy_apply(l: LedgerView, info: MessageInfo, name: String, area: String) -> LedgerView {
    let p = goods_position(l.goods, name@);
    let g = Goods { status: GoodsStatus::Ordered, ..l.goods[p] };
    LedgerView {
        state: State { order_cnt: (l.state.order_cnt + 1) as u32, ..l.state },
        goods: l.goods.update(p, g),
        orders: l.orders.push(opened_order(l.state.order_cnt, info.sender, g, area)),
        ..l
    }
}

/// Buys an available listing: the caller pays its price into escrow.
pub fn try_buy(ledger: &mut Ledger, info: &MessageInfo, name: String, area: String) -> (r: Result<
    Response,
    ContractError,
>)
    requires
        old(ledger)@.wf(),
    ensures
        final(ledger)@.wf(),
        performs(
            old(ledger)@,
            final(ledger)@,
            r,
            buy_check(old(ledger)@, *info, name),
            buy_apply(old(ledger)@, *info, name, area),
            Seq::empty(),
        ),
{
    let p = match find_goods(&ledger.goods, &name) {
        Some(p) => p,
        None => {
            return Err(ContractError::NotFound {});
        },
    };
    if ledger.goods[p].status != GoodsStatus::Available {
        return Err(ContractError::GoodsNotAvailable {});
    }
    let required = vec![ledger.goods[p].price.clone()];
    assert(required@ =~= seq![ledger@.goods[p as int].price]);
    if let Err(e) = assert_sent_sufficient_coin(info.funds.as_slice(), required) {
        return Err(e);
    }
    if ledger.state.order_cnt == u32::MAX {
        return Err(ContractError::Overflow {});
    }
    let ghost pre = ledger@;
    ledger.goods[p].status = GoodsStatus::Ordered;
    let good = ledger.goods[p].clone();
    let order = Order {
        id: ledger.state.order_cnt,
        buyer: info.sender.clone(),
        seller: good.seller.clone(),
        price: good.price.clone(),
        goods: good,
        buyer_area: area,
        shipper_bids: Vec::new(),
        shipping_fee: None,
        shipper: None,
        shipper_key: None,
        buyer_addr_enc: String::new(),
        seller_addr_enc: String::new(),
        status: OrderStatus::Setup,
    };
    ledger.orders.push(order);
    ledger.state.order_cnt = ledger.state.order_cnt + 1;
    proof {
        let next = buy_apply(pre, *info, name, area);
        lemma_names_kept(pre.goods, ledger@.goods);
        assert(ledger@.goods =~= next.goods);
        assert(ledger@.orders =~= next.orders);
        assert(ledger@.orders.last().goods.name@ == ledger@.goods[p as int].name@);
    }
    Ok(Response { messages: Vec::new() })
}

/// Replacing order `id` by a consistent order for the same listing, while
/// listings keep their names, keeps the ledger well formed.
proof fn lemma_wf_update(pre: LedgerView, goods: Seq<Goods>, id: int, o: OrderView)
    requires
        pre.wf(),
        0 <= id < pre.orders.len(),
        o.id as int == id,
        o.wf(),
        o.goods.name@ == pre.orders[id].goods.name@,
        goods.len() == pre.goods.len(),
        forall|i: int| 0 <= i < goods.len() ==> (#[trigger] goods[i]).name@ == pre.goods[i].name@,
        forall|i: int|
            0 <= i < goods.len() && i != goods_position(pre.goods, o.goods.name@) ==> (
            #[trigger] goods[i]).status == pre.goods[i].status,
        goods[goods_position(pre.goods, o.goods.name@)].status == listing_status_for(o.status),
    ensures
        (LedgerView { goods, orders: pre.orders.update(id, o), ..pre }).wf(),
{
    lemma_names_kept(pre.goods, goods);
    let post = LedgerView { goods, orders: pre.orders.update(id, o), ..pre };
    let p = goods_position(pre.goods, o.goods.name@);
    assert(has_goods(pre.goods, pre.orders[id].goods.name@));
    lemma_position_kept(pre.goods, goods, o.goods.name@);
    assert forall|i: int| 0 <= i < post.orders.len() implies {
        &&& (#[trigger] post.orders[i]).id as int == i
        &&& post.orders[i].wf()
        &&& has_goods(post.goods, post.orders[i].goods.name@)
        &&& post.goods[goods_position(post.goods, post.orders[i].goods.name@)].status
            == listing_status_for(post.orders[i].status)
    } by {
        let n = pre.orders[i].goods.name@;
        assert(has_goods(pre.goods, n));
        lemma_position_kept(pre.goods, goods, n);
        if i != id {
            let q = goods_position(pre.goods, n);
            assert(pre.goods[q].name@ == n);
            assert(pre.goods[p].name@ == o.goods.name@);
            if q == p {
                assert(pre.orders[i].goods.name@ == pre.orders[id].goods.name@);
            }
        }
    }
    assert(one_order_per_listing(post.orders)) by {
        assert forall|a: int, b: int|
            0 <= a < post.orders.len() && 0 <= b < post.orders.len()
                && #[trigger] post.orders[a].goods.name@ == #[trigger] post.orders[b].goods.name@
            implies a == b by {
            assert(pre.orders[a].goods.name@ == post.orders[a].goods.name@);
            assert(pre.orders[b].goods.name@ == post.orders[b].goods.name@);
        }
    }
}

/// Where a listing stands does not change while listings keep their names.
pub proof fn lemma_position_kept(g1: Seq<Goods>, g2: Seq<Goods>, n: Seq<char>)
    requires
        names_unique(g1),
        names_unique(g2),
        has_goods(g1, n),
        g1.len() <= g2.len(),
        forall|i: int| 0 <= i < g1.len() ==> (#[trigger] g2[i]).name@ == g1[i].name@,
    ensures
        has_goods(g2, n),
        goods_position(g2, n) == goods_position(g1, n),
{
    let p = goods_position(g1, n);
    assert(g1[p].name@ == n);
    assert(g2[p].name@ == n);
    let q = goods_position(g2, n);
    assert(g2[q].name@ == n);
}

/// The order `id` exists.
pub open spec fn order_exists(l: LedgerView, id: u32) -> bool {
    (id as int) < l.orders.len()
}

/// `TakeOrder` is refused for an unknown order, an order past bidding, or a
/// bond that does not cover the order's price.
pub open spec fn take_order_check(l: LedgerView, info: MessageInfo, id: u32) -> Option<ContractError> {
    if !order_exists(l, id) {
        Some(ContractError::NotFound {})
    } else if !(l.orders[id as int].status == OrderStatus::Setup || l.orders[id as int].status
        == OrderStatus::Bidding) {
        Some(ContractError::OrderNotAvailable {})
    } else if !sufficient_funds(info.funds@, seq![l.orders[id as int].price]) {
        Some(ContractError::InsufficientFundsSend {})
    } else {
        None
    }
}

/// `TakeOrder` appends the caller's bid and opens or keeps the bidding.
pub open spec fn take_order_apply(
    l: LedgerView,
    info: MessageInfo,
    id: u32,
    pub_key: String,
    price: Coin,
) -> LedgerView {
    let o = l.orders[id as int];
    let bid = ShipperBid { shipper: info.sender, pub_key, price };
    LedgerView {
        orders: l.orders.update(
            id as int,
            OrderView { status: OrderStatus::Bidding, shipper_bids: o.shipper_bids.push(bid), ..o },
        ),
        ..l
    }
}

/// A shipper bids `price` to deliver order `id`, posting a bond of at least
/// the order's price.
pub fn try_take_order(
    ledger: &mut Ledger,
    info: &MessageInfo,
    id: u32,
    pub_key: String,
    price: Coin,
) -> (r: Result<Response, ContractError>)
    requires
        old(ledger)@.wf(),
    ensures
        final(ledger)@.wf(),
        performs(
            old(ledger)@,
            final(ledger)@,
            r,
            take_order_check(old(ledger)@, *info, id),
            take_order_apply(old(ledger)@, *info, id, pub_key, price),
            Seq::empty(),
        ),
{
    let i = id as usize;
    if i >= ledger.orders.len() {
        return Err(ContractError::NotFound {});
    }
    let ghost pre = ledger@;
    assert(ledger@.orders[i as int] == ledger.orders@[i as int]@);
    if ledger.orders[i].status != OrderStatus::Setup && ledger.orders[i].status != OrderStatus::Bidding {
        return Err(ContractError::OrderNotAvailable {});
    }
    let required = vec![ledger.orders[i].price.clone()];
    assert(required@ =~= seq![ledger@.orders[i as int].price]);
    if let Err(e) = assert_sent_sufficient_coin(info.funds.as_slice(), required) {
        return Err(e);
    }
    let bid = ShipperBid { shipper: info.sender.clone(), pub_key, price };
    ledger.orders[i].status = OrderStatus::Bidding;
    ledger.orders[i].shipper_bids.push(bid);
    proof {
        let next = take_order_apply(pre, *info, id, pub_key, price);
        assert(ledger@.orders[i as int] == ledger.orders@[i as int]@);
        assert(ledger@.orders[i as int].shipper_bids =~= next.orders[i as int].shipper_bids);
        assert(ledger@.orders =~= next.orders);
        lemma_wf_update(pre, pre.goods, i as int, next.orders[i as int]);
    }
    Ok(Response { messages: Vec::new() })
}

/// `k` is the first bid of `who` in `bids`.
pub open spec fn is_first_bid(bids: Seq<ShipperBid>, who: Seq<char>, k: int) -> bool {
    &&& 0 <= k < bids.len()
    &&& bids[k].shipper@ == who
    &&& forall|j: int| 0 <= j < k ==> (#[trigger] bids[j]).shipper@ != who
}

/// `who` has bid in `bids`.
pub open spec fn has_bid(bids: Seq<ShipperBid>, who: Seq<char>) -> bool {
    exists|k: int| 0 <= k < bids.len() && (#[trigger] bids[k]).shipper@ == who
}

/// Where the first bid of `who` stands in `bids`.
pub open spec fn bid_position(bids: Seq<ShipperBid>, who: Seq<char>) -> int {
    choose|k: int| is_first_bid(bids, who, k)
}

/// `ChooseBid` is refused for an unknown order, an order not in bidding, a
/// caller other than the buyer, or a shipper without a bid.
pub open spec fn choose_bid_check(l: LedgerView, sender: String, id: u32, shipper: String) -> Option<
    ContractError,
> {
    if !order_exists(l, id) {
        Some(ContractError::NotFound {})
    } else if l.orders[id as int].status != OrderStatus::Bidding {
        Some(ContractError::OrderNotAvailable {})
    } else if sender@ != l.orders[id as int].buyer@ {
        Some(ContractError::Unauthorized {})
    } else if !has_bid(l.orders[id as int].shipper_bids, shipper@) {
        Some(ContractError::ShipperNotFound {})
    } else {
        None
    }
}

/// `ChooseBid` adopts the shipper's first bid: its shipper, key and price.
pub open spec fn choose_bid_apply(l: LedgerView, id: u32, shipper: String) -> LedgerView {
    let o = l.orders[id as int];
    let b = o.shipper_bids[bid_position(o.shipper_bids, shipper@)];
    LedgerView {
        orders: l.orders.update(
            id as int,
            OrderView {
                status: OrderStatus::WaitingAddressUpload,
                shipper: Some(b.shipper),
                shipper_key: Some(b.pub_key),
                shipping_fee: Some(b.price),
                ..o
            },
        ),
        ..l
    }
}

/// The buyer picks the bid of `shipper` for order `id`.
pub fn try_choose_bid(ledger: &mut Ledger, info: &MessageInfo, id: u32, shipper: String) -> (r:
    Result<Response, ContractError>)
    requires
        old(ledger)@.wf(),
    ensures
        final(ledger)@.wf(),
        performs(
            old(ledger)@,
            final(ledger)@,
            r,
            choose_bid_check(old(ledger)@, info.sender, id, shipper),
            choose_bid_apply(old(ledger)@, id, shipper),
            Seq::empty(),
        ),
{
    let i = id as usize;
    if i >= ledger.orders.len() {
        return Err(ContractError::NotFound {});
    }
    let ghost pre = ledger@;
    assert(ledger@.orders[i as int] == ledger.orders@[i as int]@);
    if ledger.orders[i].status != OrderStatus::Bidding {
        return Err(ContractError::OrderNotAvailable {});
    }
    if info.sender != ledger.orders[i].buyer {
        return Err(ContractError::Unauthorized {});
    }
    let bids = &ledger.orders[i].shipper_bids;
    let mut k: usize = 0;
    while k < bids.len()
        invariant
            k <= bids@.len(),
            forall|j: int| 0 <= j < k ==> (#[trigger] bids@[j]).shipper@ != shipper@,
        ensures
            k <= bids@.len(),
            forall|j: int| 0 <= j < k ==> (#[trigger] bids@[j]).shipper@ != shipper@,
            k < bids@.len() ==> bids@[k as int].shipper@ == shipper@,
        decreases bids@.len() - k,
    {
        if bids[k].shipper == shipper {
            break;
        }
        k = k + 1;
    }
    if k == bids.len() {
        return Err(ContractError::ShipperNotFound {});
    }
    let chosen_shipper = bids[k].shipper.clone();
    let chosen_key = bids[k].pub_key.clone();
    let chosen_fee = bids[k].price.clone();
    proof {
        assert(is_first_bid(pre.orders[i as int].shipper_bids, shipper@, k as int));
        let q = bid_position(pre.orders[i as int].shipper_bids, shipper@);
        assert(is_first_bid(pre.orders[i as int].shipper_bids, shipper@, q));
        assert(q == k);
    }
    ledger.orders[i].status = OrderStatus::WaitingAddressUpload;
    ledger.orders[i].shipper = Some(chosen_shipper);
    ledger.orders[i].shipper_key = Some(chosen_key);
    ledger.orders[i].shipping_fee = Some(chosen_fee);
    proof {
        let next = choose_bid_apply(pre, id, shipper);
        assert(ledger@.orders[i as int] == ledger.orders@[i as int]@);
        assert(ledger@.orders =~= next.orders);
        lemma_wf_update(pre, pre.goods, i as int, next.orders[i as int]);
    }
    Ok(Response { messages: Vec::new() })
}

/// `UploadAddress` is refused for an unknown order, an order not waiting
/// for addresses, or a caller who is neither its buyer nor its seller.
pub open spec fn upload_address_check(l: LedgerView, sender: String, id: u32) -> Option<
    ContractError,
> {
    if !order_exists(l, id) {
        Some(ContractError::NotFound {})
    } else if l.orders[id as int].status != OrderStatus::WaitingAddressUpload {
        Some(ContractError::OrderNotAvailable {})
    } else if sender@ != l.orders[id as int].buyer@ && sender@ != l.orders[id as int].seller@ {
        Some(ContractError::Unauthorized {})
    } else {
        None
    }
}

/// `UploadAddress` stores the caller's own address (the buyer's field when
/// the caller is the buyer), and moves to `Shipping` once both are non-empty.
pub open spec fn upload_address_apply(l: LedgerView, sender: String, id: u32, address_enc: String) -> LedgerView {
    let o = l.orders[id as int];
    let o1 = if sender@ == o.buyer@ {
        OrderView { buyer_addr_enc: address_enc@, ..o }
    } else {
        OrderView { seller_addr_enc: address_enc@, ..o }
    };
    let o2 = if o1.buyer_addr_enc.len() > 0 && o1.seller_addr_enc.len() > 0 {
        OrderView { status: OrderStatus::Shipping, ..o1 }
    } else {
        o1
    };
    LedgerView { orders: l.orders.update(id as int, o2), ..l }
}

/// The buyer or the seller of order `id` hands in an encrypted address.
pub fn try_upload_address(
    ledger: &mut Ledger,
    info: &MessageInfo,
    id: u32,
    address_enc: String,
) -> (r: Result<Response, ContractError>)
    requires
        old(ledger)@.wf(),
    ensures
        final(ledger)@.wf(),
        performs(
            old(ledger)@,
            final(ledger)@,
            r,
            upload_address_check(old(ledger)@, info.sender, id),
            upload_address_apply(old(ledger)@, info.sender, id, address_enc),
            Seq::empty(),
        ),
{
    let i = id as usize;
    if i >= ledger.orders.len() {
        return Err(ContractError::NotFound {});
    }
    let ghost pre = ledger@;
    assert(ledger@.orders[i as int] == ledger.orders@[i as int]@);
    if ledger.orders[i].status != OrderStatus::WaitingAddressUpload {
        return Err(ContractError::OrderNotAvailable {});
    }
    let is_buyer = ledger.orders[i].buyer == info.sender;
    if !is_buyer && ledger.orders[i].seller != info.sender {
        return Err(ContractError::Unauthorized {});
    }
    if is_buyer {
        ledger.orders[i].buyer_addr_enc = address_enc;
    } else {
        ledger.orders[i].seller_addr_enc = address_enc;
    }
    if !ledger.orders[i].buyer_addr_enc.as_str().is_empty()
        && !ledger.orders[i].seller_addr_enc.as_str().is_empty() {
        ledger.orders[i].status = OrderStatus::Shipping;
    }
    proof {
        let next = upload_address_apply(pre, info.sender, id, address_enc);
        assert(ledger@.orders[i as int] == ledger.orders@[i as int]@);
        assert(ledger@.orders =~= next.orders);
        lemma_wf_update(pre, pre.goods, i as int, next.orders[i as int]);
    }
    Ok(Response { messages: Vec::new() })
}

/// `Confirm`, `DisputeBroken` and `DisputeUnsatisfied` are refused for an
/// unknown order, an order not in `Shipping`, or a caller other than the buyer.
pub open spec fn shipping_buyer_check(l: LedgerView, sender: String, id: u32) -> Option<
    ContractError,
> {
    if !order_exists(l, id) {
        Some(ContractError::NotFound {})
    } else if l.orders[id as int].status != OrderStatus::Shipping {
        Some(ContractError::OrderNotAvailable {})
    } else if sender@ != l.orders[id as int].buyer@ {
        Some(ContractError::Unauthorized {})
    } else {
        None
    }
}

/// Order `id` moves to `status`; nothing else changes.
pub open spec fn set_status_apply(l: LedgerView, id: u32, status: OrderStatus) -> LedgerView {
    LedgerView {
        orders: l.orders.update(id as int, OrderView { status, ..l.orders[id as int] }),
        ..l
    }
}

/// Order `id` ends in `order_status`; its listing ends in `goods_status` and
/// the order keeps a copy of the listing as it now stands.
pub open spec fn finish_apply(
    l: LedgerView,
    id: u32,
    goods_status: GoodsStatus,
    order_status: OrderStatus,
) -> LedgerView {
    let o = l.orders[id as int];
    let p = goods_position(l.goods, o.goods.name@);
    let g = Goods { status: goods_status, ..l.goods[p] };
    LedgerView {
        goods: l.goods.update(p, g),
        orders: l.orders.update(id as int, OrderView { status: order_status, goods: g, ..o }),
        ..l
    }
}

/// Moves order `i` to `order_status` and its listing to `goods_status`.
fn finish_order(ledger: &mut Ledger, i: usize, goods_status: GoodsStatus, order_status: OrderStatus)
    requires
        old(ledger)@.wf(),
        i < old(ledger)@.orders.len(),
        shipper_chosen(old(ledger)@.orders[i as int].status),
        addresses_complete(old(ledger)@.orders[i as int].status),
        shipper_chosen(order_status),
        addresses_complete(order_status),
        goods_status == listing_status_for(order_status),
    ensures
        final(ledger)@.wf(),
        final(ledger)@ == finish_apply(old(ledger)@, i as u32, goods_status, order_status),
{
    let ghost pre = ledger@;
    assert(ledger@.orders[i as int] == ledger.orders@[i as int]@);
    assert(has_goods(pre.goods, pre.orders[i as int].goods.name@));
    let p = match find_goods(&ledger.goods, &ledger.orders[i].goods.name) {
        Some(p) => p,
        // every order names a listing of a well-formed ledger
        None => {
            return;
        },
    };
    ledger.goods[p].status = goods_status;
    let good = ledger.goods[p].clone();
    ledger.orders[i].status = order_status;
    ledger.orders[i].goods = good;
    proof {
        let next = finish_apply(pre, i as u32, goods_status, order_status);
        assert(ledger@.orders[i as int] == ledger.orders@[i as int]@);
        assert(ledger@.goods =~= next.goods);
        assert(ledger@.orders =~= next.orders);
        lemma_position(pre.goods, p as int);
        lemma_wf_update(pre, next.goods, i as int, next.orders[i as int]);
    }
}

/// The buyer confirms delivery: the listing is sold, the seller is paid the
/// price and the shipper the fee.
pub fn try_confirm(ledger: &mut Ledger, info: &MessageInfo, id: u32) -> (r: Result<
    Response,
    ContractError,
>)
    requires
        old(ledger)@.wf(),
    ensures
        final(ledger)@.wf(),
        performs(
            old(ledger)@,
            final(ledger)@,
            r,
            shipping_buyer_check(old(ledger)@, info.sender, id),
            finish_apply(old(ledger)@, id, GoodsStatus::Sold, OrderStatus::Confirmed),
            confirm_payouts(old(ledger)@.orders[id as int]),
        ),
{
    let i = id as usize;
    if i >= ledger.orders.len() {
        return Err(ContractError::NotFound {});
    }
    assert(ledger@.orders[i as int] == ledger.orders@[i as int]@);
    if ledger.orders[i].status != OrderStatus::Shipping {
        return Err(ContractError::OrderNotAvailable {});
    }
    if ledger.orders[i].buyer != info.sender {
        return Err(ContractError::Unauthorized {});
    }
    let messages = confirm_settlement(&ledger.orders[i]);
    finish_order(ledger, i, GoodsStatus::Sold, OrderStatus::Confirmed);
    Ok(Response { messages })
}

/// Changes order `i` to `status`.
fn set_order_status(ledger: &mut Ledger, i: usize, status: OrderStatus)
    requires
        old(ledger)@.wf(),
        i < old(ledger)@.orders.len(),
        shipper_chosen(old(ledger)@.orders[i as int].status),
        addresses_complete(old(ledger)@.orders[i as int].status),
        shipper_chosen(status),
        addresses_complete(status),
        listing_status_for(status) == listing_status_for(old(ledger)@.orders[i as int].status),
    ensures
        final(ledger)@.wf(),
        final(ledger)@ == set_status_apply(old(ledger)@, i as u32, status),
{
    let ghost pre = ledger@;
    ledger.orders[i].status = status;
    proof {
        assert(pre.orders[i as int].id == i);
        let next = set_status_apply(pre, i as u32, status);
        assert(ledger@.orders[i as int] == ledger.orders@[i as int]@);
        assert(ledger@.orders =~= next.orders);
        lemma_wf_update(pre, pre.goods, i as int, next.orders[i as int]);
    }
}

/// The buyer reports that the goods arrived broken.
pub fn try_dispute_broken(ledger: &mut Ledger, info: &MessageInfo, id: u32) -> (r: Result<
    Response,
    ContractError,
>)
    requires
        old(ledger)@.wf(),
    ensures
        final(ledger)@.wf(),
        performs(
            old(ledger)@,
            final(ledger)@,
            r,
            shipping_buyer_check(old(ledger)@, info.sender, id),
            set_status_apply(old(ledger)@, id, OrderStatus::DisputingBroken),
            Seq::empty(),
        ),
{
    let i = id as usize;
    if i >= ledger.orders.len() {
        return Err(ContractError::NotFound {});
    }
    assert(ledger@.orders[i as int] == ledger.orders@[i as int]@);
    if ledger.orders[i].status != OrderStatus::Shipping {
        return Err(ContractError::OrderNotAvailable {});
    }
    if ledger.orders[i].buyer != info.sender {
        return Err(ContractError::Unauthorized {});
    }
    set_order_status(ledger, i, OrderStatus::DisputingBroken);
    Ok(Response { messages: Vec::new() })
}

/// The buyer reports being unsatisfied with the goods.
pub fn try_dispute_unsatisfied(ledger: &mut Ledger, info: &MessageInfo, id: u32) -> (r: Result<
    Response,
    ContractError,
>)
    requires
        old(ledger)@.wf(),
    ensures
        final(ledger)@.wf(),
        performs(
            old(ledger)@,
            final(ledger)@,
            r,
            shipping_buyer_check(old(ledger)@, info.sender, id),
            set_status_apply(old(ledger)@, id, OrderStatus::DisputingUnsatisfied),
            Seq::empty(),
        ),
{
    let i = id as usize;
    if i >= ledger.orders.len() {
        return Err(ContractError::NotFound {});
    }
    assert(ledger@.orders[i as int] == ledger.orders@[i as int]@);
    if ledger.orders[i].status != OrderStatus::Shipping {
        return Err(ContractError::OrderNotAvailable {});
    }
    if ledger.orders[i].buyer != info.sender {
        return Err(ContractError::Unauthorized {});
    }
    set_order_status(ledger, i, OrderStatus::DisputingUnsatisfied);
    Ok(Response { messages: Vec::new() })
}

/// `DisputeConfirm` is refused for an unknown order, an order not in
/// dispute, a caller other than the seller, or payouts that do not fit.
pub open spec fn dispute_confirm_check(l: LedgerView, sender: String, id: u32) -> Option<
    ContractError,
> {
    if !order_exists(l, id) {
        Some(ContractError::NotFound {})
    } else if !(l.orders[id as int].status == OrderStatus::DisputingBroken || l.orders[id as int].status
        == OrderStatus::DisputingUnsatisfied) {
        Some(ContractError::OrderNotAvailable {})
    } else if sender@ != l.orders[id as int].seller@ {
        Some(ContractError::Unauthorized {})
    } else if !dispute_payouts_fit(l.orders[id as int]) {
        Some(ContractError::Overflow {})
    } else {
        None
    }
}

/// The seller accepts the dispute: the listing is returned and the escrow
/// is paid out as the kind of dispute decides.
pub fn try_dispute_confirm(ledger: &mut Ledger, info: &MessageInfo, id: u32) -> (r: Result<
    Response,
    ContractError,
>)
    requires
        old(ledger)@.wf(),
    ensures
        final(ledger)@.wf(),
        performs(
            old(ledger)@,
            final(ledger)@,
            r,
            dispute_confirm_check(old(ledger)@, info.sender, id),
            finish_apply(old(ledger)@, id, GoodsStatus::Returned, OrderStatus::Disputed),
            dispute_payouts(old(ledger)@.orders[id as int]),
        ),
{
    let i = id as usize;
    if i >= ledger.orders.len() {
        return Err(ContractError::NotFound {});
    }
    assert(ledger@.orders[i as int] == ledger.orders@[i as int]@);
    if ledger.orders[i].status != OrderStatus::DisputingBroken && ledger.orders[i].status
        != OrderStatus::DisputingUnsatisfied {
        return Err(ContractError::OrderNotAvailable {});
    }
    if ledger.orders[i].seller != info.sender {
        return Err(ContractError::Unauthorized {});
    }
    let messages = match dispute_settlement(&ledger.orders[i]) {
        Ok(m) => m,
        Err(e) => {
            return Err(e);
        },
    };
    finish_order(ledger, i, GoodsStatus::Returned, OrderStatus::Disputed);
    Ok(Response { messages })
}

/// Fee for a delivery within one area.
pub const SAME_AREA_FEE: u128 = 5;

/// Fee for a delivery from one area to another.
pub const CROSS_AREA_FEE: u128 = 10;

/// The areas that the fee schedule serves, in schedule order.
pub open spec fn known_areas() -> Seq<Seq<char>> {
    seq!["Montreal"@, "Ottawa"@, "Toronto"@]
}

/// Where the fee from area `a` to area `b` stands in the schedule.
pub open spec fn slot(a: int, b: int) -> int {
    3 * a + b
}

/// `f` is the schedule's entry from the `a`-th to the `b`-th known area.
pub open spec fn schedule_entry(f: ShippingFee, a: int, b: int) -> bool {
    &&& f.origin@ == known_areas()[a]
    &&& f.destination@ == known_areas()[b]
    &&& f.fee.denom@ == "LUNA"@
    &&& f.fee.amount == if a == b {
        SAME_AREA_FEE
    } else {
        CROSS_AREA_FEE
    }
}

/// Sets up an empty marketplace owned by the caller, with a fee for every
/// ordered pair of known areas.
pub fn instantiate(info: &MessageInfo, _msg: InstantiateMsg) -> (r: (Ledger, Response))
    ensures
        r.0@.wf(),
        r.0.state.order_cnt == 0,
        r.0.state.owner == info.sender,
        r.0@.goods.len() == 0,
        r.0@.orders.len() == 0,
        r.0@.shipping_fees.len() == 9,
        forall|a: int, b: int|
            0 <= a < 3 && 0 <= b < 3 ==> schedule_entry(
                #[trigger] r.0@.shipping_fees[slot(a, b)],
                a,
                b,
            ),
        r.1.messages@.len() == 0,
{
    let cities: Vec<String> = vec!["Montreal".to_owned(), "Ottawa".to_owned(), "Toronto".to_owned()];
    let mut fees: Vec<ShippingFee> = Vec::new();
    let mut a: usize = 0;
    while a < cities.len()
        invariant
            cities@.len() == 3,
            forall|k: int| 0 <= k < 3 ==> (#[trigger] cities@[k])@ == known_areas()[k],
            a <= 3,
            fees@.len() == 3 * a,
            forall|x: int, y: int|
                0 <= x < a && 0 <= y < 3 ==> schedule_entry(#[trigger] fees@[slot(x, y)], x, y),
        decreases 3 - a,
    {
        let mut b: usize = 0;
        while b < cities.len()
            invariant
                cities@.len() == 3,
                forall|k: int| 0 <= k < 3 ==> (#[trigger] cities@[k])@ == known_areas()[k],
                a < 3,
                b <= 3,
                fees@.len() == 3 * a + b,
                forall|x: int, y: int|
                    0 <= x < 3 && 0 <= y < 3 && (x < a || (x == a && y < b)) ==> schedule_entry(
                        #[trigger] fees@[slot(x, y)],
                        x,
                        y,
                    ),
            decreases 3 - b,
        {
            let amount: u128 = if a == b {
                SAME_AREA_FEE
            } else {
                CROSS_AREA_FEE
            };
            let entry = ShippingFee {
                origin: cities[a].clone(),
                destination: cities[b].clone(),
                fee: Coin { denom: "LUNA".to_owned(), amount },
            };
            proof {
                assert(cities@[a as int]@ == known_areas()[a as int]);
                assert(cities@[b as int]@ == known_areas()[b as int]);
            }
            fees.push(entry);
            assert(fees@[slot(a as int, b as int)] == entry);
            b = b + 1;
        }
        a = a + 1;
    }
    let r = Ledger {
        state: State { order_cnt: 0, owner: info.sender.clone() },
        goods: Vec::new(),
        orders: Vec::new(),
        shipping_fees: fees,
    };
    assert(r@.orders =~= Seq::<OrderView>::empty());
    (r, Response { messages: Vec::new() })
}

/// `k` is the first schedule entry from `origin` to `destination`.
pub open spec fn is_route(fees: Seq<ShippingFee>, origin: Seq<char>, destination: Seq<char>, k: int) -> bool {
    &&& 0 <= k < fees.len()
    &&& fees[k].origin@ == origin
    &&& fees[k].destination@ == destination
    &&& forall|j: int|
        0 <= j < k ==> !((#[trigger] fees[j]).origin@ == origin && fees[j].destination@
            == destination)
}

/// The schedule has an entry from `origin` to `destination`.
pub open spec fn has_route(fees: Seq<ShippingFee>, origin: Seq<char>, destination: Seq<char>) -> bool {
    exists|k: int|
        0 <= k < fees.len() && (#[trigger] fees[k]).origin@ == origin && fees[k].destination@
            == destination
}

/// The fee that the schedule quotes for a delivery from `origin` to `destination`.
pub fn quote(ledger: &Ledger, origin: &String, destination: &String) -> (r: Result<
    Coin,
    ContractError,
>)
    ensures
        match r {
            Ok(c) => exists|k: int|
                is_route(ledger@.shipping_fees, origin@, destination@, k) && c
                    == ledger@.shipping_fees[k].fee,
            Err(e) => e == ContractError::NoRoute {} && !has_route(
                ledger@.shipping_fees,
                origin@,
                destination@,
            ),
        },
{
    let fees = &ledger.shipping_fees;
    let mut k: usize = 0;
    while k < fees.len()
        invariant
            k <= fees@.len(),
            fees@ == ledger@.shipping_fees,
            forall|j: int|
                0 <= j < k ==> !((#[trigger] fees@[j]).origin@ == origin@ && fees@[j].destination@
                    == destination@),
        decreases fees@.len() - k,
    {
        if fees[k].origin == *origin && fees[k].destination == *destination {
            let c = fees[k].fee.clone();
            assert(is_route(ledger@.shipping_fees, origin@, destination@, k as int) && c
                == ledger@.shipping_fees[k as int].fee);
            return Ok(c);
        }
        k = k + 1;
    }
    Err(ContractError::NoRoute {})
}

/// Every listing, in catalog order.
pub fn query_goods(ledger: &Ledger) -> (r: GoodsResponse)
    ensures
        r.goods@ == ledger@.goods,
{
    let mut goods: Vec<Goods> = Vec::new();
    let mut i: usize = 0;
    while i < ledger.goods.len()
        invariant
            i <= ledger.goods@.len(),
            goods@ == ledger.goods@.subrange(0, i as int),
        decreases ledger.goods@.len() - i,
    {
        goods.push(ledger.goods[i].clone());
        i = i + 1;
        assert(goods@ =~= ledger.goods@.subrange(0, i as int));
    }
    assert(goods@ =~= ledger.goods@);
    GoodsResponse { goods }
}

/// Every order, by id.
pub fn query_orders(ledger: &Ledger) -> (r: OrdersResponse)
    ensures
        view_orders(r.orders@) == ledger@.orders,
{
    let mut orders: Vec<Order> = Vec::new();
    let mut i: usize = 0;
    while i < ledger.orders.len()
        invariant
            i <= ledger.orders@.len(),
            orders@.len() == i,
            forall|j: int| 0 <= j < i ==> (#[trigger] orders@[j])@ == ledger.orders@[j]@,
        decreases ledger.orders@.len() - i,
    {
        orders.push(ledger.orders[i].clone());
        i = i + 1;
    }
    assert(view_orders(orders@) =~= ledger@.orders);
    OrdersResponse { orders }
}

/// The fee of each schedule entry, in schedule order.
pub fn query_shipping_fees(ledger: &Ledger) -> (r: ShippingFeesResponse)
    ensures
        r.shipping_fees@ == ledger@.shipping_fees.map_values(|f: ShippingFee| f.fee),
{
    let mut fees: Vec<Coin> = Vec::new();
    let mut i: usize = 0;
    while i < ledger.shipping_fees.len()
        invariant
            i <= ledger.shipping_fees@.len(),
            fees@ == ledger.shipping_fees@.subrange(0, i as int).map_values(|f: ShippingFee| f.fee),
        decreases ledger.shipping_fees@.len() - i,
    {
        fees.push(ledger.shipping_fees[i].fee.clone());
        i = i + 1;
        assert(fees@ =~= ledger.shipping_fees@.subrange(0, i as int).map_values(
            |f: ShippingFee| f.fee,
        ));
    }
    assert(ledger.shipping_fees@.subrange(0, i as int) =~= ledger.shipping_fees@);
    ShippingFeesResponse { shipping_fees: fees }
}

/// The order `id`.
pub fn query_order_detail(ledger: &Ledger, id: u32) -> (r: Result<OrderDetailResponse, ContractError>)
    ensures
        order_exists(ledger@, id) ==> (r matches Ok(d) && d.order@ == ledger@.orders[id as int]),
        !order_exists(ledger@, id) ==> r matches Err(ContractError::NotFound {}),
{
    let i = id as usize;
    if i >= ledger.orders.len() {
        return Err(ContractError::NotFound {});
    }
    assert(ledger@.orders[i as int] == ledger.orders@[i as int]@);
    Ok(OrderDetailResponse { order: ledger.orders[i].clone() })
}

/// The two encrypted addresses of order `id`.
pub fn query_address(ledger: &Ledger, id: u32) -> (r: Result<AddressesResponse, ContractError>)
    ensures
        order_exists(ledger@, id) ==> (r matches Ok(a) && a.buyer@
            == ledger@.orders[id as int].buyer_addr_enc && a.seller@
            == ledger@.orders[id as int].seller_addr_enc),
        !order_exists(ledger@, id) ==> r matches Err(ContractError::NotFound {}),
{
    let i = id as usize;
    if i >= ledger.orders.len() {
        return Err(ContractError::NotFound {});
    }
    assert(ledger@.orders[i as int] == ledger.orders@[i as int]@);
    Ok(
        AddressesResponse {
            buyer: ledger.orders[i].buyer_addr_enc.clone(),
            seller: ledger.orders[i].seller_addr_enc.clone(),
        },
    )
}

/// How `execute` ends for `msg`: as `performs` says, with the check,
/// next ledger and payouts of the action that `msg` names.
pub open spec fn executes(
    pre: LedgerView,
    post: LedgerView,
    info: MessageInfo,
    msg: ExecuteMsg,
    r: Result<Response, ContractError>,
) -> bool {
    let sender = info.sender;
    match msg {
        ExecuteMsg::Post { name, price, denom, seller_area } => performs(
            pre,
            post,
            r,
            post_check(pre, name),
            post_apply(pre, sender, name, price, denom, seller_area),
            Seq::empty(),
        ),
        ExecuteMsg::Buy { name, buyer_area } => performs(
            pre,
            post,
            r,
            buy_check(pre, info, name),
            buy_apply(pre, info, name, buyer_area),
            Seq::empty(),
        ),
        ExecuteMsg::Reset { name, price } => performs(
            pre,
            post,
            r,
            reset_check(pre, sender, name),
            reset_apply(pre, name, price),
            Seq::empty(),
        ),
        ExecuteMsg::TakeOrder { id, pub_key, price } => performs(
            pre,
            post,
            r,
            take_order_check(pre, info, id),
            take_order_apply(pre, info, id, pub_key, price),
            Seq::empty(),
        ),
        ExecuteMsg::ChooseBid { id, shipper } => performs(
            pre,
            post,
            r,
            choose_bid_check(pre, sender, id, shipper),
            choose_bid_apply(pre, id, shipper),
            Seq::empty(),
        ),
        ExecuteMsg::UploadAddress { id, address_enc } => performs(
            pre,
            post,
            r,
            upload_address_check(pre, sender, id),
            upload_address_apply(pre, sender, id, address_enc),
            Seq::empty(),
        ),
        ExecuteMsg::Confirm { id } => performs(
            pre,
            post,
            r,
            shipping_buyer_check(pre, sender, id),
            finish_apply(pre, id, GoodsStatus::Sold, OrderStatus::Confirmed),
            confirm_payouts(pre.orders[id as int]),
        ),
        ExecuteMsg::DisputeBroken { id } => performs(
            pre,
            post,
            r,
            shipping_buyer_check(pre, sender, id),
            set_status_apply(pre, id, OrderStatus::DisputingBroken),
            Seq::empty(),
        ),
        ExecuteMsg::DisputeUnsatisfied { id } => performs(
            pre,
            post,
            r,
            shipping_buyer_check(pre, sender, id),
            set_status_apply(pre, id, OrderStatus::DisputingUnsatisfied),
            Seq::empty(),
        ),
        ExecuteMsg::DisputeConfirm { id } => performs(
            pre,
            post,
            r,
            dispute_confirm_check(pre, sender, id),
            finish_apply(pre, id, GoodsStatus::Returned, OrderStatus::Disputed),
            dispute_payouts(pre.orders[id as int]),
        ),
    }
}

/// Performs one action, as the function for its kind does.
pub fn execute(ledger: &mut Ledger, info: &MessageInfo, msg: ExecuteMsg) -> (r: Result<
    Response,
    ContractError,
>)
    requires
        old(ledger)@.wf(),
    ensures
        final(ledger)@.wf(),
        executes(old(ledger)@, final(ledger)@, *info, msg, r),
{
    match msg {
        ExecuteMsg::Post { name, price, denom, seller_area } => try_post(
            ledger,
            info,
            name,
            price,
            denom,
            seller_area,
        ),
        ExecuteMsg::Buy { name, buyer_area } => try_buy(ledger, info, name, buyer_area),
        ExecuteMsg::Reset { name, price } => try_reset(ledger, info, name, price),
        ExecuteMsg::TakeOrder { id, pub_key, price } => try_take_order(
            ledger,
            info,
            id,
            pub_key,
            price,
        ),
        ExecuteMsg::ChooseBid { id, shipper } => try_choose_bid(ledger, info, id, shipper),
        ExecuteMsg::UploadAddress { id, address_enc } => try_upload_address(
            ledger,
            info,
            id,
            address_enc,
        ),
        ExecuteMsg::Confirm { id } => try_confirm(ledger, info, id),
        ExecuteMsg::DisputeBroken { id } => try_dispute_broken(ledger, info, id),
        ExecuteMsg::DisputeUnsatisfied { id } => try_dispute_unsatisfied(ledger, info, id),
        ExecuteMsg::DisputeConfirm { id } => try_dispute_confirm(ledger, info, id),
    }
}

/// Whether `o` is consistent with its status.
pub fn order_is_consistent(o: &Order) -> (r: bool)
    ensures
        r == o@.wf(),
{
    let s = o.status;
    let chosen = !(s == OrderStatus::Setup || s == OrderStatus::Bidding);
    let complete = s == OrderStatus::Shipping || s == OrderStatus::Confirmed || s
        == OrderStatus::DisputingBroken || s == OrderStatus::DisputingUnsatisfied || s
        == OrderStatus::Disputed;
    let buyer_empty = o.buyer_addr_enc.as_str().is_empty();
    let seller_empty = o.seller_addr_enc.as_str().is_empty();
    (s == OrderStatus::Setup) == o.shipper_bids.is_empty() && chosen == o.shipper.is_some() && chosen
        == o.shipper_key.is_some() && chosen == o.shipping_fee.is_some() && (chosen || (buyer_empty
        && seller_empty)) && (s != OrderStatus::WaitingAddressUpload || buyer_empty || seller_empty)
        && (!complete || (!buyer_empty && !seller_empty))
}

/// Whether no two listings share a name.
fn goods_names_unique(goods: &Vec<Goods>) -> (r: bool)
    ensures
        r == names_unique(goods@),
{
    let n = goods.len();
    let mut i: usize = 0;
    while i < n
        invariant
            n == goods@.len(),
            i <= n,
            forall|a: int, b: int|
                0 <= a < i && 0 <= b < n && a != b ==> (#[trigger] goods@[a]).name@ != (
                #[trigger] goods@[b]).name@,
        decreases n - i,
    {
        let mut j: usize = 0;
        while j < n
            invariant
                n == goods@.len(),
                i < n,
                j <= n,
                forall|a: int, b: int|
                    0 <= a < i && 0 <= b < n && a != b ==> (#[trigger] goods@[a]).name@ != (
                    #[trigger] goods@[b]).name@,
                forall|b: int| 0 <= b < j && b != i ==> goods@[i as int].name@ != (
                #[trigger] goods@[b]).name@,
            decreases n - j,
        {
            if j != i && goods[i].name == goods[j].name {
                assert(goods@[i as int].name@ == goods@[j as int].name@);
                return false;
            }
            j = j + 1;
        }
        i = i + 1;
    }
    true
}

/// The status that the listing of an order in status `s` must have.
fn expected_listing_status(s: OrderStatus) -> (r: GoodsStatus)
    ensures
        r == listing_status_for(s),
{
    match s {
        OrderStatus::Confirmed => GoodsStatus::Sold,
        OrderStatus::Disputed => GoodsStatus::Returned,
        _ => GoodsStatus::Ordered,
    }
}

/// Whether no two orders are for the same listing.
fn orders_for_distinct_listings(ledger: &Ledger) -> (r: bool)
    ensures
        r == one_order_per_listing(ledger@.orders),
{
    let n = ledger.orders.len();
    let mut i: usize = 0;
    while i < n
        invariant
            n == ledger@.orders.len(),
            i <= n,
            forall|a: int, b: int|
                0 <= a < i && 0 <= b < n && a != b ==> (#[trigger] ledger@.orders[a]).goods.name@
                    != (#[trigger] ledger@.orders[b]).goods.name@,
        decreases n - i,
    {
        let mut j: usize = 0;
        while j < n
            invariant
                n == ledger@.orders.len(),
                i < n,
                j <= n,
                forall|a: int, b: int|
                    0 <= a < i && 0 <= b < n && a != b ==> (#[trigger] ledger@.orders[a]).goods.name@
                        != (#[trigger] ledger@.orders[b]).goods.name@,
                forall|b: int|
                    0 <= b < j && b != i ==> ledger@.orders[i as int].goods.name@ != (
                    #[trigger] ledger@.orders[b]).goods.name@,
            decreases n - j,
        {
            assert(ledger@.orders[i as int] == ledger.orders@[i as int]@);
            assert(ledger@.orders[j as int] == ledger.orders@[j as int]@);
            if j != i && ledger.orders[i].goods.name == ledger.orders[j].goods.name {
                return false;
            }
            j = j + 1;
        }
        i = i + 1;
    }
    true
}

/// Whether the ledger is well formed; a ledger read back from storage is
/// checked with this before any action.
pub fn is_well_formed(ledger: &Ledger) -> (r: bool)
    ensures
        r == ledger@.wf(),
{
    if !goods_names_unique(&ledger.goods) {
        return false;
    }
    if ledger.state.order_cnt as usize != ledger.orders.len() {
        return false;
    }
    if !orders_for_distinct_listings(ledger) {
        return false;
    }
    let mut i: usize = 0;
    while i < ledger.orders.len()
        invariant
            i <= ledger@.orders.len(),
            names_unique(ledger@.goods),
            ledger@.state.order_cnt as int == ledger@.orders.len(),
            one_order_per_listing(ledger@.orders),
            forall|k: int|
                0 <= k < i ==> {
                    &&& (#[trigger] ledger@.orders[k]).id as int == k
                    &&& ledger@.orders[k].wf()
                    &&& has_goods(ledger@.goods, ledger@.orders[k].goods.name@)
                    &&& ledger@.goods[goods_position(
                        ledger@.goods,
                        ledger@.orders[k].goods.name@,
                    )].status == listing_status_for(ledger@.orders[k].status)
                },
        decreases ledger@.orders.len() - i,
    {
        let o = &ledger.orders[i];
        assert(ledger@.orders[i as int] == o@);
        if o.id as usize != i || !order_is_consistent(o) {
            return false;
        }
        let p = match find_goods(&ledger.goods, &o.goods.name) {
            Some(p) => p,
            None => {
                return false;
            },
        };
        if ledger.goods[p].status != expected_listing_status(o.status) {
            return false;
        }
        i = i + 1;
    }
    true
}

} // verus!
