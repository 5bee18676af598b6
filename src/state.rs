use vstd::prelude::*;

verus! {

/// An amount of one currency denomination.
#[derive(Debug, PartialEq, Eq)]
pub struct Coin {
    pub denom: String,
    pub amount: u128,
}

impl Clone for Coin {
    fn clone(&self) -> (r: Self)
        ensures
            r == *self,
    {
        Coin { denom: self.denom.clone(), amount: self.amount }
    }
}

/// Builds a coin of `amount` units of `denom`.
pub fn coin(amount: u128, denom: String) -> (r: Coin)
    ensures
        r == (Coin { denom, amount }),
{
    Coin { denom, amount }
}

#[derive(Clone, Copy, Debug, PartialEq, Eq, Structural)]
pub enum GoodsStatus {
    Available,
    Ordered,
    Sold,
    Returned,
}

#[derive(Clone, Copy, Debug, PartialEq, Eq, Structural)]
pub enum OrderStatus {
    Setup,
    Bidding,
    WaitingAddressUpload,
    Shipping,
    Confirmed,
    DisputingBroken,
    DisputingUnsatisfied,
    Disputed,
}

/// A listed item; its name is the catalog key.
#[derive(Debug, PartialEq, Eq)]
pub struct Goods {
    pub name: String,
    pub seller: String,
    pub price: Coin,
    pub seller_area: String,
    pub status: GoodsStatus,
}

impl Clone for Goods {
    fn clone(&self) -> (r: Self)
        ensures
            r == *self,
    {
        Goods {
            name: self.name.clone(),
            seller: self.seller.clone(),
            price: self.price.clone(),
            seller_area: self.seller_area.clone(),
            status: self.status,
        }
    }
}

/// A shipper's offer to deliver an order.
#[derive(Debug, PartialEq, Eq)]
pub struct ShipperBid {
    pub shipper: String,
    pub pub_key: String,
    pub price: Coin,
}

impl Clone for ShipperBid {
    fn clone(&self) -> (r: Self)
        ensures
            r == *self,
    {
        ShipperBid {
            shipper: self.shipper.clone(),
            pub_key: self.pub_key.clone(),
            price: self.price.clone(),
        }
    }
}

/// A purchase, from payment until settlement.
///
/// `shipper`, `shipper_key` and `shipping_fee` stay unset until the buyer
/// picks a bid.
#[derive(Debug)]
pub struct Order {
    pub id: u32,
    pub buyer: String,
    pub seller: String,
    pub goods: Goods,
    pub price: Coin,
    pub buyer_area: String,
    pub shipper_bids: Vec<ShipperBid>,
    pub shipping_fee: Option<Coin>,
    pub shipper: Option<String>,
    pub shipper_key: Option<String>,
    pub buyer_addr_enc: String,
    pub seller_addr_enc: String,
    pub status: OrderStatus,
}

/// The mathematical value of an `Order`: its bids as a sequence, its
/// encrypted addresses as character sequences.
pub struct OrderView {
    pub id: u32,
    pub buyer: String,
    pub seller: String,
    pub goods: Goods,
    pub price: Coin,
    pub buyer_area: String,
    pub shipper_bids: Seq<ShipperBid>,
    pub shipping_fee: Option<Coin>,
    pub shipper: Option<String>,
    pub shipper_key: Option<String>,
    pub buyer_addr_enc: Seq<char>,
    pub seller_addr_enc: Seq<char>,
    pub status: OrderStatus,
}

impl View for Order {
    type V = OrderView;

    open spec fn view(&self) -> OrderView {
        OrderView {
            id: self.id,
            buyer: self.buyer,
            seller: self.seller,
            goods: self.goods,
            price: self.price,
            buyer_area: self.buyer_area,
            shipper_bids: self.shipper_bids@,
            shipping_fee: self.shipping_fee,
            shipper: self.shipper,
            shipper_key: self.shipper_key,
            buyer_addr_enc: self.buyer_addr_enc@,
            seller_addr_enc: self.seller_addr_enc@,
            status: self.status,
        }
    }
}

/// Copies an optional string.
fn clone_opt_string(s: &Option<String>) -> (r: Option<String>)
    ensures
        r == *s,
{
    match s {
        Some(x) => Some(x.clone()),
        None => None,
    }
}

/// Copies an optional coin.
fn clone_opt_coin(c: &Option<Coin>) -> (r: Option<Coin>)
    ensures
        r == *c,
{
    match c {
        Some(x) => Some(x.clone()),
        None => None,
    }
}

impl Clone for Order {
    fn clone(&self) -> (r: Self)
        ensures
            r@ == self@,
    {
        let mut bids: Vec<ShipperBid> = Vec::new();
        let mut i: usize = 0;
        while i < self.shipper_bids.len()
            invariant
                i <= self.shipper_bids@.len(),
                bids@ == self.shipper_bids@.subrange(0, i as int),
            decreases self.shipper_bids@.len() - i,
        {
            bids.push(self.shipper_bids[i].clone());
            i = i + 1;
            assert(bids@ =~= self.shipper_bids@.subrange(0, i as int));
        }
        assert(bids@ =~= self.shipper_bids@);
        Order {
            id: self.id,
            buyer: self.buyer.clone(),
            seller: self.seller.clone(),
            goods: self.goods.clone(),
            price: self.price.clone(),
            buyer_area: self.buyer_area.clone(),
            shipper_bids: bids,
            shipping_fee: clone_opt_coin(&self.shipping_fee),
            shipper: clone_opt_string(&self.shipper),
            shipper_key: clone_opt_string(&self.shipper_key),
            buyer_addr_enc: self.buyer_addr_enc.clone(),
            seller_addr_enc: self.seller_addr_enc.clone(),
            status: self.status,
        }
    }
}

/// Whether a shipper has been chosen once an order is in `s`.
pub open spec fn shipper_chosen(s: OrderStatus) -> bool {
    !(s == OrderStatus::Setup || s == OrderStatus::Bidding)
}

/// Whether both delivery addresses are on file once an order is in `s`.
pub open spec fn addresses_complete(s: OrderStatus) -> bool {
    s == OrderStatus::Shipping || s == OrderStatus::Confirmed || s == OrderStatus::DisputingBroken
        || s == OrderStatus::DisputingUnsatisfied || s == OrderStatus::Disputed
}

impl OrderView {
    /// The order's fields agree with its status.
    pub open spec fn wf(self) -> bool {
        &&& (self.status == OrderStatus::Setup <==> self.shipper_bids.len() == 0)
        &&& (shipper_chosen(self.status) <==> self.shipper is Some)
        &&& (shipper_chosen(self.status) <==> self.shipper_key is Some)
        &&& (shipper_chosen(self.status) <==> self.shipping_fee is Some)
        &&& (!shipper_chosen(self.status) ==> self.buyer_addr_enc.len() == 0
            && self.seller_addr_enc.len() == 0)
        &&& (self.status == OrderStatus::WaitingAddressUpload ==> self.buyer_addr_enc.len() == 0
            || self.seller_addr_enc.len() == 0)
        &&& (addresses_complete(self.status) ==> self.buyer_addr_enc.len() > 0
            && self.seller_addr_enc.len() > 0)
    }
}

/// Process-wide bookkeeping: the next order id and the ledger's owner.
#[derive(Debug, PartialEq, Eq)]
pub struct State {
    pub order_cnt: u32,
    pub owner: String,
}

impl Clone for State {
    fn clone(&self) -> (r: Self)
        ensures
            r == *self,
    {
        State { order_cnt: self.order_cnt, owner: self.owner.clone() }
    }
}

/// One entry of the shipping fee schedule.
#[derive(Debug, PartialEq, Eq)]
pub struct ShippingFee {
    pub origin: String,
    pub destination: String,
    pub fee: Coin,
}

impl Clone for ShippingFee {
    fn clone(&self) -> (r: Self)
        ensures
            r == *self,
    {
        ShippingFee {
            origin: self.origin.clone(),
            destination: self.destination.clone(),
            fee: self.fee.clone(),
        }
    }
}

/// The whole marketplace: catalog, orders, fee schedule and counter.
#[derive(Debug)]
pub struct Ledger {
    pub state: State,
    pub goods: Vec<Goods>,
    pub orders: Vec<Order>,
    pub shipping_fees: Vec<ShippingFee>,
}

pub struct LedgerView {
    pub state: State,
    pub goods: Seq<Goods>,
    pub orders: Seq<OrderView>,
    pub shipping_fees: Seq<ShippingFee>,
}

pub open spec fn view_orders(orders: Seq<Order>) -> Seq<OrderView> {
    orders.map_values(|o: Order| o@)
}

impl View for Ledger {
    type V = LedgerView;

    open spec fn view(&self) -> LedgerView {
        LedgerView {
            state: self.state,
            goods: self.goods@,
            orders: view_orders(self.orders@),
            shipping_fees: self.shipping_fees@,
        }
    }
}

/// Some listing of `goods` is named `name`.
pub open spec fn has_goods(goods: Seq<Goods>, name: Seq<char>) -> bool {
    exists|i: int| 0 <= i < goods.len() && #[trigger] goods[i].name@ == name
}

/// No two listings share a name.
pub open spec fn names_unique(goods: Seq<Goods>) -> bool {
    forall|i: int, j: int|
        0 <= i < goods.len() && 0 <= j < goods.len() && #[trigger] goods[i].name@
            == #[trigger] goods[j].name@ ==> i == j
}

/// Where the listing named `name` stands in `goods`, or -1.
pub open spec fn goods_position(goods: Seq<Goods>, name: Seq<char>) -> int {
    if has_goods(goods, name) {
        choose|i: int| 0 <= i < goods.len() && #[trigger] goods[i].name@ == name
    } else {
        -1
    }
}

/// The status that the listing of an order in status `s` has: sold once
/// the order is confirmed, returned once a dispute is settled, and reserved
/// before that.
pub open spec fn listing_status_for(s: OrderStatus) -> GoodsStatus {
    match s {
        OrderStatus::Confirmed => GoodsStatus::Sold,
        OrderStatus::Disputed => GoodsStatus::Returned,
        _ => GoodsStatus::Ordered,
    }
}

/// No two orders are for the same listing.
pub open spec fn one_order_per_listing(orders: Seq<OrderView>) -> bool {
    forall|i: int, j: int|
        0 <= i < orders.len() && 0 <= j < orders.len() && #[trigger] orders[i].goods.name@
            == #[trigger] orders[j].goods.name@ ==> i == j
}

impl LedgerView {
    /// Listing names are unique, order `i` has id `i`, the counter is the
    /// number of orders, each order is consistent and names a listing whose
    /// status follows the order's, and no listing has two orders.
    pub open spec fn wf(self) -> bool {
        &&& names_unique(self.goods)
        &&& self.state.order_cnt as int == self.orders.len()
        &&& one_order_per_listing(self.orders)
        &&& forall|i: int|
            0 <= i < self.orders.len() ==> {
                &&& (#[trigger] self.orders[i]).id as int == i
                &&& self.orders[i].wf()
                &&& has_goods(self.goods, self.orders[i].goods.name@)
                &&& self.goods[goods_position(self.goods, self.orders[i].goods.name@)].status
                    == listing_status_for(self.orders[i].status)
            }
    }
}

} // verus!
