use vstd::prelude::*;

use crate::state::{Coin, Goods, Order};

verus! {

/// Who called, and what funds came with the call.
#[derive(Debug)]
pub struct MessageInfo {
    pub sender: String,
    pub funds: Vec<Coin>,
}

#[derive(Debug)]
pub struct InstantiateMsg {}

/// The actions that change the ledger.
#[allow(inconsistent_fields)]
#[derive(Debug)]
pub enum ExecuteMsg {
    Post { name: String, price: u32, denom: String, seller_area: String },
    Buy { name: String, buyer_area: String },
    Reset { name: String, price: u32 },
    TakeOrder { id: u32, pub_key: String, price: Coin },
    ChooseBid { id: u32, shipper: String },
    UploadAddress { id: u32, address_enc: String },
    Confirm { id: u32 },
    DisputeBroken { id: u32 },
    DisputeUnsatisfied { id: u32 },
    DisputeConfirm { id: u32 },
}

/// The read-only requests.
#[derive(Debug)]
pub enum QueryMsg {
    GetGoods {},
    GetOrders {},
    GetShippingFees {},
    GetOrderDetail { id: u32 },
    GetAddresses { id: u32 },
    GetBalance {},
}

/// An instruction to the host to pay `amount` to `to_address`.
#[derive(Debug, PartialEq, Eq)]
pub struct Transfer {
    pub to_address: String,
    pub amount: Coin,
}

/// What a successful action hands to the host: the payments to make.
#[derive(Debug)]
pub struct Response {
    pub messages: Vec<Transfer>,
}

#[derive(Debug)]
pub struct GoodsResponse {
    pub goods: Vec<Goods>,
}

#[derive(Debug)]
pub struct OrdersResponse {
    pub orders: Vec<Order>,
}

#[derive(Debug)]
pub struct ShippingFeesResponse {
    pub shipping_fees: Vec<Coin>,
}

#[derive(Debug)]
pub struct OrderDetailResponse {
    pub order: Order,
}

/// The two encrypted delivery addresses of an order.
#[derive(Debug, PartialEq, Eq)]
pub struct AddressesResponse {
    pub buyer: String,
    pub seller: String,
}

#[derive(Debug)]
pub struct BalanceResponse {
    pub balance: Vec<Coin>,
}

} // verus!
