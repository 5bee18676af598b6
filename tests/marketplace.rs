use defi_ecommerce::contract::{
    execute, instantiate, is_well_formed, query_address, query_goods, query_order_detail,
    query_orders, query_shipping_fees, quote, try_buy, try_choose_bid, try_confirm,
    try_dispute_broken, try_dispute_confirm, try_dispute_unsatisfied, try_post, try_reset,
    try_take_order, try_upload_address,
};
use defi_ecommerce::error::ContractError;
use defi_ecommerce::helper::{assert_sent_sufficient_coin, merge_coin};
use defi_ecommerce::msg::{ExecuteMsg, InstantiateMsg, MessageInfo, Transfer};
use defi_ecommerce::state::{coin, Coin, GoodsStatus, Ledger, OrderStatus};

fn luna(amount: u128) -> Coin {
    coin(amount, String::from("LUNA"))
}

fn caller(sender: &str, funds: Vec<Coin>) -> MessageInfo {
    MessageInfo { sender: String::from(sender), funds }
}

fn s(text: &str) -> String {
    String::from(text)
}

/// A ledger with "TV" listed by "seller" at 200 LUNA in Montreal.
fn with_tv() -> Ledger {
    let (mut ledger, _) = instantiate(&caller("owner", vec![]), InstantiateMsg {});
    try_post(&mut ledger, &caller("seller", vec![]), s("TV"), 200, s("LUNA"), s("Montreal")).unwrap();
    ledger
}

/// The TV bought by "buyer" and bid on by "shipper" at `fee` LUNA, the bid
/// chosen and both addresses uploaded: order 0 is in `Shipping`.
fn shipping_tv(fee: u128) -> Ledger {
    let mut ledger = with_tv();
    try_buy(&mut ledger, &caller("buyer", vec![luna(200)]), s("TV"), s("Montreal")).unwrap();
    try_take_order(&mut ledger, &caller("shipper", vec![luna(200)]), 0, s("rsa1"), luna(fee)).unwrap();
    try_choose_bid(&mut ledger, &caller("buyer", vec![]), 0, s("shipper")).unwrap();
    try_upload_address(&mut ledger, &caller("buyer", vec![]), 0, s("buyer blob")).unwrap();
    try_upload_address(&mut ledger, &caller("seller", vec![]), 0, s("seller blob")).unwrap();
    ledger
}

fn pay(to: &str, c: Coin) -> Transfer {
    Transfer { to_address: s(to), amount: c }
}

#[test]
fn post_then_list_shows_one_available_listing() {
    let ledger = with_tv();
    let listed = query_goods(&ledger).goods;
    assert_eq!(listed.len(), 1);
    assert_eq!(listed[0].name, "TV");
    assert_eq!(listed[0].seller, "seller");
    assert_eq!(listed[0].price, luna(200));
    assert_eq!(listed[0].seller_area, "Montreal");
    assert_eq!(listed[0].status, GoodsStatus::Available);
}

#[test]
fn post_of_a_listed_name_is_refused() {
    let mut ledger = with_tv();
    let r = try_post(&mut ledger, &caller("other", vec![]), s("TV"), 5, s("LUNA"), s("Ottawa"));
    assert_eq!(r.unwrap_err(), ContractError::DuplicateListing {});
    assert_eq!(query_goods(&ledger).goods.len(), 1);
    assert_eq!(query_goods(&ledger).goods[0].price, luna(200));
}

#[test]
fn buy_opens_orders_with_consecutive_ids() {
    let mut ledger = with_tv();
    try_post(&mut ledger, &caller("seller", vec![]), s("Radio"), 30, s("LUNA"), s("Ottawa")).unwrap();
    try_buy(&mut ledger, &caller("buyer", vec![luna(200)]), s("TV"), s("Montreal")).unwrap();
    try_buy(&mut ledger, &caller("buyer2", vec![luna(30)]), s("Radio"), s("Toronto")).unwrap();
    let orders = query_orders(&ledger).orders;
    assert_eq!(orders.len(), 2);
    assert_eq!(orders[0].id, 0);
    assert_eq!(orders[1].id, 1);
    assert_eq!(orders[0].status, OrderStatus::Setup);
    assert_eq!(orders[1].buyer, "buyer2");
    assert_eq!(orders[1].price, luna(30));
    assert_eq!(orders[1].buyer_area, "Toronto");
    assert!(orders[1].shipping_fee.is_none());
    assert!(orders[1].shipper.is_none());
    assert_eq!(ledger.state.order_cnt, 2);
    assert_eq!(query_goods(&ledger).goods[0].status, GoodsStatus::Ordered);
}

#[test]
fn buy_of_an_ordered_listing_is_refused() {
    let mut ledger = with_tv();
    try_buy(&mut ledger, &caller("buyer", vec![luna(200)]), s("TV"), s("Montreal")).unwrap();
    let r = try_buy(&mut ledger, &caller("late", vec![luna(500)]), s("TV"), s("Ottawa"));
    assert_eq!(r.unwrap_err(), ContractError::GoodsNotAvailable {});
    assert_eq!(query_orders(&ledger).orders.len(), 1);
}

#[test]
fn buy_with_short_payment_is_refused() {
    let mut ledger = with_tv();
    let r = try_buy(&mut ledger, &caller("buyer", vec![luna(199)]), s("TV"), s("Montreal"));
    assert_eq!(r.unwrap_err(), ContractError::InsufficientFundsSend {});
    let r = try_buy(&mut ledger, &caller("buyer", vec![coin(500, s("earth"))]), s("TV"), s("Montreal"));
    assert_eq!(r.unwrap_err(), ContractError::InsufficientFundsSend {});
    assert_eq!(query_orders(&ledger).orders.len(), 0);
    assert_eq!(query_goods(&ledger).goods[0].status, GoodsStatus::Available);
}

#[test]
fn buy_of_an_unknown_name_is_refused() {
    let mut ledger = with_tv();
    let r = try_buy(&mut ledger, &caller("buyer", vec![luna(200)]), s("Phone"), s("Montreal"));
    assert_eq!(r.unwrap_err(), ContractError::NotFound {});
}

#[test]
fn reset_of_an_ordered_listing_is_refused() {
    let mut ledger = with_tv();
    try_buy(&mut ledger, &caller("buyer", vec![luna(200)]), s("TV"), s("Montreal")).unwrap();
    let r = try_reset(&mut ledger, &caller("seller", vec![]), s("TV"), 1);
    assert_eq!(r.unwrap_err(), ContractError::GoodsNotAvailable {});
    let r = try_reset(&mut ledger, &caller("seller", vec![]), s("Phone"), 1);
    assert_eq!(r.unwrap_err(), ContractError::NotFound {});
}

#[test]
fn take_order_below_the_price_is_refused() {
    let mut ledger = with_tv();
    try_buy(&mut ledger, &caller("buyer", vec![luna(200)]), s("TV"), s("Montreal")).unwrap();
    let r = try_take_order(&mut ledger, &caller("shipper", vec![luna(150)]), 0, s("k"), luna(5));
    assert_eq!(r.unwrap_err(), ContractError::InsufficientFundsSend {});
    let order = query_order_detail(&ledger, 0).unwrap().order;
    assert_eq!(order.status, OrderStatus::Setup);
    assert!(order.shipper_bids.is_empty());
}

#[test]
fn take_order_bids_accumulate() {
    let mut ledger = with_tv();
    try_buy(&mut ledger, &caller("buyer", vec![luna(200)]), s("TV"), s("Montreal")).unwrap();
    try_take_order(&mut ledger, &caller("s1", vec![luna(200)]), 0, s("k1"), luna(7)).unwrap();
    let order = query_order_detail(&ledger, 0).unwrap().order;
    assert_eq!(order.status, OrderStatus::Bidding);
    assert_eq!(order.shipper_bids.len(), 1);
    try_take_order(&mut ledger, &caller("s2", vec![luna(300)]), 0, s("k2"), luna(6)).unwrap();
    let order = query_order_detail(&ledger, 0).unwrap().order;
    assert_eq!(order.status, OrderStatus::Bidding);
    assert_eq!(order.shipper_bids.len(), 2);
    assert_eq!(order.shipper_bids[0].shipper, "s1");
    assert_eq!(order.shipper_bids[1].shipper, "s2");
    assert_eq!(order.shipper_bids[1].pub_key, "k2");
    assert_eq!(order.shipper_bids[1].price, luna(6));
}

#[test]
fn take_order_on_unknown_or_closed_order_is_refused() {
    let mut ledger = shipping_tv(5);
    let r = try_take_order(&mut ledger, &caller("s9", vec![luna(200)]), 0, s("k"), luna(1));
    assert_eq!(r.unwrap_err(), ContractError::OrderNotAvailable {});
    let r = try_take_order(&mut ledger, &caller("s9", vec![luna(200)]), 7, s("k"), luna(1));
    assert_eq!(r.unwrap_err(), ContractError::NotFound {});
}

#[test]
fn choose_bid_rules() {
    let mut ledger = with_tv();
    try_buy(&mut ledger, &caller("buyer", vec![luna(200)]), s("TV"), s("Montreal")).unwrap();
    let r = try_choose_bid(&mut ledger, &caller("buyer", vec![]), 0, s("s1"));
    assert_eq!(r.unwrap_err(), ContractError::OrderNotAvailable {});
    try_take_order(&mut ledger, &caller("s1", vec![luna(200)]), 0, s("k1"), luna(7)).unwrap();
    try_take_order(&mut ledger, &caller("s2", vec![luna(200)]), 0, s("k2"), luna(4)).unwrap();
    let r = try_choose_bid(&mut ledger, &caller("seller", vec![]), 0, s("s2"));
    assert_eq!(r.unwrap_err(), ContractError::Unauthorized {});
    let r = try_choose_bid(&mut ledger, &caller("buyer", vec![]), 0, s("s3"));
    assert_eq!(r.unwrap_err(), ContractError::ShipperNotFound {});
    try_choose_bid(&mut ledger, &caller("buyer", vec![]), 0, s("s2")).unwrap();
    let order = query_order_detail(&ledger, 0).unwrap().order;
    assert_eq!(order.status, OrderStatus::WaitingAddressUpload);
    assert_eq!(order.shipping_fee, Some(luna(4)));
    assert_eq!(order.shipper, Some(s("s2")));
    assert_eq!(order.shipper_key, Some(s("k2")));
    let r = try_choose_bid(&mut ledger, &caller("buyer", vec![]), 0, s("s1"));
    assert_eq!(r.unwrap_err(), ContractError::OrderNotAvailable {});
}

#[test]
fn choose_bid_takes_the_first_bid_of_a_shipper() {
    let mut ledger = with_tv();
    try_buy(&mut ledger, &caller("buyer", vec![luna(200)]), s("TV"), s("Montreal")).unwrap();
    try_take_order(&mut ledger, &caller("s1", vec![luna(200)]), 0, s("first"), luna(9)).unwrap();
    try_take_order(&mut ledger, &caller("s1", vec![luna(200)]), 0, s("second"), luna(3)).unwrap();
    try_choose_bid(&mut ledger, &caller("buyer", vec![]), 0, s("s1")).unwrap();
    let order = query_order_detail(&ledger, 0).unwrap().order;
    assert_eq!(order.shipping_fee, Some(luna(9)));
    assert_eq!(order.shipper_key, Some(s("first")));
}

#[test]
fn upload_address_moves_to_shipping_once_both_are_set() {
    let mut ledger = with_tv();
    try_buy(&mut ledger, &caller("buyer", vec![luna(200)]), s("TV"), s("Montreal")).unwrap();
    try_take_order(&mut ledger, &caller("shipper", vec![luna(200)]), 0, s("k"), luna(5)).unwrap();
    try_choose_bid(&mut ledger, &caller("buyer", vec![]), 0, s("shipper")).unwrap();
    let r = try_upload_address(&mut ledger, &caller("shipper", vec![]), 0, s("x"));
    assert_eq!(r.unwrap_err(), ContractError::Unauthorized {});
    try_upload_address(&mut ledger, &caller("seller", vec![]), 0, s("seller blob")).unwrap();
    assert_eq!(query_order_detail(&ledger, 0).unwrap().order.status, OrderStatus::WaitingAddressUpload);
    try_upload_address(&mut ledger, &caller("buyer", vec![]), 0, s("")).unwrap();
    assert_eq!(query_order_detail(&ledger, 0).unwrap().order.status, OrderStatus::WaitingAddressUpload);
    try_upload_address(&mut ledger, &caller("buyer", vec![]), 0, s("buyer blob")).unwrap();
    assert_eq!(query_order_detail(&ledger, 0).unwrap().order.status, OrderStatus::Shipping);
    let addresses = query_address(&ledger, 0).unwrap();
    assert_eq!(addresses.buyer, "buyer blob");
    assert_eq!(addresses.seller, "seller blob");
    let r = try_upload_address(&mut ledger, &caller("buyer", vec![]), 0, s("again"));
    assert_eq!(r.unwrap_err(), ContractError::OrderNotAvailable {});
}

#[test]
fn scenario_confirm_pays_seller_and_shipper() {
    let (mut ledger, _) = instantiate(&caller("owner", vec![]), InstantiateMsg {});
    let fee = quote(&ledger, &s("Montreal"), &s("Montreal")).unwrap();
    assert_eq!(fee, luna(5));
    let post = ExecuteMsg::Post { name: s("TV"), price: 200, denom: s("LUNA"), seller_area: s("Montreal") };
    execute(&mut ledger, &caller("seller", vec![]), post).unwrap();
    let buy = ExecuteMsg::Buy { name: s("TV"), buyer_area: s("Montreal") };
    execute(&mut ledger, &caller("buyer", vec![luna(200)]), buy).unwrap();
    let take = ExecuteMsg::TakeOrder { id: 0, pub_key: s("rsa1"), price: fee };
    execute(&mut ledger, &caller("S", vec![luna(200)]), take).unwrap();
    execute(&mut ledger, &caller("buyer", vec![]), ExecuteMsg::ChooseBid { id: 0, shipper: s("S") }).unwrap();
    let up = ExecuteMsg::UploadAddress { id: 0, address_enc: s("b") };
    execute(&mut ledger, &caller("buyer", vec![]), up).unwrap();
    let up = ExecuteMsg::UploadAddress { id: 0, address_enc: s("s") };
    execute(&mut ledger, &caller("seller", vec![]), up).unwrap();
    let res = execute(&mut ledger, &caller("buyer", vec![]), ExecuteMsg::Confirm { id: 0 }).unwrap();
    assert_eq!(res.messages, vec![pay("seller", luna(200)), pay("S", luna(5))]);
    assert_eq!(query_goods(&ledger).goods[0].status, GoodsStatus::Sold);
    let order = query_order_detail(&ledger, 0).unwrap().order;
    assert_eq!(order.status, OrderStatus::Confirmed);
    assert_eq!(order.goods.status, GoodsStatus::Sold);
}

#[test]
fn scenario_unsatisfied_dispute_pays_shipper_twice_the_fee() {
    let mut ledger = shipping_tv(5);
    try_dispute_unsatisfied(&mut ledger, &caller("buyer", vec![]), 0).unwrap();
    assert_eq!(query_order_detail(&ledger, 0).unwrap().order.status, OrderStatus::DisputingUnsatisfied);
    let r = try_dispute_confirm(&mut ledger, &caller("buyer", vec![]), 0);
    assert_eq!(r.unwrap_err(), ContractError::Unauthorized {});
    let res = try_dispute_confirm(&mut ledger, &caller("seller", vec![]), 0).unwrap();
    assert_eq!(res.messages, vec![pay("shipper", luna(10)), pay("buyer", luna(200))]);
    assert_eq!(query_goods(&ledger).goods[0].status, GoodsStatus::Returned);
    assert_eq!(query_order_detail(&ledger, 0).unwrap().order.status, OrderStatus::Disputed);
}

#[test]
fn broken_dispute_refunds_price_and_twice_the_fee() {
    let mut ledger = shipping_tv(5);
    try_dispute_broken(&mut ledger, &caller("buyer", vec![]), 0).unwrap();
    let res = try_dispute_confirm(&mut ledger, &caller("seller", vec![]), 0).unwrap();
    assert_eq!(res.messages, vec![pay("buyer", luna(210)), pay("seller", luna(200))]);
    assert_eq!(query_goods(&ledger).goods[0].status, GoodsStatus::Returned);
    let r = try_dispute_confirm(&mut ledger, &caller("seller", vec![]), 0);
    assert_eq!(r.unwrap_err(), ContractError::OrderNotAvailable {});
}

#[test]
fn broken_dispute_with_fee_in_another_denomination_refunds_it_separately() {
    let mut ledger = with_tv();
    try_buy(&mut ledger, &caller("buyer", vec![luna(200)]), s("TV"), s("Montreal")).unwrap();
    try_take_order(&mut ledger, &caller("shipper", vec![luna(200)]), 0, s("k"), coin(3, s("earth"))).unwrap();
    try_choose_bid(&mut ledger, &caller("buyer", vec![]), 0, s("shipper")).unwrap();
    try_upload_address(&mut ledger, &caller("buyer", vec![]), 0, s("b")).unwrap();
    try_upload_address(&mut ledger, &caller("seller", vec![]), 0, s("s")).unwrap();
    try_dispute_broken(&mut ledger, &caller("buyer", vec![]), 0).unwrap();
    let res = try_dispute_confirm(&mut ledger, &caller("seller", vec![]), 0).unwrap();
    assert_eq!(
        res.messages,
        vec![pay("buyer", luna(200)), pay("buyer", coin(6, s("earth"))), pay("seller", luna(200))]
    );
}

#[test]
fn settlement_does_not_balance_against_escrow() {
    // Escrow takes the price from the buyer and a bond of the price from the
    // shipper: 400 LUNA. A broken dispute pays out 200 + 2*5 + 200 = 410.
    let mut ledger = shipping_tv(5);
    try_dispute_broken(&mut ledger, &caller("buyer", vec![]), 0).unwrap();
    let res = try_dispute_confirm(&mut ledger, &caller("seller", vec![]), 0).unwrap();
    let paid: u128 = res.messages.iter().map(|m| m.amount.amount).sum();
    assert_eq!(paid, 410);
    // Confirmation pays 205 of the same 400; the bond is never returned.
    let mut ledger = shipping_tv(5);
    let res = try_confirm(&mut ledger, &caller("buyer", vec![]), 0).unwrap();
    let paid: u128 = res.messages.iter().map(|m| m.amount.amount).sum();
    assert_eq!(paid, 205);
}

#[test]
fn confirm_by_anyone_but_the_buyer_is_refused() {
    let mut ledger = shipping_tv(5);
    for who in ["seller", "shipper", "owner", "stranger"] {
        let r = try_confirm(&mut ledger, &caller(who, vec![]), 0);
        assert_eq!(r.unwrap_err(), ContractError::Unauthorized {});
        assert_eq!(query_order_detail(&ledger, 0).unwrap().order.status, OrderStatus::Shipping);
    }
    let r = try_dispute_broken(&mut ledger, &caller("seller", vec![]), 0);
    assert_eq!(r.unwrap_err(), ContractError::Unauthorized {});
    let r = try_confirm(&mut ledger, &caller("buyer", vec![]), 3);
    assert_eq!(r.unwrap_err(), ContractError::NotFound {});
}

#[test]
fn confirm_before_shipping_is_refused() {
    let mut ledger = with_tv();
    try_buy(&mut ledger, &caller("buyer", vec![luna(200)]), s("TV"), s("Montreal")).unwrap();
    let r = try_confirm(&mut ledger, &caller("buyer", vec![]), 0);
    assert_eq!(r.unwrap_err(), ContractError::OrderNotAvailable {});
    let r = try_dispute_unsatisfied(&mut ledger, &caller("buyer", vec![]), 0);
    assert_eq!(r.unwrap_err(), ContractError::OrderNotAvailable {});
}

#[test]
fn dispute_with_an_oversized_fee_overflows() {
    let mut ledger = with_tv();
    try_buy(&mut ledger, &caller("buyer", vec![luna(200)]), s("TV"), s("Montreal")).unwrap();
    try_take_order(&mut ledger, &caller("shipper", vec![luna(200)]), 0, s("k"), luna(u128::MAX)).unwrap();
    try_choose_bid(&mut ledger, &caller("buyer", vec![]), 0, s("shipper")).unwrap();
    try_upload_address(&mut ledger, &caller("buyer", vec![]), 0, s("b")).unwrap();
    try_upload_address(&mut ledger, &caller("seller", vec![]), 0, s("s")).unwrap();
    try_dispute_unsatisfied(&mut ledger, &caller("buyer", vec![]), 0).unwrap();
    let r = try_dispute_confirm(&mut ledger, &caller("seller", vec![]), 0);
    assert_eq!(r.unwrap_err(), ContractError::Overflow {});
    assert_eq!(query_order_detail(&ledger, 0).unwrap().order.status, OrderStatus::DisputingUnsatisfied);
    assert_eq!(query_goods(&ledger).goods[0].status, GoodsStatus::Ordered);
}

#[test]
fn fee_schedule_covers_every_pair_of_areas() {
    let (ledger, _) = instantiate(&caller("owner", vec![]), InstantiateMsg {});
    assert_eq!(ledger.state.owner, "owner");
    assert_eq!(ledger.state.order_cnt, 0);
    let areas = ["Montreal", "Ottawa", "Toronto"];
    for a in areas {
        for b in areas {
            let expected = if a == b { 5 } else { 10 };
            assert_eq!(quote(&ledger, &s(a), &s(b)).unwrap(), luna(expected));
        }
    }
    assert_eq!(quote(&ledger, &s("Montreal"), &s("Paris")).unwrap_err(), ContractError::NoRoute {});
    let fees = query_shipping_fees(&ledger).shipping_fees;
    assert_eq!(fees.len(), 9);
    assert_eq!(fees[0], luna(5));
    assert_eq!(fees[1], luna(10));
    assert_eq!(fees[4], luna(5));
}

#[test]
fn queries_on_unknown_order_are_refused() {
    let ledger = with_tv();
    assert_eq!(query_order_detail(&ledger, 0).unwrap_err(), ContractError::NotFound {});
    assert_eq!(query_address(&ledger, 0).unwrap_err(), ContractError::NotFound {});
}

#[test]
fn sufficient_coin_checks_each_required_coin() {
    let sent = vec![luna(100), coin(5, s("earth"))];
    assert_eq!(assert_sent_sufficient_coin(&sent, vec![luna(100)]), Ok(()));
    assert_eq!(assert_sent_sufficient_coin(&sent, vec![luna(100), coin(5, s("earth"))]), Ok(()));
    assert_eq!(
        assert_sent_sufficient_coin(&sent, vec![luna(101)]),
        Err(ContractError::InsufficientFundsSend {})
    );
    assert_eq!(
        assert_sent_sufficient_coin(&sent, vec![luna(1), coin(1, s("atom"))]),
        Err(ContractError::InsufficientFundsSend {})
    );
    assert_eq!(assert_sent_sufficient_coin(&[], vec![luna(0)]), Ok(()));
    assert_eq!(assert_sent_sufficient_coin(&[], vec![]), Ok(()));
}

#[test]
fn merge_coin_adds_matching_denominations() {
    let merged = merge_coin(vec![luna(200), coin(3, s("earth"))], vec![coin(7, s("atom")), luna(10), luna(99)]);
    assert_eq!(merged, vec![luna(210), coin(3, s("earth"))]);
    assert_eq!(merge_coin(vec![], vec![luna(1)]), vec![]);
}

#[test]
fn well_formedness_check_spots_a_bad_ledger() {
    let mut ledger = shipping_tv(5);
    assert!(is_well_formed(&ledger));
    ledger.orders[0].buyer_addr_enc = String::new();
    assert!(!is_well_formed(&ledger));
    let mut ledger = with_tv();
    assert!(is_well_formed(&ledger));
    ledger.state.order_cnt = 3;
    assert!(!is_well_formed(&ledger));
}

#[test]
fn well_formedness_ties_listing_status_to_its_order() {
    let mut ledger = shipping_tv(5);
    ledger.goods[0].status = GoodsStatus::Available;
    assert!(!is_well_formed(&ledger));
    let mut ledger = shipping_tv(5);
    try_confirm(&mut ledger, &caller("buyer", vec![]), 0).unwrap();
    assert!(is_well_formed(&ledger));
    ledger.goods[0].status = GoodsStatus::Returned;
    assert!(!is_well_formed(&ledger));
    let mut ledger = shipping_tv(5);
    let copy = ledger.orders[0].clone();
    ledger.orders.push(copy);
    ledger.orders[1].id = 1;
    ledger.state.order_cnt = 2;
    assert!(!is_well_formed(&ledger));
}
