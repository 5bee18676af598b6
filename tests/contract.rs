use defi_ecommerce::contract::{execute, instantiate, query_address, query_goods, query_order_detail, query_orders};
use defi_ecommerce::error::ContractError;
use defi_ecommerce::msg::{ExecuteMsg, InstantiateMsg, MessageInfo};
use defi_ecommerce::state::{coin, Coin};

fn coins(amount: u128, denom: &str) -> Vec<Coin> {
    vec![coin(amount, String::from(denom))]
}

fn mock_info(sender: &str, funds: &[Coin]) -> MessageInfo {
    MessageInfo { sender: String::from(sender), funds: funds.to_vec() }
}

#[test]
fn test_post() {
    let msg = InstantiateMsg {};
    let info = mock_info("creator", &coins(1000, "earth"));

    let (mut deps, res) = instantiate(&info, msg);
    assert_eq!(0, res.messages.len());

    let msg = ExecuteMsg::Post {
        name: String::from("TV"),
        price: 200,
        denom: String::from("LUNA"),
        seller_area: String::from("Montreal"),
    };
    let _res = execute(&mut deps, &info, msg).unwrap();

    let value = query_goods(&deps);
    println!("{:?}", value);
}

#[test]
fn test_buy() {
    let msg = InstantiateMsg {};
    let info = mock_info("creator", &coins(1000, "earth"));

    let (mut deps, res) = instantiate(&info, msg);
    assert_eq!(0, res.messages.len());

    let msg = ExecuteMsg::Post {
        name: String::from("TV"),
        price: 200,
        denom: String::from("LUNA"),
        seller_area: String::from("Montreal"),
    };
    let _res = execute(&mut deps, &info, msg).unwrap();

    let msg2 = ExecuteMsg::Buy { name: String::from("TV"), buyer_area: String::from("Montreal") };
    let info2 = mock_info("buyer", &coins(2000, "LUNA"));
    let _res = execute(&mut deps, &info2, msg2).unwrap();

    let value = query_orders(&deps);
    println!("{:?}", value);

    let value = query_address(&deps, 0u32).unwrap();
    println!("{:?}", value);

    let value = query_order_detail(&deps, 0u32).unwrap();
    println!("{:?}", value);
}

#[test]
fn test_reset() {
    let msg = InstantiateMsg {};
    let info = mock_info("creator", &coins(1000, "earth"));

    let (mut deps, res) = instantiate(&info, msg);
    assert_eq!(0, res.messages.len());

    let msg = ExecuteMsg::Post {
        name: String::from("TV"),
        price: 200,
        denom: String::from("LUNA"),
        seller_area: String::from("Montreal"),
    };
    let _res = execute(&mut deps, &info, msg).unwrap();

    let value = query_goods(&deps);
    println!("{:?}", value);
    assert_eq!(200u128, value.goods[0].price.amount);

    let msg2 = || ExecuteMsg::Reset { name: String::from("TV"), price: 20 };
    let info2 = mock_info("creator_fake", &coins(1000, "earth"));

    let res = execute(&mut deps, &info2, msg2());
    match res {
        Err(ContractError::Unauthorized {}) => {}
        _ => panic!("Not buyer, not authorized!"),
    }
    let _res = execute(&mut deps, &info, msg2());

    let value = query_goods(&deps);
    println!("{:?}", value);
    assert_eq!(20u128, value.goods[0].price.amount);
}

#[test]
fn test_take_order() {
    let msg = InstantiateMsg {};
    let info = mock_info("creator", &coins(1000, "earth"));

    let (mut deps, res) = instantiate(&info, msg);
    assert_eq!(0, res.messages.len());

    let msg = ExecuteMsg::Post {
        name: String::from("TV"),
        price: 200,
        denom: String::from("LUNA"),
        seller_area: String::from("Montreal"),
    };
    let _res = execute(&mut deps, &info, msg).unwrap();

    let msg2 = ExecuteMsg::Buy { name: String::from("TV"), buyer_area: String::from("Montreal") };
    let info2 = mock_info("buyer", &coins(2000, "LUNA"));
    let _res = execute(&mut deps, &info2, msg2).unwrap();

    let msg3 = ExecuteMsg::TakeOrder {
        id: 0,
        pub_key: String::from("rsa1"),
        price: coin(10, String::from("LUNA")),
    };
    let info3 = mock_info("shipper1", &coins(2000, "LUNA"));
    let _res = execute(&mut deps, &info3, msg3).unwrap();

    let msg4 = ExecuteMsg::TakeOrder {
        id: 0,
        pub_key: String::from("rsa2"),
        price: coin(10, String::from("LUNA")),
    };
    let info4 = mock_info("shipper2", &coins(5000, "LUNA"));
    let _res = execute(&mut deps, &info4, msg4).unwrap();

    let msg33 = ExecuteMsg::ChooseBid { id: 0, shipper: String::from("shipper1") };
    let info33 = mock_info("buyer", &coins(0, "LUNA"));
    let _res = execute(&mut deps, &info33, msg33).unwrap();

    let value = query_orders(&deps);
    println!("{:?}", value);
}

#[test]
fn test_upload_address() {
    let msg = InstantiateMsg {};
    let info = mock_info("seller", &coins(1000, "earth"));

    let (mut deps, res) = instantiate(&info, msg);
    assert_eq!(0, res.messages.len());

    let msg = ExecuteMsg::Post {
        name: String::from("TV"),
        price: 200,
        denom: String::from("LUNA"),
        seller_area: String::from("Montreal"),
    };
    let _res = execute(&mut deps, &info, msg).unwrap();

    let msg2 = ExecuteMsg::Buy { name: String::from("TV"), buyer_area: String::from("Montreal") };
    let info2 = mock_info("buyer", &coins(2000, "LUNA"));
    let _res = execute(&mut deps, &info2, msg2).unwrap();

    let msg3 = ExecuteMsg::TakeOrder {
        id: 0,
        pub_key: String::from("rsa1"),
        price: coin(10, String::from("LUNA")),
    };
    let info3 = mock_info("shipper", &coins(2000, "LUNA"));
    let _res = execute(&mut deps, &info3, msg3).unwrap();

    let msg33 = ExecuteMsg::ChooseBid { id: 0, shipper: String::from("shipper") };
    let info33 = mock_info("buyer", &coins(0, "LUNA"));
    let _res = execute(&mut deps, &info33, msg33).unwrap();

    let msg4 = ExecuteMsg::UploadAddress { id: 0, address_enc: String::from("my address") };
    let info4 = mock_info("buyer", &coins(0, "LUNA"));
    let _res = execute(&mut deps, &info4, msg4).unwrap();

    let msg5 = ExecuteMsg::UploadAddress { id: 0, address_enc: String::from("my address") };
    let info5 = mock_info("seller", &coins(0, "LUNA"));
    let _res = execute(&mut deps, &info5, msg5).unwrap();
}

#[test]
fn test_confirm() {
    let msg = InstantiateMsg {};
    let info = mock_info("seller", &coins(1000, "earth"));

    let (mut deps, res) = instantiate(&info, msg);
    assert_eq!(0, res.messages.len());

    let msg = ExecuteMsg::Post {
        name: String::from("TV"),
        price: 200,
        denom: String::from("LUNA"),
        seller_area: String::from("Montreal"),
    };
    let _res = execute(&mut deps, &info, msg).unwrap();

    let msg2 = ExecuteMsg::Buy { name: String::from("TV"), buyer_area: String::from("Montreal") };
    let info2 = mock_info("buyer", &coins(2000, "LUNA"));
    let _res = execute(&mut deps, &info2, msg2).unwrap();

    let msg3 = ExecuteMsg::TakeOrder {
        id: 0,
        pub_key: String::from("rsa1"),
        price: coin(10, String::from("LUNA")),
    };
    let info3 = mock_info("shipper", &coins(2000, "LUNA"));
    let _res = execute(&mut deps, &info3, msg3).unwrap();

    let msg33 = ExecuteMsg::ChooseBid { id: 0, shipper: String::from("shipper") };
    let info33 = mock_info("buyer", &coins(0, "LUNA"));
    let _res = execute(&mut deps, &info33, msg33).unwrap();

    let msg4 = ExecuteMsg::UploadAddress { id: 0, address_enc: String::from("my address") };
    let info4 = mock_info("buyer", &coins(0, "LUNA"));
    let _res = execute(&mut deps, &info4, msg4).unwrap();

    let msg5 = ExecuteMsg::UploadAddress { id: 0, address_enc: String::from("my address") };
    let info5 = mock_info("seller", &coins(0, "LUNA"));
    let _res = execute(&mut deps, &info5, msg5).unwrap();

    let msg6 = ExecuteMsg::Confirm { id: 0 };
    let info6 = mock_info("buyer", &coins(0, "LUNA"));
    let _res = execute(&mut deps, &info6, msg6).unwrap();
}

#[test]
fn test_dispute() {
    let msg = InstantiateMsg {};
    let info = mock_info("seller", &coins(1000, "earth"));

    let (mut deps, res) = instantiate(&info, msg);
    assert_eq!(0, res.messages.len());

    let msg = ExecuteMsg::Post {
        name: String::from("TV"),
        price: 200,
        denom: String::from("LUNA"),
        seller_area: String::from("Montreal"),
    };
    let _res = execute(&mut deps, &info, msg).unwrap();

    let msg2 = ExecuteMsg::Buy { name: String::from("TV"), buyer_area: String::from("Montreal") };
    let info2 = mock_info("buyer", &coins(2000, "LUNA"));
    let _res = execute(&mut deps, &info2, msg2).unwrap();

    let msg31 = ExecuteMsg::TakeOrder {
        id: 0,
        pub_key: String::from("rsa1"),
        price: coin(10, String::from("LUNA")),
    };
    let info31 = mock_info("shipper1", &coins(2000, "LUNA"));
    let _res = execute(&mut deps, &info31, msg31).unwrap();

    let msg32 = ExecuteMsg::TakeOrder {
        id: 0,
        pub_key: String::from("rsa1"),
        price: coin(8, String::from("LUNA")),
    };
    let info32 = mock_info("shipper2", &coins(2000, "LUNA"));
    let _res = execute(&mut deps, &info32, msg32).unwrap();

    let msg33 = ExecuteMsg::ChooseBid { id: 0, shipper: String::from("shipper1") };
    let info33 = mock_info("buyer", &coins(0, "LUNA"));
    let _res = execute(&mut deps, &info33, msg33).unwrap();

    let msg4 = ExecuteMsg::UploadAddress { id: 0, address_enc: String::from("my address") };
    let info4 = mock_info("buyer", &coins(0, "LUNA"));
    let _res = execute(&mut deps, &info4, msg4).unwrap();

    let msg5 = ExecuteMsg::UploadAddress { id: 0, address_enc: String::from("my address") };
    let info5 = mock_info("seller", &coins(0, "LUNA"));
    let _res = execute(&mut deps, &info5, msg5).unwrap();

    let msg6 = ExecuteMsg::DisputeUnsatisfied { id: 0 };
    let info6 = mock_info("buyer", &coins(0, "LUNA"));
    let _res = execute(&mut deps, &info6, msg6).unwrap();

    let msg7 = ExecuteMsg::DisputeConfirm { id: 0 };
    let info7 = mock_info("seller", &coins(0, "LUNA"));
    let res7 = execute(&mut deps, &info7, msg7).unwrap();
    println!("{:?}", res7.messages);
}
