use vstd::prelude::*;

verus! {

/// Why an action was refused. A refused action changes nothing.
#[derive(Clone, Copy, Debug, PartialEq, Eq, Structural)]
pub enum ContractError {
    /// The caller does not hold the role that the action needs.
    Unauthorized {},
    /// The attached payment does not cover the required amount.
    InsufficientFundsSend {},
    /// The listing is not in a status that permits the action.
    GoodsNotAvailable {},
    /// The order is not in a status that permits the action.
    OrderNotAvailable {},
    /// The chosen shipper has no bid on the order.
    ShipperNotFound {},
    /// No listing of that name, or no order of that id.
    NotFound {},
    /// The fee schedule has no entry for the area pair.
    NoRoute {},
    /// A listing of that name already exists.
    DuplicateListing {},
    /// An amount or a counter would not fit its integer type.
    Overflow {},
}

} // verus!
