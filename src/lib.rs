//! A peer-to-peer marketplace with custodial escrow: sellers list goods,
//! buyers fund purchases, shippers bid to deliver, and settlement decides
//! who is paid once an order is confirmed or disputed.
pub mod state;
pub mod error;
pub mod helper;
pub mod msg;
pub mod contract;
pub mod settlement;
pub mod laws;

pub use crate::error::ContractError;
