//! Token distribution contracts, modelled as verified state machines.
pub mod amount;
pub mod data;
pub mod collections;
pub mod distribution;
pub mod smart_send_v2;
pub mod smart_send;
pub mod remarkable_tools;

pub use crate::remarkable_tools::smart_send::{OpenSmartSend, SmartSendModule};
pub use crate::smart_send::{SmartSend, SmartSendContract};
