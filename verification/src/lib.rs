//! Data-channel and control-channel processing core of a Bluetooth Low Energy
//! Link Layer: bounded packet queues, L2CAP reassembly, the LL Control PDU
//! responder and the guard for initiating LLCP procedures.

pub mod error;
pub mod bytes;
pub mod llcp;
pub mod queue;
pub mod l2cap;
pub mod connection;
pub mod responder;
