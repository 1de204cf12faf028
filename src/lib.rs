//! A client library for the OpenRGB SDK binary protocol: the wire codec for
//! requests and responses, the decisions of the connection engine, and the
//! lighting state machine that drives a DRAM controller.

pub mod protocol;
pub mod wire;
pub mod unparse;
pub mod parse;
pub mod packet;
pub mod request;
pub mod connection;
pub mod state_machine;
