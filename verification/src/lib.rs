//! A "what is my address" responder library: address modelling and text
//! rendering, response framing, argument parsing, and the per-listener
//! accept/receive state machine with its error-threshold circuit breaker.

pub mod addr;
pub mod args;
pub mod server;
pub mod text;
