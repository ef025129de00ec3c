//! A KISS-over-TCP bridge library: allocate a pseudo-terminal, register its
//! follower device as an AX.25 network interface, and relay raw bytes in both
//! directions between the pseudo-terminal controller and a TCP connection to a
//! software sound modem.
//!
//! This crate holds the decision logic of the bridge: command-line argument
//! validation, decimal parsing of the MTU, the fixed attachment policy, and
//! the model of the two unidirectional relay pumps. The surrounding process
//! (pseudo-terminal allocation, the attach call, sockets and threads) feeds
//! these functions plain values and carries out the actions they return.

pub mod attach;
pub mod cli;
pub mod numparse;
pub mod relay;
