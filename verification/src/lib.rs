//! A network throughput tester: the decisions, wire formats and bookkeeping
//! shared by the speed-test client and server, verified with Verus.
//!
//! - [`protocol`]: the transports, the four tests and the words that open them;
//! - [`command`]: white-space trimming of received commands;
//! - [`wire`]: big-endian integers and the datagrams of the UDP tests;
//! - [`loss`]: the receiver's count of lost datagrams;
//! - [`throughput`]: byte counting and sender pacing;
//! - [`handshake`]: the client's side of a UDP test's opening exchange;
//! - [`client`]: the settings form and what the client does on its events.
pub mod client;
pub mod command;
pub mod handshake;
pub mod loss;
pub mod protocol;
pub mod throughput;
pub mod wire;

pub use protocol::Protocol;
