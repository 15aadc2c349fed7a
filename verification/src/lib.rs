//! Verified core of an ARP discovery and flooding tool: byte-exact
//! Ethernet/ARP frame construction and parsing, subnet target enumeration,
//! reply collection, rate-limited flood scheduling, and session state.

pub mod codec;
pub mod flood;
pub mod net;
pub mod scanner;
pub mod session;
pub mod subnet;
pub mod transmit;
