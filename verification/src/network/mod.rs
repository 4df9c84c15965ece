//! The network engine, one module per protocol.
pub mod addr;
pub mod arp;
pub mod attack;
pub mod cidr;
pub mod eth;
pub mod icmp;
pub mod ports;
pub mod sockets;
pub mod table;
pub mod tcp;
pub mod text;
pub mod time;
pub mod udp;
pub mod wire;

pub use ports::{PortScan, PortScans};
pub use text::{Stringable, StringableVec};
