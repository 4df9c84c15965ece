//! Sans-I/O engine of a local-network probe: address ranges, ARP discovery and announcements,
//! echo probing, port scanning and frame relaying, each as verified logic over plain values.
pub mod gui;
pub mod network;
