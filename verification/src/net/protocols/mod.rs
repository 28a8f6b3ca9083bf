//! The protocols of the network stack, layered Ethernet, ARP, IP, UDP, TCP
//! and DHCP

pub mod eth;

pub mod ip;
pub mod udp;
pub mod tcp;
pub mod connection;
pub mod arp;
pub mod dhcp;
