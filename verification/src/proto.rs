//! The wire formats MiniTCP speaks: Ethernet, ARP, IPv4, ICMP, UDP and the
//! Internet checksum.

pub mod checksum;
pub mod wire;
pub mod ethernet;
pub mod ipv4;
pub mod icmp;
pub mod arp;
pub mod error;
pub mod udp;
