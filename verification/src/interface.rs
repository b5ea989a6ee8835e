//! Where frames come from and go to: hex lines typed by hand, pcap
//! captures, and the length-prefixed records the TAP sidecar relays.

pub mod hex;
pub mod pcap;
pub mod fwd;
