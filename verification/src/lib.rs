//! Verified core of a tool that keeps a home router's public IPv4 address
//! reachable: it rerolls the PPPoE connection of a Keenetic router until the
//! provider hands out an address that is not hidden behind a NAT.
pub mod text;
pub mod settings;
pub mod ipv4;
pub mod check_nat;
pub mod digest;
pub mod keen;
pub mod nat_monitor;
pub mod roll;
pub mod bot;
